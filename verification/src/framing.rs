//! Self-synchronizing frame encoding.
//!
//! A frame is the escaped body of one serialized record followed by a single
//! [`TERMINATOR`] byte.  The escape transform guarantees that no body byte
//! equals the terminator, so a receiver can always resynchronize on the next
//! terminator after corruption.  Runs of equal bytes are length-compressed:
//! the body is a sequence of tokens, where a run of `k` zeros becomes
//! `[ESC_ZERO, k]`, a run of `k` copies of any other byte `b` becomes
//! `[ESC_RUN, k, b]` (also used for a lone escape byte), and a single byte
//! above the escape range stands for itself.  Decoding inverts the tokens
//! exactly, so framing round-trips byte for byte — including zero bytes and
//! every other byte value in the payload.

use vstd::prelude::*;

verus! {

/// The reserved frame terminator; never appears inside an encoded body.
pub const TERMINATOR: u8 = 0;

/// Introduces a run of terminator-valued bytes: `[ESC_ZERO, k]`.
pub const ESC_ZERO: u8 = 1;

/// Introduces a general run: `[ESC_RUN, k, b]`.
pub const ESC_RUN: u8 = 2;

/// Longest run one token can carry.
pub const MAX_RUN: usize = 255;

/// Length of the maximal leading run of equal bytes.
pub open spec fn run_len(s: Seq<u8>) -> nat
    decreases s.len(),
{
    if s.len() == 0 {
        0
    } else if s.len() >= 2 && s[1] == s[0] {
        (1 + run_len(s.skip(1))) as nat
    } else {
        1
    }
}

/// Length of the leading run a token will carry: the maximal run, capped.
pub open spec fn head_run(s: Seq<u8>) -> nat {
    if run_len(s) <= MAX_RUN {
        run_len(s)
    } else {
        MAX_RUN as nat
    }
}

/// The token encoding a run of `k` copies of byte `b`, `1 <= k <= 255`.
pub open spec fn token(b: u8, k: nat) -> Seq<u8> {
    if b == TERMINATOR {
        seq![ESC_ZERO, k as u8]
    } else if b <= ESC_RUN || k >= 2 {
        seq![ESC_RUN, k as u8, b]
    } else {
        seq![b]
    }
}

/// The escaped body of `s`: tokens for successive leading runs.
pub open spec fn escape(s: Seq<u8>) -> Seq<u8>
    decreases s.len(),
    via escape_decreases
{
    if s.len() == 0 {
        Seq::empty()
    } else {
        token(s[0], head_run(s)) + escape(s.skip(head_run(s) as int))
    }
}

#[via_fn]
proof fn escape_decreases(s: Seq<u8>) {
    if s.len() > 0 {
        lemma_run_len_is_run(s);
    }
}

/// Invert the escape transform; `None` on any malformed body, including a
/// terminator byte or a zero run length inside the body.
pub open spec fn unescape(t: Seq<u8>) -> Option<Seq<u8>>
    decreases t.len(),
{
    if t.len() == 0 {
        Some(Seq::empty())
    } else if t[0] == TERMINATOR {
        None
    } else if t[0] == ESC_ZERO {
        if t.len() >= 2 && t[1] != 0 {
            match unescape(t.skip(2)) {
                Some(r) => Some(Seq::new(t[1] as nat, |i: int| TERMINATOR) + r),
                None => None,
            }
        } else {
            None
        }
    } else if t[0] == ESC_RUN {
        if t.len() >= 3 && t[1] != 0 {
            match unescape(t.skip(3)) {
                Some(r) => Some(Seq::new(t[1] as nat, |i: int| t[2]) + r),
                None => None,
            }
        } else {
            None
        }
    } else {
        match unescape(t.skip(1)) {
            Some(r) => Some(seq![t[0]] + r),
            None => None,
        }
    }
}

/// A whole frame: escaped body, then the terminator.
pub open spec fn frame(s: Seq<u8>) -> Seq<u8> {
    escape(s) + seq![TERMINATOR]
}

/// Decode a whole frame: it must end in the terminator and unescape cleanly.
pub open spec fn spec_unframe(t: Seq<u8>) -> Option<Seq<u8>> {
    if t.len() >= 1 && t.last() == TERMINATOR {
        unescape(t.take(t.len() - 1))
    } else {
        None
    }
}

// ------------------------------------------------------------------
// Facts about runs.
// ------------------------------------------------------------------

/// The leading run really is a run: all its bytes equal the first, and it is
/// maximal.
pub proof fn lemma_run_len_is_run(s: Seq<u8>)
    requires
        s.len() > 0,
    ensures
        1 <= run_len(s) <= s.len(),
        forall|i: int| 0 <= i < run_len(s) ==> #[trigger] s[i] == s[0],
        run_len(s) < s.len() ==> s[run_len(s) as int] != s[0],
    decreases s.len(),
{
    if s.len() >= 2 && s[1] == s[0] {
        lemma_run_len_is_run(s.skip(1));
        assert forall|i: int| 0 <= i < run_len(s) implies #[trigger] s[i] == s[0] by {
            if i >= 1 {
                assert(s.skip(1)[i - 1] == s[i]);
            }
        }
        if run_len(s) < s.len() {
            assert(s.skip(1)[run_len(s) - 1] == s[run_len(s) as int]);
        }
    }
}

/// Exact characterization: a prefix of equal bytes that ends at the length,
/// at a differing byte, or at the cap, is what the encoder computes.
pub proof fn lemma_head_run_characterization(s: Seq<u8>, k: nat)
    requires
        s.len() > 0,
        1 <= k <= s.len(),
        k <= MAX_RUN,
        forall|i: int| 0 <= i < k ==> #[trigger] s[i] == s[0],
        k == MAX_RUN || k == s.len() || s[k as int] != s[0],
    ensures
        head_run(s) == k,
    decreases s.len(),
{
    lemma_run_len_is_run(s);
    if k == MAX_RUN {
        if run_len(s) > MAX_RUN {
            assert(head_run(s) == MAX_RUN);
        } else {
            if run_len(s) < k {
                assert(s[run_len(s) as int] == s[0]);
                assert(s[run_len(s) as int] != s[0]);
            }
            assert(run_len(s) == k);
        }
    } else if k == s.len() {
        if run_len(s) < k {
            assert(s[run_len(s) as int] == s[0]);
            assert(s[run_len(s) as int] != s[0]);
        }
        assert(run_len(s) == k);
    } else {
        if run_len(s) < k {
            assert(s[run_len(s) as int] == s[0]);
            assert(s[run_len(s) as int] != s[0]);
        }
        if run_len(s) > k {
            assert(s[k as int] == s[0]);
        }
        assert(run_len(s) == k);
    }
}

// ------------------------------------------------------------------
// Laws about the escape transform.
// ------------------------------------------------------------------

/// Law: the escaped body never contains the terminator byte, so the wire
/// frame holds no unescaped terminator before the true frame end.
pub proof fn lemma_escape_no_terminator(s: Seq<u8>)
    ensures
        forall|i: int| 0 <= i < escape(s).len() ==> escape(s)[i] != TERMINATOR,
    decreases s.len(),
{
    if s.len() > 0 {
        let k = head_run(s);
        lemma_run_len_is_run(s);
        lemma_escape_no_terminator(s.skip(k as int));
        let tok = token(s[0], k);
        assert forall|i: int| 0 <= i < escape(s).len() implies escape(s)[i] != TERMINATOR by {
            if i >= tok.len() {
                assert(escape(s)[i] == escape(s.skip(k as int))[i - tok.len()]);
            }
        }
    }
}

/// Law: a frame contains exactly one terminator, as its last byte.
pub proof fn lemma_frame_single_terminator(s: Seq<u8>)
    ensures
        frame(s).len() >= 1,
        frame(s).last() == TERMINATOR,
        forall|i: int| 0 <= i < frame(s).len() - 1 ==> frame(s)[i] != TERMINATOR,
{
    lemma_escape_no_terminator(s);
    assert forall|i: int| 0 <= i < frame(s).len() - 1 implies frame(s)[i] != TERMINATOR by {
        assert(frame(s)[i] == escape(s)[i]);
    }
}

/// Law: worst-case expansion — the escaped body is at most three bytes per
/// input byte, so a frame fits in `3 * len + 1` bytes.
pub proof fn lemma_escape_expansion(s: Seq<u8>)
    ensures
        escape(s).len() <= 3 * s.len(),
        frame(s).len() <= 3 * s.len() + 1,
    decreases s.len(),
{
    if s.len() > 0 {
        lemma_run_len_is_run(s);
        lemma_escape_expansion(s.skip(head_run(s) as int));
    }
}

/// Law: framing round-trips — unescaping the escaped body of any byte
/// sequence gives back exactly that sequence.
pub proof fn lemma_unescape_escape(s: Seq<u8>)
    ensures
        unescape(escape(s)) == Some(s),
    decreases s.len(),
{
    if s.len() == 0 {
        assert(escape(s) =~= Seq::<u8>::empty());
    } else {
        let k = head_run(s);
        lemma_run_len_is_run(s);
        let rest = s.skip(k as int);
        lemma_unescape_escape(rest);
        let tok = token(s[0], k);
        let t = escape(s);
        assert(t == tok + escape(rest));
        assert(t.len() >= tok.len());
        assert(t.skip(tok.len() as int) =~= escape(rest));
        assert(1 <= k <= 255);
        if s[0] == TERMINATOR {
            assert(tok == seq![ESC_ZERO, k as u8]);
            assert(t[0] == ESC_ZERO);
            assert(t[1] == k as u8);
            assert(t[1] != 0);
            assert(t.len() >= 2);
            assert(t.skip(2) =~= escape(rest));
            assert(unescape(t) == Some(Seq::new(k, |i: int| TERMINATOR) + rest));
            assert(Seq::new(k, |i: int| TERMINATOR) + rest =~= s);
        } else if s[0] <= ESC_RUN || k >= 2 {
            assert(tok == seq![ESC_RUN, k as u8, s[0]]);
            assert(t[0] == ESC_RUN);
            assert(t[1] == k as u8);
            assert(t[2] == s[0]);
            assert(t[1] != 0);
            assert(t.len() >= 3);
            assert(t.skip(3) =~= escape(rest));
            assert(unescape(t) == Some(Seq::new(k, |i: int| s[0]) + rest));
            assert(Seq::new(k, |i: int| s[0]) + rest =~= s);
        } else {
            assert(tok == seq![s[0]]);
            assert(t[0] == s[0]);
            assert(t[0] != TERMINATOR && t[0] != ESC_ZERO && t[0] != ESC_RUN);
            assert(t.skip(1) =~= escape(rest));
            assert(k == 1);
            assert(unescape(t) == Some(seq![s[0]] + rest));
            assert(seq![s[0]] + rest =~= s);
        }
    }
}

/// Law: decoding a whole frame of any byte sequence gives back exactly that
/// sequence.
pub proof fn lemma_frame_round_trip(s: Seq<u8>)
    ensures
        spec_unframe(frame(s)) == Some(s),
{
    lemma_unescape_escape(s);
    assert(frame(s).take(frame(s).len() - 1) =~= escape(s));
}

// ------------------------------------------------------------------
// Executable encoder and decoder.
// ------------------------------------------------------------------

/// Append the escaped body of `input` to `out`.
pub fn escape_into(input: &Vec<u8>, out: &mut Vec<u8>)
    ensures
        final(out)@ == old(out)@ + escape(input@),
{
    let n = input.len();
    let mut i: usize = 0;
    proof {
        assert(input@.skip(0) =~= input@);
    }
    while i < n
        invariant
            n == input@.len(),
            i <= n,
            out@ + escape(input@.skip(i as int)) == old(out)@ + escape(input@),
        decreases n - i,
    {
        let b = input[i];
        let mut k: usize = 1;
        while i + k < n && k < MAX_RUN && input[i + k] == b
            invariant
                n == input@.len(),
                i < n,
                1 <= k <= MAX_RUN,
                i + k <= n,
                b == input@[i as int],
                forall|j: int| 0 <= j < k ==> #[trigger] input@.skip(i as int)[j] == b,
            decreases n - i - k,
        {
            proof {
                assert(input@.skip(i as int)[k as int] == input@[i + k]);
            }
            k += 1;
        }
        proof {
            let suffix = input@.skip(i as int);
            assert(suffix.len() == n - i);
            assert(suffix[0] == b);
            assert(k == MAX_RUN || i + k == n || input@[i + k] != b);
            if i + k < n && k < MAX_RUN {
                assert(suffix[k as int] == input@[i + k]);
            }
            lemma_head_run_characterization(suffix, k as nat);
            assert(escape(suffix) == token(b, k as nat) + escape(suffix.skip(k as int)));
            assert(suffix.skip(k as int) =~= input@.skip(i + k));
        }
        if b == TERMINATOR {
            out.push(ESC_ZERO);
            out.push(k as u8);
            proof {
                assert(token(b, k as nat) =~= seq![ESC_ZERO, k as u8]);
            }
        } else if b <= ESC_RUN || k >= 2 {
            out.push(ESC_RUN);
            out.push(k as u8);
            out.push(b);
            proof {
                assert(token(b, k as nat) =~= seq![ESC_RUN, k as u8, b]);
            }
        } else {
            out.push(b);
            proof {
                assert(token(b, k as nat) =~= seq![b]);
            }
        }
        proof {
            assert(out@ + escape(input@.skip(i + k)) =~= old(out)@ + escape(input@));
        }
        i += k;
    }
    proof {
        assert(input@.skip(n as int) =~= Seq::<u8>::empty());
        assert(out@ =~= old(out)@ + escape(input@));
    }
}

/// Encode one frame: the escaped body of `input`, then the terminator.
pub fn encode_frame(input: &Vec<u8>) -> (out: Vec<u8>)
    ensures
        out@ == frame(input@),
{
    let mut out: Vec<u8> = Vec::new();
    escape_into(input, &mut out);
    out.push(TERMINATOR);
    proof {
        assert(out@ =~= frame(input@));
    }
    out
}

/// Decoding glue: if decoding the suffix from `i` gives `tail`, decoding the
/// whole body gives the bytes already produced followed by `tail`.
pub open spec fn unescape_step_inv(full: Seq<u8>, i: int, done: Seq<u8>) -> bool {
    match unescape(full.skip(i)) {
        Some(tail) => unescape(full) == Some(done + tail),
        None => unescape(full) is None,
    }
}

/// Invert the escape transform on a frame body.  Returns `None` exactly on
/// the bodies the specification rejects.
pub fn unescape_bytes(body: &Vec<u8>) -> (r: Option<Vec<u8>>)
    ensures
        match r {
            Some(v) => unescape(body@) == Some(v@),
            None => unescape(body@) is None,
        },
{
    let n = body.len();
    let mut out: Vec<u8> = Vec::new();
    let mut i: usize = 0;
    proof {
        assert(body@.skip(0) =~= body@);
    }
    while i < n
        invariant
            n == body@.len(),
            i <= n,
            unescape_step_inv(body@, i as int, out@),
        decreases n - i,
    {
        let ghost pre_suffix = body@.skip(i as int);
        let ghost pre_out = out@;
        let b = body[i];
        proof {
            assert(pre_suffix[0] == b);
        }
        if b == TERMINATOR {
            return None;
        } else if b == ESC_ZERO {
            if n - i < 2 || body[i + 1] == 0 {
                return None;
            }
            let k = body[i + 1];
            let mut j: u8 = 0;
            while j < k
                invariant
                    j <= k,
                    out@ == pre_out + Seq::new(j as nat, |x: int| TERMINATOR),
                decreases k - j,
            {
                out.push(TERMINATOR);
                proof {
                    assert(out@ =~= pre_out + Seq::new((j + 1) as nat, |x: int| TERMINATOR));
                }
                j += 1;
            }
            proof {
                assert(pre_suffix[1] == k);
                assert(pre_suffix.len() >= 2);
                assert(pre_suffix.skip(2) =~= body@.skip(i + 2));
                match unescape(body@.skip(i + 2)) {
                    Some(tail) => {
                        assert(unescape(pre_suffix) == Some(
                            Seq::new(k as nat, |x: int| TERMINATOR) + tail,
                        ));
                        assert(pre_out + (Seq::new(k as nat, |x: int| TERMINATOR) + tail) =~= out@
                            + tail);
                    },
                    None => {
                        assert(unescape(pre_suffix) is None);
                    },
                }
            }
            i += 2;
        } else if b == ESC_RUN {
            if n - i < 3 || body[i + 1] == 0 {
                return None;
            }
            let k = body[i + 1];
            let v = body[i + 2];
            let mut j: u8 = 0;
            while j < k
                invariant
                    j <= k,
                    out@ == pre_out + Seq::new(j as nat, |x: int| v),
                decreases k - j,
            {
                out.push(v);
                proof {
                    assert(out@ =~= pre_out + Seq::new((j + 1) as nat, |x: int| v));
                }
                j += 1;
            }
            proof {
                assert(pre_suffix[1] == k);
                assert(pre_suffix[2] == v);
                assert(pre_suffix.len() >= 3);
                assert(pre_suffix.skip(3) =~= body@.skip(i + 3));
                match unescape(body@.skip(i + 3)) {
                    Some(tail) => {
                        assert(unescape(pre_suffix) == Some(Seq::new(k as nat, |x: int| v) + tail));
                        assert(pre_out + (Seq::new(k as nat, |x: int| v) + tail) =~= out@ + tail);
                    },
                    None => {
                        assert(unescape(pre_suffix) is None);
                    },
                }
            }
            i += 3;
        } else {
            out.push(b);
            proof {
                assert(pre_suffix.skip(1) =~= body@.skip(i + 1));
                match unescape(body@.skip(i + 1)) {
                    Some(tail) => {
                        assert(unescape(pre_suffix) == Some(seq![b] + tail));
                        assert(pre_out + (seq![b] + tail) =~= out@ + tail);
                    },
                    None => {
                        assert(unescape(pre_suffix) is None);
                    },
                }
            }
            i += 1;
        }
    }
    proof {
        assert(body@.skip(n as int) =~= Seq::<u8>::empty());
        assert(unescape(body@.skip(n as int)) == Some(Seq::<u8>::empty()));
        assert(out@ + Seq::<u8>::empty() =~= out@);
    }
    Some(out)
}

/// Position of the first terminator in a received byte stream, if any:
/// everything up to and including it is one candidate frame, and a receiver
/// that lost synchronization regains it here.
pub fn find_terminator(buf: &Vec<u8>) -> (r: Option<usize>)
    ensures
        match r {
            Some(i) => {
                &&& i < buf@.len()
                &&& buf@[i as int] == TERMINATOR
                &&& forall|j: int| 0 <= j < i ==> buf@[j] != TERMINATOR
            },
            None => forall|j: int| 0 <= j < buf@.len() ==> buf@[j] != TERMINATOR,
        },
{
    let n = buf.len();
    let mut i: usize = 0;
    while i < n
        invariant
            n == buf@.len(),
            i <= n,
            forall|j: int| 0 <= j < i ==> buf@[j] != TERMINATOR,
        decreases n - i,
    {
        if buf[i] == TERMINATOR {
            return Some(i);
        }
        i += 1;
    }
    None
}

/// Decode one whole frame.  Returns `None` exactly when the frame does not
/// end in the terminator or its body does not unescape.
pub fn decode_frame(f: &Vec<u8>) -> (r: Option<Vec<u8>>)
    ensures
        match r {
            Some(v) => spec_unframe(f@) == Some(v@),
            None => spec_unframe(f@) is None,
        },
{
    let n = f.len();
    if n == 0 || f[n - 1] != TERMINATOR {
        return None;
    }
    let mut body: Vec<u8> = Vec::new();
    let mut i: usize = 0;
    while i < n - 1
        invariant
            n == f@.len(),
            n >= 1,
            i <= n - 1,
            body@ == f@.take(i as int),
        decreases n - i,
    {
        let b = f[i];
        body.push(b);
        proof {
            assert(f@.take(i + 1) =~= f@.take(i as int).push(b));
        }
        i += 1;
    }
    proof {
        assert(body@ =~= f@.take(n - 1));
    }
    unescape_bytes(&body)
}

} // verus!

//! Debouncing of the manual start/stop input.
//!
//! The raw digital input is polled at a fixed cadence.  Any flip away from
//! the stable level moves into a tentative state carrying the tick at which
//! the flip was first observed; flipping back before [`SETTLE_MS`] elapses is
//! treated as noise and reverts immediately, while holding the new level for
//! at least [`SETTLE_MS`] commits it and emits exactly one edge event.

use vstd::prelude::*;

use crate::timer::spec_millis_since;
use crate::timer::millis_since;

verus! {

/// Minimum time a reading must hold before a level change is committed.
pub const SETTLE_MS: u32 = 5;

/// A settled logical level of the input pin.
#[derive(Clone, Copy, Debug, PartialEq, Eq, Structural)]
pub enum PinLevel {
    Low,
    High,
}

/// Debounce state of the input: a settled level, or a tentative flip
/// first observed at the stored tick.
#[derive(Clone, Copy, Debug, PartialEq, Eq, Structural)]
pub enum ButtonDebounce {
    StableLow,
    StableHigh,
    MaybeLow(u32),
    MaybeHigh(u32),
}

/// Does the poll `(is_low, now)` commit a tentative flip, i.e. has the new
/// reading held for at least the settle interval?
pub open spec fn debounce_commits(s: ButtonDebounce, is_low: bool, now: u32) -> bool {
    match s {
        ButtonDebounce::MaybeHigh(start) => !is_low && spec_millis_since(now, start) >= SETTLE_MS,
        ButtonDebounce::MaybeLow(start) => is_low && spec_millis_since(now, start) >= SETTLE_MS,
        _ => false,
    }
}

/// The debounce state after one poll of the raw input.
pub open spec fn debounce_next(s: ButtonDebounce, is_low: bool, now: u32) -> ButtonDebounce {
    match s {
        ButtonDebounce::StableHigh => {
            if is_low {
                ButtonDebounce::MaybeLow(now)
            } else {
                ButtonDebounce::StableHigh
            }
        },
        ButtonDebounce::StableLow => {
            if !is_low {
                ButtonDebounce::MaybeHigh(now)
            } else {
                ButtonDebounce::StableLow
            }
        },
        ButtonDebounce::MaybeHigh(start) => {
            if is_low {
                ButtonDebounce::StableLow
            } else if spec_millis_since(now, start) >= SETTLE_MS {
                ButtonDebounce::StableHigh
            } else {
                ButtonDebounce::MaybeHigh(start)
            }
        },
        ButtonDebounce::MaybeLow(start) => {
            if !is_low {
                ButtonDebounce::StableHigh
            } else if spec_millis_since(now, start) >= SETTLE_MS {
                ButtonDebounce::StableLow
            } else {
                ButtonDebounce::MaybeLow(start)
            }
        },
    }
}

/// The edge event emitted by one poll of the raw input, if any.
pub open spec fn debounce_edge(s: ButtonDebounce, is_low: bool, now: u32) -> Option<PinLevel> {
    match s {
        ButtonDebounce::MaybeHigh(start) => {
            if !is_low && spec_millis_since(now, start) >= SETTLE_MS {
                Some(PinLevel::High)
            } else {
                None
            }
        },
        ButtonDebounce::MaybeLow(start) => {
            if is_low && spec_millis_since(now, start) >= SETTLE_MS {
                Some(PinLevel::Low)
            } else {
                None
            }
        },
        _ => None,
    }
}

impl ButtonDebounce {
    /// One poll of the raw input level at tick `now`.  Returns the committed
    /// edge, if this poll settles a level change.
    pub fn poll(&mut self, is_low: bool, now: u32) -> (edge: Option<PinLevel>)
        ensures
            *final(self) == debounce_next(*old(self), is_low, now),
            edge == debounce_edge(*old(self), is_low, now),
    {
        let mut retval: Option<PinLevel> = None;

        *self = match *self {
            ButtonDebounce::StableHigh if is_low => ButtonDebounce::MaybeLow(now),
            ButtonDebounce::StableLow if !is_low => ButtonDebounce::MaybeHigh(now),
            ButtonDebounce::MaybeHigh(_) if is_low => ButtonDebounce::StableLow,
            ButtonDebounce::MaybeHigh(start) if millis_since(now, start) >= SETTLE_MS => {
                retval = Some(PinLevel::High);
                ButtonDebounce::StableHigh
            },
            ButtonDebounce::MaybeLow(_) if !is_low => ButtonDebounce::StableHigh,
            ButtonDebounce::MaybeLow(start) if millis_since(now, start) >= SETTLE_MS => {
                retval = Some(PinLevel::Low);
                ButtonDebounce::StableLow
            },
            retain => retain,
        };

        retval
    }
}

/// One raw reading of the input together with the tick at which it was taken.
#[derive(Clone, Copy, Debug, PartialEq, Eq, Structural)]
pub struct DebouncePoll {
    pub is_low: bool,
    pub now: u32,
}

/// The debounce state after a whole sequence of polls.
pub open spec fn debounce_run(s: ButtonDebounce, polls: Seq<DebouncePoll>) -> ButtonDebounce
    decreases polls.len(),
{
    if polls.len() == 0 {
        s
    } else {
        debounce_run(debounce_next(s, polls[0].is_low, polls[0].now), polls.skip(1))
    }
}

/// How many edge events a whole sequence of polls emits.
pub open spec fn debounce_emit_count(s: ButtonDebounce, polls: Seq<DebouncePoll>) -> nat
    decreases polls.len(),
{
    if polls.len() == 0 {
        0
    } else {
        let here: nat = if debounce_edge(s, polls[0].is_low, polls[0].now) is Some {
            1
        } else {
            0
        };
        here + debounce_emit_count(
            debounce_next(s, polls[0].is_low, polls[0].now),
            polls.skip(1),
        )
    }
}

/// An edge is emitted only by a poll that commits a tentative flip.
pub proof fn lemma_edge_requires_commit(s: ButtonDebounce, is_low: bool, now: u32)
    ensures
        debounce_edge(s, is_low, now) is Some ==> debounce_commits(s, is_low, now),
{
}

/// Law: an input flipping faster than the settle interval never emits an
/// edge event.  If no poll in the sequence finds a tentative level held for
/// at least [`SETTLE_MS`] — i.e. every flip is taken back before it could
/// settle — then the whole sequence emits no edge at all.
pub proof fn lemma_debounce_unsettled_never_emits(s: ButtonDebounce, polls: Seq<DebouncePoll>)
    requires
        forall|i: int|
            0 <= i < polls.len() ==> !debounce_commits(
                #[trigger] debounce_run(s, polls.take(i)),
                polls[i].is_low,
                polls[i].now,
            ),
    ensures
        debounce_emit_count(s, polls) == 0,
    decreases polls.len(),
{
    if polls.len() > 0 {
        assert(polls.take(0) =~= Seq::<DebouncePoll>::empty());
        assert(debounce_run(s, polls.take(0)) == s);
        assert(!debounce_commits(s, polls[0].is_low, polls[0].now));
        let s1 = debounce_next(s, polls[0].is_low, polls[0].now);
        let rest = polls.skip(1);
        assert forall|i: int| 0 <= i < rest.len() implies !debounce_commits(
            #[trigger] debounce_run(s1, rest.take(i)),
            rest[i].is_low,
            rest[i].now,
        ) by {
            assert(polls.take(i + 1).skip(1) =~= rest.take(i));
            assert(debounce_run(s, polls.take(i + 1)) == debounce_run(s1, rest.take(i)));
            assert(rest[i] == polls[i + 1]);
        }
        lemma_debounce_unsettled_never_emits(s1, rest);
    }
}

/// A settled-high state emits nothing for as long as the reading stays high.
pub proof fn lemma_stable_high_quiet(polls: Seq<DebouncePoll>)
    requires
        forall|i: int| 0 <= i < polls.len() ==> !(#[trigger] polls[i]).is_low,
    ensures
        debounce_emit_count(ButtonDebounce::StableHigh, polls) == 0,
        debounce_run(ButtonDebounce::StableHigh, polls) == ButtonDebounce::StableHigh,
    decreases polls.len(),
{
    if polls.len() > 0 {
        lemma_stable_high_quiet(polls.skip(1));
    }
}

/// Law: a reading that flips high and then holds emits exactly one edge.
/// From a tentative high first observed at `t0`, a poll at `first` whose
/// reading is still high after at least the settle interval (including the
/// poll made exactly at the settle interval) commits and emits a single
/// high edge; every later poll that still reads high emits nothing more.
pub proof fn lemma_debounce_settle_emits_once(t0: u32, first: DebouncePoll, rest: Seq<DebouncePoll>)
    requires
        !first.is_low,
        spec_millis_since(first.now, t0) >= SETTLE_MS,
        forall|i: int| 0 <= i < rest.len() ==> !(#[trigger] rest[i]).is_low,
    ensures
        debounce_edge(ButtonDebounce::MaybeHigh(t0), first.is_low, first.now) == Some(
            PinLevel::High,
        ),
        debounce_emit_count(ButtonDebounce::MaybeHigh(t0), seq![first] + rest) == 1,
        debounce_run(ButtonDebounce::MaybeHigh(t0), seq![first] + rest)
            == ButtonDebounce::StableHigh,
{
    let polls = seq![first] + rest;
    assert(polls[0] == first);
    assert(polls.skip(1) =~= rest);
    assert(debounce_next(ButtonDebounce::MaybeHigh(t0), first.is_low, first.now)
        == ButtonDebounce::StableHigh);
    lemma_stable_high_quiet(rest);
}

/// A settled-low state emits nothing for as long as the reading stays low.
pub proof fn lemma_stable_low_quiet(polls: Seq<DebouncePoll>)
    requires
        forall|i: int| 0 <= i < polls.len() ==> (#[trigger] polls[i]).is_low,
    ensures
        debounce_emit_count(ButtonDebounce::StableLow, polls) == 0,
        debounce_run(ButtonDebounce::StableLow, polls) == ButtonDebounce::StableLow,
    decreases polls.len(),
{
    if polls.len() > 0 {
        lemma_stable_low_quiet(polls.skip(1));
    }
}

/// The mirror of [`lemma_debounce_settle_emits_once`] for a flip to low.
pub proof fn lemma_debounce_settle_emits_once_low(
    t0: u32,
    first: DebouncePoll,
    rest: Seq<DebouncePoll>,
)
    requires
        first.is_low,
        spec_millis_since(first.now, t0) >= SETTLE_MS,
        forall|i: int| 0 <= i < rest.len() ==> (#[trigger] rest[i]).is_low,
    ensures
        debounce_edge(ButtonDebounce::MaybeLow(t0), first.is_low, first.now) == Some(
            PinLevel::Low,
        ),
        debounce_emit_count(ButtonDebounce::MaybeLow(t0), seq![first] + rest) == 1,
        debounce_run(ButtonDebounce::MaybeLow(t0), seq![first] + rest) == ButtonDebounce::StableLow,
{
    let polls = seq![first] + rest;
    assert(polls[0] == first);
    assert(polls.skip(1) =~= rest);
    assert(debounce_next(ButtonDebounce::MaybeLow(t0), first.is_low, first.now)
        == ButtonDebounce::StableLow);
    lemma_stable_low_quiet(rest);
}

} // verus!

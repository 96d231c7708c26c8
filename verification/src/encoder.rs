//! The encoding stage of the background loop.
//!
//! Each step pops one report, serializes it to its dense record layout,
//! frames it with the escape encoding, and commits the frame into the byte
//! ring under a single reservation sized for the worst-case expansion of
//! one record.  If the ring cannot grant that reservation the report is
//! dropped and counted — backpressure by refusing new work, never by
//! blocking.  Either way the report's block goes back to the arena: a
//! report is destroyed once the encoder is done with it.

use vstd::prelude::*;

use crate::arena::Arena;
use crate::arena::DIGITAL_BLOCK_BYTES;
use crate::arena::other_kind;
use crate::channel::arena_unchanged;
use crate::framing::decode_frame;
use crate::framing::encode_frame;
use crate::framing::frame;
use crate::framing::lemma_escape_expansion;
use crate::framing::lemma_frame_round_trip;
use crate::framing::spec_unframe;
use crate::profiler::Profiler;
use crate::profiler::spec_wrap_add;
use crate::profiler::spec_wrap_inc;
use crate::queue::ReportQueue;
use crate::queue::all_backed;
use crate::queue::distinct_blocks;
use crate::record::RECORD_HEADER_BYTES;
use crate::record::Record;
use crate::record::RecordModel;
use crate::record::lemma_record_round_trip;
use crate::record::parse_record;
use crate::record::record_bytes;
use crate::record::record_fits;
use crate::record::serialize_report;
use crate::record::spec_parse_record;
use crate::ring::ByteRing;

verus! {

/// Worst-case framed size of one record: three output bytes per input byte
/// plus the terminator, over a header and the largest block payload.
pub const WORST_FRAME_BYTES: usize = 3 * (RECORD_HEADER_BYTES + DIGITAL_BLOCK_BYTES) + 1;

/// The frame that delivers report `r` on the wire.
pub open spec fn report_frame(r: crate::queue::Report) -> Seq<u8> {
    frame(
        record_bytes(
            RecordModel {
                channel_id: r.channel_id,
                timestamp: r.timestamp,
                payload: r.payload(),
            },
        ),
    )
}

/// What one encoder step did.
#[derive(Clone, Copy, Debug, PartialEq, Eq, Structural)]
pub enum EncodeOutcome {
    /// The queue was empty; nothing to do.
    Idle,
    /// A report was framed and committed into the ring.
    Encoded,
    /// The ring could not grant worst-case space; the report was dropped
    /// and counted.
    RingFull,
}

/// Pop one report, frame it, and commit it into the ring; drop and count
/// when the ring cannot grant worst-case space.  The report's block returns
/// to the arena in either case.
pub fn encode_step(
    queue: &mut ReportQueue,
    ring: &mut ByteRing,
    arena: &mut Arena,
    prof: &mut Profiler,
) -> (out: EncodeOutcome)
    requires
        old(queue).wf(),
        old(ring).wf(),
        old(arena).wf(),
        all_backed(old(queue).items@, *old(arena)),
        distinct_blocks(old(queue).items@),
    ensures
        final(queue).wf(),
        final(ring).wf(),
        final(arena).wf(),
        all_backed(final(queue).items@, *final(arena)),
        distinct_blocks(final(queue).items@),
        old(arena).same_shape(*final(arena)),
        final(queue).capacity == old(queue).capacity,
        final(ring).capacity == old(ring).capacity,
        match out {
            EncodeOutcome::Idle => {
                &&& old(queue).items@.len() == 0
                &&& final(queue).items@ == old(queue).items@
                &&& final(ring).data@ == old(ring).data@
                &&& arena_unchanged(*old(arena), *final(arena))
                &&& *final(prof) == *old(prof)
            },
            EncodeOutcome::Encoded => {
                let rpt = old(queue).items@[0];
                &&& old(queue).items@.len() > 0
                &&& final(queue).items@ == old(queue).items@.skip(1)
                &&& old(ring).data@.len() + WORST_FRAME_BYTES <= old(ring).capacity
                &&& final(ring).data@ == old(ring).data@ + report_frame(rpt)
                &&& released_to(*old(arena), *final(arena), rpt.block)
                &&& *final(prof) == (Profiler {
                    reports_encoded: spec_wrap_inc(old(prof).reports_encoded),
                    encoded_bytes: spec_wrap_add(
                        old(prof).encoded_bytes,
                        report_frame(rpt).len() as u32,
                    ),
                    ..*old(prof)
                })
            },
            EncodeOutcome::RingFull => {
                let rpt = old(queue).items@[0];
                &&& old(queue).items@.len() > 0
                &&& final(queue).items@ == old(queue).items@.skip(1)
                &&& old(ring).data@.len() + WORST_FRAME_BYTES > old(ring).capacity
                &&& final(ring).data@ == old(ring).data@
                &&& released_to(*old(arena), *final(arena), rpt.block)
                &&& *final(prof) == (Profiler {
                    ring_full_drops: spec_wrap_inc(old(prof).ring_full_drops),
                    ..*old(prof)
                })
            },
        },
{
    let rpt = match queue.pop() {
        None => {
            return EncodeOutcome::Idle;
        },
        Some(r) => r,
    };
    proof {
        assert(old(queue).items@[0].backed(*old(arena)));
    }
    let serialized = serialize_report(&rpt);
    let framed = encode_frame(&serialized);
    proof {
        lemma_escape_expansion(serialized@);
        assert(rpt.payload().len() <= DIGITAL_BLOCK_BYTES);
        assert(framed@.len() <= WORST_FRAME_BYTES);
    }
    let committed = ring.grant_and_commit(&framed, WORST_FRAME_BYTES);
    let out = if committed {
        prof.count_encoded(#[verifier::truncate] (framed.len() as u32));
        EncodeOutcome::Encoded
    } else {
        prof.count_ring_full_drop();
        EncodeOutcome::RingFull
    };
    arena.release(rpt.block);
    proof {
        assert forall|j: int| 0 <= j < queue.items@.len() implies (
        #[trigger] queue.items@[j]).backed(*arena) by {
            assert(queue.items@[j] == old(queue).items@[j + 1]);
            assert(old(queue).items@[j + 1].backed(*old(arena)));
            assert(!(old(queue).items@[j + 1].block.kind == old(queue).items@[0].block.kind
                && old(queue).items@[j + 1].block.id == old(queue).items@[0].block.id));
        }
        assert forall|i: int, j: int|
            0 <= i < queue.items@.len() && 0 <= j < queue.items@.len() && i != j implies !((
        #[trigger] queue.items@[i]).block.kind == (#[trigger] queue.items@[j]).block.kind
            && queue.items@[i].block.id == queue.items@[j].block.id) by {
            assert(queue.items@[i] == old(queue).items@[i + 1]);
            assert(queue.items@[j] == old(queue).items@[j + 1]);
        }
    }
    out
}

/// `a1` is `a0` with `b` back on its pool's free stack and its slot
/// cleared; the other pool untouched.
pub open spec fn released_to(a0: Arena, a1: Arena, b: crate::arena::Block) -> bool {
    &&& a1.pool(b.kind).free@ == a0.pool(b.kind).free@.push(b)
    &&& a1.pool(b.kind).taken@ == a0.pool(b.kind).taken@.update(b.id as int, false)
    &&& a1.pool(other_kind(b.kind)).unchanged(a0.pool(other_kind(b.kind)))
}

// ------------------------------------------------------------------
// The receiving side, and the round-trip law.
// ------------------------------------------------------------------

/// What a receiver recovers from one wire frame: unframe it, then parse
/// the record; `None` on any malformed frame.
pub open spec fn spec_decode_record_frame(t: Seq<u8>) -> Option<RecordModel> {
    match spec_unframe(t) {
        Some(body) => spec_parse_record(body),
        None => None,
    }
}

/// Decode one whole wire frame back into its record.
pub fn decode_record_frame(bytes: &Vec<u8>) -> (r: Option<Record>)
    ensures
        match r {
            Some(rec) => spec_decode_record_frame(bytes@) == Some(rec@),
            None => spec_decode_record_frame(bytes@) is None,
        },
{
    match decode_frame(bytes) {
        Some(body) => parse_record(&body),
        None => None,
    }
}

/// Law: framing round-trips — decoding the wire frame of any record that
/// fits the wire format (any payload bytes at all, zero bytes and every
/// other value included) recovers exactly that record.
pub proof fn lemma_wire_round_trip(m: RecordModel)
    requires
        record_fits(m),
    ensures
        spec_decode_record_frame(frame(record_bytes(m))) == Some(m),
{
    lemma_frame_round_trip(record_bytes(m));
    lemma_record_round_trip(m);
}

/// Law: the frame a report is delivered in decodes back to exactly the
/// report's channel id, timestamp, and captured payload.
pub proof fn lemma_report_frame_round_trip(r: crate::queue::Report)
    requires
        r.wf(),
    ensures
        spec_decode_record_frame(report_frame(r)) == Some(
            RecordModel {
                channel_id: r.channel_id,
                timestamp: r.timestamp,
                payload: r.payload(),
            },
        ),
{
    let m = RecordModel { channel_id: r.channel_id, timestamp: r.timestamp, payload: r.payload() };
    lemma_wire_round_trip(m);
}

} // verus!

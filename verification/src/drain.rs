//! Draining the byte ring into the serial transport.
//!
//! Each poll, the background loop offers the queued bytes to the transport
//! and reports back what happened.  The drain tolerates three outcomes: full
//! or partial acceptance (consume exactly the accepted count and retry the
//! rest next poll), would-block (consume nothing, retry later), and any
//! other error, which is fatal for the run — continuing after it would
//! fabricate a delivery guarantee.  Bytes are consumed from the ring only
//! after the transport has confirmed them, so no byte is ever discarded
//! unconfirmed.

use vstd::prelude::*;

use crate::profiler::Profiler;
use crate::profiler::spec_wrap_add;
use crate::profiler::spec_wrap_inc;
use crate::ring::ByteRing;

verus! {

/// What one transport write attempt reported.
#[derive(Clone, Copy, Debug, PartialEq, Eq, Structural)]
pub enum WriteOutcome {
    /// The transport accepted this many bytes of what was offered.
    Wrote(usize),
    /// The transport accepted nothing right now; try again next poll.
    WouldBlock,
    /// Any other transport error; fatal for the run.
    Failed,
}

/// The single fatal condition of the drain: an unrecoverable transport
/// error, surfaced to the top level so the run halts loudly.
#[derive(Clone, Copy, Debug, PartialEq, Eq, Structural)]
pub struct TransportBroken;

/// Bytes the drain consumes for a given outcome: what the transport
/// confirmed, never more than was queued.
pub open spec fn confirmed_bytes(queued: nat, outcome: WriteOutcome) -> nat {
    match outcome {
        WriteOutcome::Wrote(n) => {
            if n <= queued {
                n as nat
            } else {
                queued
            }
        },
        WriteOutcome::WouldBlock => 0,
        WriteOutcome::Failed => 0,
    }
}

/// Apply one transport write outcome to the ring.
///
/// On acceptance the confirmed bytes — and only those — are consumed and
/// counted; on would-block nothing changes; on any other error nothing is
/// consumed and the fatal condition is returned.
pub fn apply_write_outcome(ring: &mut ByteRing, outcome: WriteOutcome, prof: &mut Profiler) -> (r:
    Result<usize, TransportBroken>)
    requires
        old(ring).wf(),
    ensures
        final(ring).wf(),
        final(ring).capacity == old(ring).capacity,
        match r {
            Ok(n) => {
                &&& !(outcome is Failed)
                &&& n == confirmed_bytes(old(ring).data@.len(), outcome)
                &&& final(ring).data@ == old(ring).data@.skip(n as int)
                &&& (outcome is WouldBlock ==> n == 0)
                &&& (outcome is Wrote ==> *final(prof) == (Profiler {
                    usb_writes: spec_wrap_inc(old(prof).usb_writes),
                    drained_bytes: spec_wrap_add(old(prof).drained_bytes, n as u32),
                    ..*old(prof)
                }))
                &&& (outcome is WouldBlock ==> *final(prof) == *old(prof))
            },
            Err(_) => {
                &&& outcome is Failed
                &&& final(ring).data@ == old(ring).data@
                &&& *final(prof) == *old(prof)
            },
        },
        confirmed_bytes(old(ring).data@.len(), outcome) <= old(ring).data@.len(),
{
    match outcome {
        WriteOutcome::Wrote(n) => {
            let queued = ring.len();
            let confirmed = if n <= queued {
                n
            } else {
                queued
            };
            ring.consume(confirmed);
            prof.count_drained(#[verifier::truncate] (confirmed as u32));
            Ok(confirmed)
        },
        WriteOutcome::WouldBlock => Ok(0),
        WriteOutcome::Failed => Err(TransportBroken),
    }
}

} // verus!

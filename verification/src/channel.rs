//! The double-buffered capture state machine.
//!
//! One instance per physical capture source (four digital bus sniffers and
//! one analog sampler — the same machine over a different block family).
//! The channel keeps up to two transfers in flight so the hardware never
//! goes idle between completions: each completion event exchanges the
//! finished transfer for the already pending one, publishes the filled
//! block as a [`Report`], and — fuse permitting — starts a replacement.
//! Every new transfer first acquires a free block from the arena; when none
//! is free the channel degrades by skipping and counting, never by blocking
//! or allocating.  A tripped fuse stops replacements, so the channel drains
//! naturally within two completions.  A hardware protocol violation faults
//! the channel permanently; other channels are unaffected.

use vstd::prelude::*;

use crate::arena::Arena;
use crate::arena::Block;
use crate::arena::BlockKind;
use crate::arena::other_kind;
use crate::arena::spec_block_bytes;
use crate::profiler::Profiler;
use crate::profiler::spec_wrap_inc;
use crate::queue::Report;
use crate::queue::ReportQueue;
use crate::queue::all_backed;
use crate::queue::distinct_blocks;

verus! {

/// One in-flight transfer: the block the hardware is filling.
pub struct Transfer {
    pub block: Block,
}

/// The capture states: idle, one transfer in flight, two in flight, or
/// permanently faulted.
pub enum CaptureState {
    Idle,
    OnePending(Transfer),
    TwoPending(Transfer, Transfer),
    Faulted,
}

/// A capture channel: its wire id, the block family it captures into, and
/// its transfer state.
pub struct CaptureChannel {
    pub channel_id: u8,
    pub kind: BlockKind,
    pub state: CaptureState,
}

/// `b` holds `data` written over the front of `src`: same slot, same kind,
/// the captured bytes first, the rest of the storage untouched.
pub open spec fn filled_from(b: Block, src: Block, data: Seq<u8>) -> bool {
    &&& b.kind == src.kind
    &&& b.id == src.id
    &&& b.data@ == data + src.data@.skip(data.len() as int)
}

/// `r` is the report of a completion on `src` carrying `data` at tick
/// `now` for channel `cid`.
pub open spec fn completed_report(r: Report, src: Block, data: Seq<u8>, now: u32, cid: u8) -> bool {
    &&& r.channel_id == cid
    &&& r.timestamp == now
    &&& r.length == data.len()
    &&& filled_from(r.block, src, data)
}

/// `a1` is `a0` after one allocation from the pool of `kind`: the top free
/// block was popped and its slot marked taken; the other pool untouched.
pub open spec fn arena_after_alloc(a0: Arena, a1: Arena, kind: BlockKind) -> bool {
    &&& a0.pool(kind).free@.len() > 0
    &&& a1.pool(kind).free@ == a0.pool(kind).free@.drop_last()
    &&& a1.pool(kind).taken@ == a0.pool(kind).taken@.update(
        a0.pool(kind).free@.last().id as int,
        true,
    )
    &&& a1.pool(other_kind(kind)).unchanged(a0.pool(other_kind(kind)))
}

/// `a1` is `a0` after the filled completion block of `src` was returned to
/// its pool: one more free block, on top, holding `data`; `src`'s slot
/// cleared; the other pool untouched.
pub open spec fn arena_after_release_filled(a0: Arena, a1: Arena, src: Block, data: Seq<u8>) -> bool {
    &&& a1.pool(src.kind).free@.len() == a0.pool(src.kind).free@.len() + 1
    &&& a1.pool(src.kind).free@.drop_last() == a0.pool(src.kind).free@
    &&& filled_from(a1.pool(src.kind).free@.last(), src, data)
    &&& a1.pool(src.kind).taken@ == a0.pool(src.kind).taken@.update(src.id as int, false)
    &&& a1.pool(other_kind(src.kind)).unchanged(a0.pool(other_kind(src.kind)))
}

/// `a1` is `a0` after a replacement allocation followed by the return of
/// `src`'s filled block (the drop path when the queue is full): the free
/// count is back where it was, the top free block holds `data`, the
/// replacement's slot is taken and `src`'s slot is cleared.
pub open spec fn arena_after_alloc_then_release(
    a0: Arena,
    a1: Arena,
    kind: BlockKind,
    src: Block,
    data: Seq<u8>,
) -> bool {
    &&& a0.pool(kind).free@.len() > 0
    &&& a1.pool(kind).free@.len() == a0.pool(kind).free@.len()
    &&& a1.pool(kind).free@.drop_last() == a0.pool(kind).free@.drop_last()
    &&& filled_from(a1.pool(kind).free@.last(), src, data)
    &&& a1.pool(kind).taken@ == a0.pool(kind).taken@.update(
        a0.pool(kind).free@.last().id as int,
        true,
    ).update(src.id as int, false)
    &&& a1.pool(other_kind(kind)).unchanged(a0.pool(other_kind(kind)))
}

/// Both pools exactly as before.
pub open spec fn arena_unchanged(a: Arena, b: Arena) -> bool {
    &&& b.digital.unchanged(a.digital)
    &&& b.analog.unchanged(a.analog)
}

/// `q1` is `q0` with the completion report of `(src, data, now, cid)`
/// appended; only possible because `q0` had room.
pub open spec fn queue_after_push(
    q0: ReportQueue,
    q1: ReportQueue,
    src: Block,
    data: Seq<u8>,
    now: u32,
    cid: u8,
) -> bool {
    &&& q0.items@.len() < q0.capacity
    &&& q1.items@.len() == q0.items@.len() + 1
    &&& q1.items@.drop_last() == q0.items@
    &&& completed_report(q1.items@.last(), src, data, now, cid)
}

/// The profiler after one channel poll: the event counter always advances,
/// the allocation-failure and queue-drop counters advance exactly when
/// those drops happened, and nothing else moves.
pub open spec fn prof_after_poll(p0: Profiler, alloc_failed: bool, queue_dropped: bool) -> Profiler {
    Profiler {
        channel_events: spec_wrap_inc(p0.channel_events),
        alloc_failures: if alloc_failed {
            spec_wrap_inc(p0.alloc_failures)
        } else {
            p0.alloc_failures
        },
        queue_full_drops: if queue_dropped {
            spec_wrap_inc(p0.queue_full_drops)
        } else {
            p0.queue_full_drops
        },
        ..p0
    }
}

/// What one poll of the channel did.
#[derive(Clone, Copy, Debug, PartialEq, Eq, Structural)]
pub enum PollOutcome {
    /// The channel is faulted; the event was ignored.
    Faulted,
    /// The fuse is tripped and nothing was in flight; no transfer started.
    HeldByFuse,
    /// No free block was available; the event was dropped and counted.
    SkippedNoBlock,
    /// A first transfer was started.
    Started,
    /// A second transfer was queued behind the first.
    Queued,
    /// A transfer completed and its report was produced; `pushed` tells
    /// whether the report entered the queue or was dropped and counted.
    Completed { pushed: bool },
}

impl CaptureChannel {
    /// The blocks owned by this channel's in-flight transfers, first the
    /// transfer that will complete next.
    pub open spec fn in_flight(self) -> Seq<Block> {
        match self.state {
            CaptureState::Idle => Seq::empty(),
            CaptureState::OnePending(t) => seq![t.block],
            CaptureState::TwoPending(t1, t2) => seq![t1.block, t2.block],
            CaptureState::Faulted => Seq::empty(),
        }
    }

    /// Channel invariant against the arena: at most two blocks in flight,
    /// each of the channel's own family, each backed by the arena, with
    /// distinct slots.
    pub open spec fn wf(self, arena: Arena) -> bool {
        &&& forall|i: int|
            0 <= i < self.in_flight().len() ==> {
                &&& (#[trigger] self.in_flight()[i]).kind == self.kind
                &&& arena.backs(self.in_flight()[i])
            }
        &&& forall|i: int, j: int|
            0 <= i < self.in_flight().len() && 0 <= j < self.in_flight().len() && i != j
                ==> (#[trigger] self.in_flight()[i]).id != (#[trigger] self.in_flight()[j]).id
    }

    /// No block in flight shares a slot with a block queued in a report.
    pub open spec fn disjoint_from(self, items: Seq<Report>) -> bool {
        forall|i: int, j: int|
            0 <= i < self.in_flight().len() && 0 <= j < items.len() ==> !((
            #[trigger] self.in_flight()[i]).kind == (#[trigger] items[j]).block.kind
                && self.in_flight()[i].id == items[j].block.id)
    }

    /// A fresh idle channel for the given source.
    pub fn new(channel_id: u8, kind: BlockKind) -> (c: CaptureChannel)
        ensures
            c.channel_id == channel_id,
            c.kind == kind,
            c.state is Idle,
            forall|a: Arena| #[trigger] c.wf(a),
            forall|items: Seq<Report>| #[trigger] c.disjoint_from(items),
    {
        CaptureChannel { channel_id, kind, state: CaptureState::Idle }
    }

    /// At most two blocks are ever owned by a channel's in-flight
    /// transfers, in any state.
    pub proof fn lemma_at_most_two_in_flight(self)
        ensures
            self.in_flight().len() <= 2,
    {
    }

    /// Record an unrecoverable hardware protocol violation: the channel is
    /// faulted permanently and its in-flight blocks go back to the arena.
    pub fn fault(&mut self, arena: &mut Arena)
        requires
            old(arena).wf(),
            old(self).wf(*old(arena)),
        ensures
            final(arena).wf(),
            old(arena).same_shape(*final(arena)),
            final(self).state is Faulted,
            final(self).channel_id == old(self).channel_id,
            final(self).kind == old(self).kind,
            match old(self).state {
                CaptureState::Idle => arena_unchanged(*old(arena), *final(arena)),
                CaptureState::Faulted => arena_unchanged(*old(arena), *final(arena)),
                CaptureState::OnePending(t) => {
                    &&& final(arena).pool(t.block.kind).free@ == old(arena).pool(
                        t.block.kind,
                    ).free@.push(t.block)
                    &&& final(arena).pool(t.block.kind).taken@ == old(arena).pool(
                        t.block.kind,
                    ).taken@.update(t.block.id as int, false)
                    &&& final(arena).pool(other_kind(t.block.kind)).unchanged(
                        old(arena).pool(other_kind(t.block.kind)),
                    )
                },
                CaptureState::TwoPending(t1, t2) => {
                    &&& final(arena).pool(t1.block.kind).free@ == old(arena).pool(
                        t1.block.kind,
                    ).free@.push(t1.block).push(t2.block)
                    &&& final(arena).pool(t1.block.kind).taken@ == old(arena).pool(
                        t1.block.kind,
                    ).taken@.update(t1.block.id as int, false).update(t2.block.id as int, false)
                    &&& final(arena).pool(other_kind(t1.block.kind)).unchanged(
                        old(arena).pool(other_kind(t1.block.kind)),
                    )
                },
            },
    {
        let mut st = CaptureState::Faulted;
        core::mem::swap(&mut st, &mut self.state);
        match st {
            CaptureState::Idle => {},
            CaptureState::OnePending(t) => {
                proof {
                    assert(old(self).in_flight()[0] == t.block);
                }
                arena.release(t.block);
            },
            CaptureState::TwoPending(t1, t2) => {
                proof {
                    assert(old(self).in_flight()[0] == t1.block);
                    assert(old(self).in_flight()[1] == t2.block);
                }
                arena.release(t1.block);
                proof {
                    assert(t2.block.id != t1.block.id);
                }
                arena.release(t2.block);
            },
            CaptureState::Faulted => {},
        }
    }

    /// Service one hardware event for this channel.
    ///
    /// `fuse_tripped` is the fuse as read at entry; `now` is the current
    /// tick; `data` carries the bytes of the completing transfer, if the
    /// event completes one (a zero-length completion is valid and still
    /// produces a report).  The transition performed is exactly the one the
    /// postcondition describes for the entry state.
    pub fn poll(
        &mut self,
        arena: &mut Arena,
        queue: &mut ReportQueue,
        prof: &mut Profiler,
        fuse_tripped: bool,
        now: u32,
        data: &Vec<u8>,
    ) -> (out: PollOutcome)
        requires
            old(arena).wf(),
            old(queue).wf(),
            old(self).wf(*old(arena)),
            all_backed(old(queue).items@, *old(arena)),
            distinct_blocks(old(queue).items@),
            old(self).disjoint_from(old(queue).items@),
            data@.len() <= spec_block_bytes(old(self).kind),
        ensures
            final(arena).wf(),
            final(queue).wf(),
            final(self).wf(*final(arena)),
            all_backed(final(queue).items@, *final(arena)),
            distinct_blocks(final(queue).items@),
            final(self).disjoint_from(final(queue).items@),
            old(arena).same_shape(*final(arena)),
            final(queue).capacity == old(queue).capacity,
            final(self).channel_id == old(self).channel_id,
            final(self).kind == old(self).kind,
            match old(self).state {
                CaptureState::Faulted => {
                    &&& out == PollOutcome::Faulted
                    &&& final(self).state is Faulted
                    &&& arena_unchanged(*old(arena), *final(arena))
                    &&& final(queue).items@ == old(queue).items@
                    &&& *final(prof) == prof_after_poll(*old(prof), false, false)
                },
                CaptureState::Idle => {
                    if fuse_tripped {
                        &&& out == PollOutcome::HeldByFuse
                        &&& final(self).state is Idle
                        &&& arena_unchanged(*old(arena), *final(arena))
                        &&& final(queue).items@ == old(queue).items@
                        &&& *final(prof) == prof_after_poll(*old(prof), false, false)
                    } else if old(arena).pool(old(self).kind).free@.len() == 0 {
                        &&& out == PollOutcome::SkippedNoBlock
                        &&& final(self).state is Idle
                        &&& arena_unchanged(*old(arena), *final(arena))
                        &&& final(queue).items@ == old(queue).items@
                        &&& *final(prof) == prof_after_poll(*old(prof), true, false)
                    } else {
                        &&& out == PollOutcome::Started
                        &&& match final(self).state {
                            CaptureState::OnePending(t) => t.block == old(arena).pool(
                                old(self).kind,
                            ).free@.last(),
                            _ => false,
                        }
                        &&& arena_after_alloc(*old(arena), *final(arena), old(self).kind)
                        &&& final(queue).items@ == old(queue).items@
                        &&& *final(prof) == prof_after_poll(*old(prof), false, false)
                    }
                },
                CaptureState::OnePending(t) => {
                    if fuse_tripped {
                        // The in-flight transfer completes and no
                        // replacement is issued: the channel drains to idle.
                        let q_ok = old(queue).items@.len() < old(queue).capacity;
                        &&& final(self).state is Idle
                        &&& out == (PollOutcome::Completed { pushed: q_ok })
                        &&& *final(prof) == prof_after_poll(*old(prof), false, !q_ok)
                        &&& if q_ok {
                            &&& queue_after_push(
                                *old(queue),
                                *final(queue),
                                t.block,
                                data@,
                                now,
                                old(self).channel_id,
                            )
                            &&& arena_unchanged(*old(arena), *final(arena))
                        } else {
                            &&& final(queue).items@ == old(queue).items@
                            &&& arena_after_release_filled(
                                *old(arena),
                                *final(arena),
                                t.block,
                                data@,
                            )
                        }
                    } else if old(arena).pool(old(self).kind).free@.len() == 0 {
                        &&& out == PollOutcome::SkippedNoBlock
                        &&& final(self).state == old(self).state
                        &&& arena_unchanged(*old(arena), *final(arena))
                        &&& final(queue).items@ == old(queue).items@
                        &&& *final(prof) == prof_after_poll(*old(prof), true, false)
                    } else {
                        &&& out == PollOutcome::Queued
                        &&& match final(self).state {
                            CaptureState::TwoPending(t1, t2) => {
                                &&& t1 == t
                                &&& t2.block == old(arena).pool(old(self).kind).free@.last()
                            },
                            _ => false,
                        }
                        &&& arena_after_alloc(*old(arena), *final(arena), old(self).kind)
                        &&& final(queue).items@ == old(queue).items@
                        &&& *final(prof) == prof_after_poll(*old(prof), false, false)
                    }
                },
                CaptureState::TwoPending(t1, t2) => {
                    let kind = old(self).kind;
                    let replaced = !fuse_tripped && old(arena).pool(kind).free@.len() > 0;
                    let alloc_failed = !fuse_tripped && old(arena).pool(kind).free@.len() == 0;
                    let q_ok = old(queue).items@.len() < old(queue).capacity;
                    &&& out == (PollOutcome::Completed { pushed: q_ok })
                    &&& *final(prof) == prof_after_poll(*old(prof), alloc_failed, !q_ok)
                    &&& if replaced {
                        match final(self).state {
                            CaptureState::TwoPending(u1, u2) => {
                                &&& u1 == t2
                                &&& u2.block == old(arena).pool(kind).free@.last()
                            },
                            _ => false,
                        }
                    } else {
                        final(self).state == CaptureState::OnePending(t2)
                    }
                    &&& if q_ok {
                        &&& queue_after_push(
                            *old(queue),
                            *final(queue),
                            t1.block,
                            data@,
                            now,
                            old(self).channel_id,
                        )
                        &&& if replaced {
                            arena_after_alloc(*old(arena), *final(arena), kind)
                        } else {
                            arena_unchanged(*old(arena), *final(arena))
                        }
                    } else {
                        &&& final(queue).items@ == old(queue).items@
                        &&& if replaced {
                            arena_after_alloc_then_release(
                                *old(arena),
                                *final(arena),
                                kind,
                                t1.block,
                                data@,
                            )
                        } else {
                            arena_after_release_filled(*old(arena), *final(arena), t1.block, data@)
                        }
                    }
                },
            },
    {
        prof.count_channel_event();
        let mut st = CaptureState::Faulted;
        core::mem::swap(&mut st, &mut self.state);
        let out: PollOutcome = match st {
            CaptureState::Faulted => {
                self.state = CaptureState::Faulted;
                PollOutcome::Faulted
            },
            CaptureState::Idle => {
                let (next, out) = idle_step(self.kind, self.channel_id, arena, prof, fuse_tripped);
                self.state = next;
                proof {
                    assert(self.in_flight() =~= channel_with(
                        self.channel_id,
                        self.kind,
                        next,
                    ).in_flight());
                }
                out
            },
            CaptureState::OnePending(t) => {
                proof {
                    assert(old(self).in_flight()[0] == t.block);
                }
                let (next, out) = one_pending_step(
                    t,
                    self.kind,
                    self.channel_id,
                    arena,
                    queue,
                    prof,
                    fuse_tripped,
                    now,
                    data,
                );
                self.state = next;
                proof {
                    assert(self.in_flight() =~= channel_with(
                        self.channel_id,
                        self.kind,
                        next,
                    ).in_flight());
                }
                out
            },
            CaptureState::TwoPending(t1, t2) => {
                proof {
                    assert(old(self).in_flight()[0] == t1.block);
                    assert(old(self).in_flight()[1] == t2.block);
                }
                let (next, out) = two_pending_step(
                    t1,
                    t2,
                    self.kind,
                    self.channel_id,
                    arena,
                    queue,
                    prof,
                    fuse_tripped,
                    now,
                    data,
                );
                self.state = next;
                proof {
                    assert(self.in_flight() =~= channel_with(
                        self.channel_id,
                        self.kind,
                        next,
                    ).in_flight());
                }
                out
            },
        };
        out
    }
}

/// The channel value with the given fields; used to restate the channel
/// invariants about a state a step function returns.
pub open spec fn channel_with(cid: u8, kind: BlockKind, st: CaptureState) -> CaptureChannel {
    CaptureChannel { channel_id: cid, kind, state: st }
}

/// The idle transition: fuse permitting, take a block and start the first
/// transfer; degrade by skipping when the pool is empty.
fn idle_step(
    kind: BlockKind,
    cid: u8,
    arena: &mut Arena,
    prof: &mut Profiler,
    fuse_tripped: bool,
) -> (r: (CaptureState, PollOutcome))
    requires
        old(arena).wf(),
    ensures
        final(arena).wf(),
        old(arena).same_shape(*final(arena)),
        ({
            let (next, out) = r;
            if fuse_tripped {
                &&& out == PollOutcome::HeldByFuse
                &&& next is Idle
                &&& arena_unchanged(*old(arena), *final(arena))
                &&& *final(prof) == *old(prof)
            } else if old(arena).pool(kind).free@.len() == 0 {
                &&& out == PollOutcome::SkippedNoBlock
                &&& next is Idle
                &&& arena_unchanged(*old(arena), *final(arena))
                &&& *final(prof) == (Profiler {
                    alloc_failures: spec_wrap_inc(old(prof).alloc_failures),
                    ..*old(prof)
                })
            } else {
                &&& out == PollOutcome::Started
                &&& match next {
                    CaptureState::OnePending(t) => t.block == old(arena).pool(kind).free@.last(),
                    _ => false,
                }
                &&& arena_after_alloc(*old(arena), *final(arena), kind)
                &&& *final(prof) == *old(prof)
            }
        }),
        ({
            let (next, out) = r;
            &&& channel_with(cid, kind, next).wf(*final(arena))
            &&& next is Idle || next is OnePending
        }),
{
    if fuse_tripped {
        (CaptureState::Idle, PollOutcome::HeldByFuse)
    } else {
        match arena.allocate(kind) {
            None => {
                prof.count_alloc_failure();
                (CaptureState::Idle, PollOutcome::SkippedNoBlock)
            },
            Some(b) => {
                proof {
                    assert(channel_with(cid, kind, CaptureState::OnePending(Transfer { block: b }))
                        .in_flight() =~= seq![b]);
                }
                (CaptureState::OnePending(Transfer { block: b }), PollOutcome::Started)
            },
        }
    }
}

/// The one-pending transition: with the fuse tripped the in-flight transfer
/// completes and the channel drains to idle; otherwise a second transfer is
/// queued behind the first, pool permitting.
fn one_pending_step(
    t: Transfer,
    kind: BlockKind,
    cid: u8,
    arena: &mut Arena,
    queue: &mut ReportQueue,
    prof: &mut Profiler,
    fuse_tripped: bool,
    now: u32,
    data: &Vec<u8>,
) -> (r: (CaptureState, PollOutcome))
    requires
        old(arena).wf(),
        old(queue).wf(),
        t.block.kind == kind,
        t.block.sized(),
        old(arena).backs(t.block),
        all_backed(old(queue).items@, *old(arena)),
        distinct_blocks(old(queue).items@),
        forall|j: int|
            0 <= j < old(queue).items@.len() ==> !((#[trigger] old(queue).items@[j]).block.kind
                == t.block.kind && old(queue).items@[j].block.id == t.block.id),
        data@.len() <= spec_block_bytes(kind),
    ensures
        final(arena).wf(),
        final(queue).wf(),
        old(arena).same_shape(*final(arena)),
        final(queue).capacity == old(queue).capacity,
        all_backed(final(queue).items@, *final(arena)),
        distinct_blocks(final(queue).items@),
        channel_with(cid, kind, r.0).wf(*final(arena)),
        channel_with(cid, kind, r.0).disjoint_from(final(queue).items@),
        ({
            let (next, out) = r;
            if fuse_tripped {
                let q_ok = old(queue).items@.len() < old(queue).capacity;
                &&& next is Idle
                &&& out == (PollOutcome::Completed { pushed: q_ok })
                &&& if q_ok {
                    &&& queue_after_push(*old(queue), *final(queue), t.block, data@, now, cid)
                    &&& arena_unchanged(*old(arena), *final(arena))
                    &&& *final(prof) == *old(prof)
                } else {
                    &&& final(queue).items@ == old(queue).items@
                    &&& arena_after_release_filled(*old(arena), *final(arena), t.block, data@)
                    &&& *final(prof) == (Profiler {
                        queue_full_drops: spec_wrap_inc(old(prof).queue_full_drops),
                        ..*old(prof)
                    })
                }
            } else if old(arena).pool(kind).free@.len() == 0 {
                &&& out == PollOutcome::SkippedNoBlock
                &&& next == CaptureState::OnePending(t)
                &&& arena_unchanged(*old(arena), *final(arena))
                &&& final(queue).items@ == old(queue).items@
                &&& *final(prof) == (Profiler {
                    alloc_failures: spec_wrap_inc(old(prof).alloc_failures),
                    ..*old(prof)
                })
            } else {
                &&& out == PollOutcome::Queued
                &&& match next {
                    CaptureState::TwoPending(t1, t2) => {
                        &&& t1 == t
                        &&& t2.block == old(arena).pool(kind).free@.last()
                    },
                    _ => false,
                }
                &&& arena_after_alloc(*old(arena), *final(arena), kind)
                &&& final(queue).items@ == old(queue).items@
                &&& *final(prof) == *old(prof)
            }
        }),
{
    if fuse_tripped {
        let report = complete_transfer(t, data, now, cid);
        let pushed = push_or_release(report, queue, arena, prof);
        proof {
            if pushed {
                assert(queue.items@.drop_last() =~= old(queue).items@);
                assert(queue.items@.last() == report);
                assert(queue_after_push(*old(queue), *queue, t.block, data@, now, cid));
                lemma_distinct_after_push(old(queue).items@, queue.items@, report);
            } else {
                assert(arena.pool(t.block.kind).free@.drop_last() =~= old(arena).pool(
                    t.block.kind,
                ).free@);
                assert(arena.pool(t.block.kind).free@.last() == report.block);
                assert(arena_after_release_filled(*old(arena), *arena, t.block, data@));
            }
            assert forall|j: int| 0 <= j < queue.items@.len() implies (
            #[trigger] queue.items@[j]).backed(*arena) by {
                if j < old(queue).items@.len() {
                    assert(queue.items@[j] == old(queue).items@[j]);
                    assert(old(queue).items@[j].backed(*old(arena)));
                }
            }
            assert(channel_with(cid, kind, CaptureState::Idle).in_flight() =~= Seq::<
                Block,
            >::empty());
        }
        (CaptureState::Idle, PollOutcome::Completed { pushed })
    } else {
        match arena.allocate(kind) {
            None => {
                prof.count_alloc_failure();
                proof {
                    assert(channel_with(cid, kind, CaptureState::OnePending(t)).in_flight()
                        =~= seq![t.block]);
                }
                (CaptureState::OnePending(t), PollOutcome::SkippedNoBlock)
            },
            Some(b) => {
                proof {
                    lemma_fresh_block_vs_queue(b, old(queue).items@, *old(arena));
                    assert(channel_with(
                        cid,
                        kind,
                        CaptureState::TwoPending(t, Transfer { block: b }),
                    ).in_flight() =~= seq![t.block, b]);
                    assert(t.block.id != b.id);
                }
                (CaptureState::TwoPending(t, Transfer { block: b }), PollOutcome::Queued)
            },
        }
    }
}

/// The two-pending transition: the first transfer is complete; exchange it
/// for the pending one, publish its report, and — fuse and pool permitting
/// — start a replacement behind the now-first transfer.
#[verifier::rlimit(100)]
#[verifier::spinoff_prover]
fn two_pending_step(
    t1: Transfer,
    t2: Transfer,
    kind: BlockKind,
    cid: u8,
    arena: &mut Arena,
    queue: &mut ReportQueue,
    prof: &mut Profiler,
    fuse_tripped: bool,
    now: u32,
    data: &Vec<u8>,
) -> (r: (CaptureState, PollOutcome))
    requires
        old(arena).wf(),
        old(queue).wf(),
        t1.block.kind == kind,
        t1.block.sized(),
        old(arena).backs(t1.block),
        t2.block.kind == kind,
        t2.block.sized(),
        old(arena).backs(t2.block),
        t1.block.id != t2.block.id,
        all_backed(old(queue).items@, *old(arena)),
        distinct_blocks(old(queue).items@),
        forall|j: int|
            0 <= j < old(queue).items@.len() ==> !((#[trigger] old(queue).items@[j]).block.kind
                == t1.block.kind && old(queue).items@[j].block.id == t1.block.id),
        forall|j: int|
            0 <= j < old(queue).items@.len() ==> !((#[trigger] old(queue).items@[j]).block.kind
                == t2.block.kind && old(queue).items@[j].block.id == t2.block.id),
        data@.len() <= spec_block_bytes(kind),
    ensures
        final(arena).wf(),
        final(queue).wf(),
        old(arena).same_shape(*final(arena)),
        final(queue).capacity == old(queue).capacity,
        all_backed(final(queue).items@, *final(arena)),
        distinct_blocks(final(queue).items@),
        channel_with(cid, kind, r.0).wf(*final(arena)),
        channel_with(cid, kind, r.0).disjoint_from(final(queue).items@),
        ({
            let (next, out) = r;
            let replaced = !fuse_tripped && old(arena).pool(kind).free@.len() > 0;
            let alloc_failed = !fuse_tripped && old(arena).pool(kind).free@.len() == 0;
            let q_ok = old(queue).items@.len() < old(queue).capacity;
            &&& out == (PollOutcome::Completed { pushed: q_ok })
            &&& *final(prof) == (Profiler {
                alloc_failures: if alloc_failed {
                    spec_wrap_inc(old(prof).alloc_failures)
                } else {
                    old(prof).alloc_failures
                },
                queue_full_drops: if !q_ok {
                    spec_wrap_inc(old(prof).queue_full_drops)
                } else {
                    old(prof).queue_full_drops
                },
                ..*old(prof)
            })
            &&& if replaced {
                match next {
                    CaptureState::TwoPending(u1, u2) => {
                        &&& u1 == t2
                        &&& u2.block == old(arena).pool(kind).free@.last()
                    },
                    _ => false,
                }
            } else {
                next == CaptureState::OnePending(t2)
            }
            &&& if q_ok {
                &&& queue_after_push(*old(queue), *final(queue), t1.block, data@, now, cid)
                &&& if replaced {
                    arena_after_alloc(*old(arena), *final(arena), kind)
                } else {
                    arena_unchanged(*old(arena), *final(arena))
                }
            } else {
                &&& final(queue).items@ == old(queue).items@
                &&& if replaced {
                    arena_after_alloc_then_release(*old(arena), *final(arena), kind, t1.block, data@)
                } else {
                    arena_after_release_filled(*old(arena), *final(arena), t1.block, data@)
                }
            }
        }),
{
    let report = complete_transfer(t1, data, now, cid);
    let repl: Option<Block> = if fuse_tripped {
        None
    } else {
        match arena.allocate(kind) {
            None => {
                prof.count_alloc_failure();
                None
            },
            Some(b) => {
                proof {
                    lemma_fresh_block_vs_queue(b, old(queue).items@, *old(arena));
                    assert(b.id != t1.block.id);
                    assert(b.id != t2.block.id);
                }
                Some(b)
            },
        }
    };
    proof {
        assert(report.backed(*arena));
    }
    let ghost mid = *arena;
    let pushed = push_or_release(report, queue, arena, prof);
    proof {
        if pushed {
            assert(queue.items@.drop_last() =~= old(queue).items@);
            assert(queue.items@.last() == report);
            assert(queue_after_push(*old(queue), *queue, t1.block, data@, now, cid));
            lemma_distinct_after_push(old(queue).items@, queue.items@, report);
            if repl is Some {
                assert(arena_after_alloc(*old(arena), *arena, kind));
            } else {
                assert(arena_unchanged(*old(arena), *arena));
            }
        } else {
            assert(arena.pool(kind).free@.drop_last() =~= mid.pool(kind).free@);
            assert(arena.pool(kind).free@.last() == report.block);
            if repl is Some {
                assert(mid.pool(kind).free@ == old(arena).pool(kind).free@.drop_last());
                assert(arena_after_alloc_then_release(*old(arena), *arena, kind, t1.block, data@));
            } else {
                assert(arena_after_release_filled(*old(arena), *arena, t1.block, data@));
            }
        }
        assert forall|j: int| 0 <= j < queue.items@.len() implies (
        #[trigger] queue.items@[j]).backed(*arena) by {
            if j < old(queue).items@.len() {
                assert(queue.items@[j] == old(queue).items@[j]);
                assert(old(queue).items@[j].backed(*old(arena)));
            }
        }
    }
    match repl {
        Some(b) => {
            proof {
                assert(channel_with(cid, kind, CaptureState::TwoPending(t2, Transfer { block: b }))
                    .in_flight() =~= seq![t2.block, b]);
            }
            (CaptureState::TwoPending(t2, Transfer { block: b }), PollOutcome::Completed { pushed })
        },
        None => {
            proof {
                assert(channel_with(cid, kind, CaptureState::OnePending(t2)).in_flight() =~= seq![
                    t2.block,
                ]);
            }
            (CaptureState::OnePending(t2), PollOutcome::Completed { pushed })
        },
    }
}

/// Appending a report whose block collides with no queued block keeps the
/// queue's blocks pairwise distinct.
proof fn lemma_distinct_after_push(items0: Seq<Report>, items1: Seq<Report>, r: Report)
    requires
        distinct_blocks(items0),
        items1 == items0.push(r),
        forall|j: int|
            0 <= j < items0.len() ==> !((#[trigger] items0[j]).block.kind == r.block.kind
                && items0[j].block.id == r.block.id),
    ensures
        distinct_blocks(items1),
{
    assert forall|i: int, j: int|
        0 <= i < items1.len() && 0 <= j < items1.len() && i != j implies !((
    #[trigger] items1[i]).block.kind == (#[trigger] items1[j]).block.kind && items1[i].block.id
        == items1[j].block.id) by {
        if i < items0.len() && j < items0.len() {
            assert(items1[i] == items0[i]);
            assert(items1[j] == items0[j]);
        } else if i < items0.len() {
            assert(items1[i] == items0[i]);
            assert(items1[j] == r);
        } else {
            assert(items1[i] == r);
            assert(items1[j] == items0[j]);
        }
    }
}

/// A block just taken from the free stack shares no slot with any queued
/// block: queued blocks' slots are taken, a free block's slot is not.
proof fn lemma_fresh_block_vs_queue(b: Block, items: Seq<Report>, a0: Arena)
    requires
        all_backed(items, a0),
        !a0.pool(b.kind).taken@[b.id as int],
        b.id < a0.pool(b.kind).taken@.len(),
    ensures
        forall|j: int|
            0 <= j < items.len() ==> !((#[trigger] items[j]).block.kind == b.kind
                && items[j].block.id == b.id),
{
    assert forall|j: int| 0 <= j < items.len() implies !((#[trigger] items[j]).block.kind == b.kind
        && items[j].block.id == b.id) by {
        assert(items[j].backed(a0));
    }
}

/// Fill the front of the completing transfer's block with the captured
/// bytes and wrap it as a report.
fn complete_transfer(t: Transfer, data: &Vec<u8>, now: u32, cid: u8) -> (r: Report)
    requires
        t.block.sized(),
        data@.len() <= t.block.data@.len(),
    ensures
        completed_report(r, t.block, data@, now, cid),
        r.wf(),
        r.block.kind == t.block.kind,
        r.block.id == t.block.id,
        r.block.data@.len() == t.block.data@.len(),
{
    let mut block = t.block;
    let n = data.len();
    let mut i: usize = 0;
    proof {
        assert(block.data@ =~= data@.take(0) + t.block.data@.skip(0));
    }
    while i < n
        invariant
            n == data@.len(),
            n <= block.data@.len(),
            i <= n,
            block.kind == t.block.kind,
            block.id == t.block.id,
            block.data@.len() == t.block.data@.len(),
            block.data@ == data@.take(i as int) + t.block.data@.skip(i as int),
        decreases n - i,
    {
        let b = data[i];
        block.data.set(i, b);
        proof {
            assert(block.data@ =~= data@.take(i + 1) + t.block.data@.skip(i + 1));
        }
        i += 1;
    }
    proof {
        assert(block.data@ =~= data@ + t.block.data@.skip(n as int));
    }
    Report { channel_id: cid, timestamp: now, length: n as u32, block }
}

/// Push the report, or — when the queue is full — return its block to the
/// arena and count the drop.  Never blocks, never retries.
fn push_or_release(r: Report, queue: &mut ReportQueue, arena: &mut Arena, prof: &mut Profiler) -> (
    pushed: bool)
    requires
        old(queue).wf(),
        old(arena).wf(),
        r.wf(),
        r.backed(*old(arena)),
    ensures
        final(queue).wf(),
        final(arena).wf(),
        old(arena).same_shape(*final(arena)),
        final(queue).capacity == old(queue).capacity,
        pushed == (old(queue).items@.len() < old(queue).capacity),
        pushed ==> {
            &&& final(queue).items@ == old(queue).items@.push(r)
            &&& arena_unchanged(*old(arena), *final(arena))
            &&& *final(prof) == *old(prof)
        },
        !pushed ==> {
            &&& final(queue).items@ == old(queue).items@
            &&& final(arena).pool(r.block.kind).free@ == old(arena).pool(r.block.kind).free@.push(
                r.block,
            )
            &&& final(arena).pool(r.block.kind).taken@ == old(arena).pool(
                r.block.kind,
            ).taken@.update(r.block.id as int, false)
            &&& final(arena).pool(other_kind(r.block.kind)).unchanged(
                old(arena).pool(other_kind(r.block.kind)),
            )
            &&& *final(prof) == (Profiler {
                queue_full_drops: spec_wrap_inc(old(prof).queue_full_drops),
                ..*old(prof)
            })
        },
{
    match queue.push(r) {
        Ok(()) => true,
        Err(back) => {
            arena.release(back.block);
            prof.count_queue_full_drop();
            false
        },
    }
}

} // verus!

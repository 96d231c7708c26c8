//! Bounded hand-off queue of capture reports.
//!
//! Capture channels produce [`Report`]s in interrupt context and push them
//! here; the background task pops them for encoding.  The queue is bounded:
//! a push against a full queue fails immediately, handing the report back so
//! the producer can discard it and count the drop — it never blocks and
//! never retries.  Ordering is first in, first out.

use vstd::prelude::*;

use crate::arena::Arena;
use crate::arena::Block;

verus! {

/// A filled block together with its capture metadata, in transit from a
/// capture channel to the encoder.
pub struct Report {
    /// Which capture channel produced the block.
    pub channel_id: u8,
    /// Tick at which the transfer completed.
    pub timestamp: u32,
    /// Number of valid payload bytes at the front of the block, exactly as
    /// reported by the transfer; zero is a valid length.
    pub length: u32,
    /// The captured block, owned by the report while in transit.
    pub block: Block,
}

impl Report {
    /// Structural well-formedness: the block has its kind's size and the
    /// valid length fits inside it.
    pub open spec fn wf(self) -> bool {
        &&& self.block.sized()
        &&& self.length <= self.block.data@.len()
    }

    /// The valid payload bytes of this report.
    pub open spec fn payload(self) -> Seq<u8> {
        self.block.data@.take(self.length as int)
    }

    /// The report's block is backed by the arena.
    pub open spec fn backed(self, arena: Arena) -> bool {
        arena.backs(self.block)
    }
}

/// All queued reports are well formed and backed by the arena.
pub open spec fn all_backed(items: Seq<Report>, arena: Arena) -> bool {
    forall|i: int| 0 <= i < items.len() ==> (#[trigger] items[i]).backed(arena)
}

/// No two queued reports carry blocks of the same pool slot.
pub open spec fn distinct_blocks(items: Seq<Report>) -> bool {
    forall|i: int, j: int|
        0 <= i < items.len() && 0 <= j < items.len() && i != j ==> !((
        #[trigger] items[i]).block.kind == (#[trigger] items[j]).block.kind && items[i].block.id
            == items[j].block.id)
}

/// The bounded multi-producer, single-consumer report queue.
pub struct ReportQueue {
    /// Queued reports, oldest first.
    pub items: Vec<Report>,
    /// Fixed capacity chosen at start of day.
    pub capacity: usize,
}

impl ReportQueue {
    /// Queue invariant: never over capacity, all reports well formed.
    pub open spec fn wf(self) -> bool {
        &&& self.items@.len() <= self.capacity
        &&& forall|i: int| 0 <= i < self.items@.len() ==> (#[trigger] self.items@[i]).wf()
    }

    /// An empty queue of the given capacity.
    pub fn new(capacity: usize) -> (q: ReportQueue)
        ensures
            q.wf(),
            q.capacity == capacity,
            q.items@.len() == 0,
    {
        ReportQueue { items: Vec::new(), capacity }
    }

    /// Push a report.  Fails by handing the report back when the queue is
    /// full; never blocks, never retries.
    pub fn push(&mut self, r: Report) -> (res: Result<(), Report>)
        requires
            old(self).wf(),
            r.wf(),
        ensures
            final(self).wf(),
            final(self).capacity == old(self).capacity,
            match res {
                Ok(()) => {
                    &&& old(self).items@.len() < old(self).capacity
                    &&& final(self).items@ == old(self).items@.push(r)
                },
                Err(back) => {
                    &&& old(self).items@.len() == old(self).capacity
                    &&& back == r
                    &&& final(self).items@ == old(self).items@
                },
            },
    {
        if self.items.len() < self.capacity {
            self.items.push(r);
            Ok(())
        } else {
            Err(r)
        }
    }

    /// Pop the oldest report, if any.  Non-blocking, consumer side only.
    pub fn pop(&mut self) -> (r: Option<Report>)
        requires
            old(self).wf(),
        ensures
            final(self).wf(),
            final(self).capacity == old(self).capacity,
            match r {
                None => {
                    &&& old(self).items@.len() == 0
                    &&& final(self).items@ == old(self).items@
                },
                Some(rpt) => {
                    &&& old(self).items@.len() > 0
                    &&& rpt == old(self).items@[0]
                    &&& final(self).items@ == old(self).items@.skip(1)
                },
            },
    {
        if self.items.len() == 0 {
            None
        } else {
            let r = self.items.remove(0);
            proof {
                assert(self.items@ =~= old(self).items@.skip(1));
            }
            Some(r)
        }
    }

    /// Number of queued reports.
    pub fn len(&self) -> (r: usize)
        ensures
            r == self.items@.len(),
    {
        self.items.len()
    }
}

// ------------------------------------------------------------------
// Order within one channel.
// ------------------------------------------------------------------

/// The sub-stream of queued reports belonging to one channel, oldest first.
pub open spec fn channel_stream(items: Seq<Report>, c: u8) -> Seq<Report> {
    items.filter(|r: Report| r.channel_id == c)
}

/// Law (first half): a push appends to its own channel's sub-stream and
/// leaves every other channel's sub-stream untouched.
pub proof fn lemma_channel_stream_push(items: Seq<Report>, r: Report, c: u8)
    ensures
        channel_stream(items.push(r), c) == if r.channel_id == c {
            channel_stream(items, c).push(r)
        } else {
            channel_stream(items, c)
        },
{
    reveal(Seq::filter);
    assert(items.push(r).drop_last() =~= items);
    assert(items.push(r).last() == r);
}

/// Law (second half): a pop takes the head of its own channel's sub-stream
/// and leaves every other channel's sub-stream untouched.  Together with
/// the push half this is first-in, first-out order within each channel's
/// stream of reports.
pub proof fn lemma_channel_stream_pop(items: Seq<Report>, c: u8)
    requires
        items.len() > 0,
    ensures
        channel_stream(items, c) == if items[0].channel_id == c {
            seq![items[0]] + channel_stream(items.skip(1), c)
        } else {
            channel_stream(items.skip(1), c)
        },
    decreases items.len(),
{
    reveal(Seq::filter);
    let pred = |r: Report| r.channel_id == c;
    if items.len() == 1 {
        assert(items.drop_last() =~= Seq::<Report>::empty());
        assert(items.skip(1) =~= Seq::<Report>::empty());
        assert(Seq::<Report>::empty().filter(pred) =~= Seq::<Report>::empty());
        if items[0].channel_id == c {
            assert(channel_stream(items, c) =~= Seq::<Report>::empty().push(items[0]));
            assert(seq![items[0]] + Seq::<Report>::empty() =~= Seq::<
                Report,
            >::empty().push(items[0]));
        }
    } else {
        let l = items.last();
        let d = items.drop_last();
        let t = items.skip(1);
        lemma_channel_stream_pop(d, c);
        assert(d[0] == items[0]);
        assert(t.drop_last() =~= d.skip(1));
        assert(t.last() == l);
        if items[0].channel_id == c {
            if pred(l) {
                assert(channel_stream(items, c) == channel_stream(d, c).push(l));
                assert(channel_stream(t, c) == channel_stream(d.skip(1), c).push(l));
                assert((seq![items[0]] + channel_stream(d.skip(1), c)).push(l) =~= seq![items[0]]
                    + channel_stream(d.skip(1), c).push(l));
            } else {
                assert(channel_stream(items, c) == channel_stream(d, c));
                assert(channel_stream(t, c) == channel_stream(d.skip(1), c));
            }
        } else {
            if pred(l) {
                assert(channel_stream(items, c) == channel_stream(d, c).push(l));
                assert(channel_stream(t, c) == channel_stream(d.skip(1), c).push(l));
            } else {
                assert(channel_stream(items, c) == channel_stream(d, c));
                assert(channel_stream(t, c) == channel_stream(d.skip(1), c));
            }
        }
    }
}

// ------------------------------------------------------------------
// Queue bound law.
//
// The abstract model of a push burst: starting from some queue contents, a
// sequence of reports is pushed with no pop in between, and every failed
// push is counted.  The law shows that the queue accepts exactly the first
// pushes that fit, stays within capacity, and that every excess push fails
// and is counted — none is lost without being counted.
// ------------------------------------------------------------------

/// One abstract push: contents after, and whether the push succeeded.
pub open spec fn queue_push_step(items: Seq<Report>, capacity: nat, r: Report) -> (Seq<
    Report,
>, bool) {
    if items.len() < capacity {
        (items.push(r), true)
    } else {
        (items, false)
    }
}

/// Abstract burst of pushes: final contents and the count of failed pushes.
pub open spec fn queue_push_burst(items: Seq<Report>, capacity: nat, rs: Seq<Report>) -> (Seq<
    Report,
>, nat)
    decreases rs.len(),
{
    if rs.len() == 0 {
        (items, 0)
    } else {
        let (next, ok) = queue_push_step(items, capacity, rs[0]);
        let (fin, dropped) = queue_push_burst(next, capacity, rs.skip(1));
        (fin, dropped + if ok {
            0nat
        } else {
            1nat
        })
    }
}

/// Law: for any burst of pushes against a queue within its capacity, the
/// queue accepts exactly the first pushes that fit, in order; it never
/// exceeds its capacity; and every excess push fails and is counted, so
/// no report is ever lost without being counted.
pub proof fn lemma_queue_bound(items: Seq<Report>, capacity: nat, rs: Seq<Report>)
    requires
        items.len() <= capacity,
    ensures
        ({
            let (fin, dropped) = queue_push_burst(items, capacity, rs);
            let accepted: int = if rs.len() <= capacity - items.len() {
                rs.len() as int
            } else {
                capacity - items.len()
            };
            &&& fin.len() <= capacity
            &&& fin == items + rs.take(accepted)
            &&& dropped == rs.len() - accepted
        }),
    decreases rs.len(),
{
    if rs.len() > 0 {
        let (next, ok) = queue_push_step(items, capacity, rs[0]);
        lemma_queue_bound(next, capacity, rs.skip(1));
        let (fin, dropped) = queue_push_burst(next, capacity, rs.skip(1));
        if ok {
            let accepted = if rs.len() <= capacity - items.len() {
                rs.len() as int
            } else {
                capacity - items.len()
            };
            assert(items.push(rs[0]) + rs.skip(1).take(accepted - 1) =~= items + rs.take(
                accepted,
            ));
        } else {
            assert(items.len() == capacity);
            assert(rs.skip(1).take(0) =~= rs.take(0));
        }
    } else {
        assert(items + rs.take(0) =~= items);
    }
}

} // verus!

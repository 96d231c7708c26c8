//! Profiling counters and tick accumulators.
//!
//! Every component of the pipeline records how often its hot paths run and
//! how much work moved through them.  Counters only ever increase (wrapping
//! at the counter width) and are swapped out for a zeroed snapshot once per
//! reporting window; they are diagnostic only and drive no control flow.

use vstd::prelude::*;

verus! {

/// Increment wrapping at the 32-bit counter width.
pub open spec fn spec_wrap_inc(x: u32) -> u32 {
    if x == u32::MAX {
        0
    } else {
        (x + 1) as u32
    }
}

/// Wrapping add of a measured amount to an accumulator.
pub open spec fn spec_wrap_add(x: u32, d: u32) -> u32 {
    if x + d <= u32::MAX {
        (x + d) as u32
    } else {
        (x + d - 0x1_0000_0000) as u32
    }
}

fn wrap_inc(x: u32) -> (r: u32)
    ensures
        r == spec_wrap_inc(x),
{
    if x == u32::MAX {
        0
    } else {
        x + 1
    }
}

fn wrap_add(x: u32, d: u32) -> (r: u32)
    ensures
        r == spec_wrap_add(x, d),
{
    if d <= u32::MAX - x {
        x + d
    } else {
        let gap = u32::MAX - x;
        d - gap - 1
    }
}

/// One reporting window's worth of counters.
#[derive(Clone, Copy, Debug, PartialEq, Eq, Structural)]
pub struct ProfilerSnapshot {
    pub channel_events: u32,
    pub alloc_failures: u32,
    pub queue_full_drops: u32,
    pub ring_full_drops: u32,
    pub reports_encoded: u32,
    pub encoded_bytes: u32,
    pub drained_bytes: u32,
    pub usb_writes: u32,
    pub idle_loop_iters: u32,
    pub ticks_capture: u32,
    pub ticks_encoding: u32,
    pub ticks_draining: u32,
    pub ticks_usb: u32,
}

/// The live counters, each written by one component and read-and-reset by
/// the background loop once per reporting window.
pub struct Profiler {
    /// Capture-channel events serviced.
    pub channel_events: u32,
    /// Transfers skipped because the arena had no free block.
    pub alloc_failures: u32,
    /// Reports discarded because the report queue was full.
    pub queue_full_drops: u32,
    /// Reports discarded because the byte ring could not grant space.
    pub ring_full_drops: u32,
    /// Reports serialized and framed into the ring.
    pub reports_encoded: u32,
    /// Framed bytes committed into the ring.
    pub encoded_bytes: u32,
    /// Bytes confirmed accepted by the transport.
    pub drained_bytes: u32,
    /// Successful transport writes.
    pub usb_writes: u32,
    /// Background loop iterations.
    pub idle_loop_iters: u32,
    /// Ticks spent in capture handlers.
    pub ticks_capture: u32,
    /// Ticks spent encoding.
    pub ticks_encoding: u32,
    /// Ticks spent draining.
    pub ticks_draining: u32,
    /// Ticks spent polling the transport.
    pub ticks_usb: u32,
}

/// The snapshot of a profiler's current counters.
pub open spec fn snapshot_of(p: Profiler) -> ProfilerSnapshot {
    ProfilerSnapshot {
        channel_events: p.channel_events,
        alloc_failures: p.alloc_failures,
        queue_full_drops: p.queue_full_drops,
        ring_full_drops: p.ring_full_drops,
        reports_encoded: p.reports_encoded,
        encoded_bytes: p.encoded_bytes,
        drained_bytes: p.drained_bytes,
        usb_writes: p.usb_writes,
        idle_loop_iters: p.idle_loop_iters,
        ticks_capture: p.ticks_capture,
        ticks_encoding: p.ticks_encoding,
        ticks_draining: p.ticks_draining,
        ticks_usb: p.ticks_usb,
    }
}

impl Profiler {
    /// All counters zero.
    pub fn new() -> (p: Profiler)
        ensures
            snapshot_of(p) == zero_snapshot(),
    {
        Profiler {
            channel_events: 0,
            alloc_failures: 0,
            queue_full_drops: 0,
            ring_full_drops: 0,
            reports_encoded: 0,
            encoded_bytes: 0,
            drained_bytes: 0,
            usb_writes: 0,
            idle_loop_iters: 0,
            ticks_capture: 0,
            ticks_encoding: 0,
            ticks_draining: 0,
            ticks_usb: 0,
        }
    }

    /// Count one serviced capture-channel event.
    pub fn count_channel_event(&mut self)
        ensures
            *final(self) == (Profiler { channel_events: spec_wrap_inc(old(self).channel_events), ..*old(self) }),
    {
        self.channel_events = wrap_inc(self.channel_events);
    }

    /// Count one transfer skipped for want of a free block.
    pub fn count_alloc_failure(&mut self)
        ensures
            *final(self) == (Profiler { alloc_failures: spec_wrap_inc(old(self).alloc_failures), ..*old(self) }),
    {
        self.alloc_failures = wrap_inc(self.alloc_failures);
    }

    /// Count one report dropped against a full queue.
    pub fn count_queue_full_drop(&mut self)
        ensures
            *final(self) == (Profiler { queue_full_drops: spec_wrap_inc(old(self).queue_full_drops), ..*old(self) }),
    {
        self.queue_full_drops = wrap_inc(self.queue_full_drops);
    }

    /// Count one report dropped against a full ring.
    pub fn count_ring_full_drop(&mut self)
        ensures
            *final(self) == (Profiler { ring_full_drops: spec_wrap_inc(old(self).ring_full_drops), ..*old(self) }),
    {
        self.ring_full_drops = wrap_inc(self.ring_full_drops);
    }

    /// Count one report encoded, together with its framed bytes.
    pub fn count_encoded(&mut self, bytes: u32)
        ensures
            *final(self) == (Profiler {
                reports_encoded: spec_wrap_inc(old(self).reports_encoded),
                encoded_bytes: spec_wrap_add(old(self).encoded_bytes, bytes),
                ..*old(self)
            }),
    {
        self.reports_encoded = wrap_inc(self.reports_encoded);
        self.encoded_bytes = wrap_add(self.encoded_bytes, bytes);
    }

    /// Count one successful transport write of `bytes` accepted bytes.
    pub fn count_drained(&mut self, bytes: u32)
        ensures
            *final(self) == (Profiler {
                usb_writes: spec_wrap_inc(old(self).usb_writes),
                drained_bytes: spec_wrap_add(old(self).drained_bytes, bytes),
                ..*old(self)
            }),
    {
        self.usb_writes = wrap_inc(self.usb_writes);
        self.drained_bytes = wrap_add(self.drained_bytes, bytes);
    }

    /// Count one background loop iteration.
    pub fn count_idle_loop(&mut self)
        ensures
            *final(self) == (Profiler { idle_loop_iters: spec_wrap_inc(old(self).idle_loop_iters), ..*old(self) }),
    {
        self.idle_loop_iters = wrap_inc(self.idle_loop_iters);
    }

    /// Accumulate ticks spent in a capture handler.
    pub fn add_capture_ticks(&mut self, t: u32)
        ensures
            *final(self) == (Profiler { ticks_capture: spec_wrap_add(old(self).ticks_capture, t), ..*old(self) }),
    {
        self.ticks_capture = wrap_add(self.ticks_capture, t);
    }

    /// Accumulate ticks spent encoding.
    pub fn add_encoding_ticks(&mut self, t: u32)
        ensures
            *final(self) == (Profiler { ticks_encoding: spec_wrap_add(old(self).ticks_encoding, t), ..*old(self) }),
    {
        self.ticks_encoding = wrap_add(self.ticks_encoding, t);
    }

    /// Accumulate ticks spent draining.
    pub fn add_draining_ticks(&mut self, t: u32)
        ensures
            *final(self) == (Profiler { ticks_draining: spec_wrap_add(old(self).ticks_draining, t), ..*old(self) }),
    {
        self.ticks_draining = wrap_add(self.ticks_draining, t);
    }

    /// Accumulate ticks spent polling the transport.
    pub fn add_usb_ticks(&mut self, t: u32)
        ensures
            *final(self) == (Profiler { ticks_usb: spec_wrap_add(old(self).ticks_usb, t), ..*old(self) }),
    {
        self.ticks_usb = wrap_add(self.ticks_usb, t);
    }

    /// Swap all counters out for the reporting window: returns the exact
    /// current values and resets every counter to zero.
    pub fn clear_and_report(&mut self) -> (s: ProfilerSnapshot)
        ensures
            s == snapshot_of(*old(self)),
            snapshot_of(*final(self)) == zero_snapshot(),
    {
        let s = ProfilerSnapshot {
            channel_events: self.channel_events,
            alloc_failures: self.alloc_failures,
            queue_full_drops: self.queue_full_drops,
            ring_full_drops: self.ring_full_drops,
            reports_encoded: self.reports_encoded,
            encoded_bytes: self.encoded_bytes,
            drained_bytes: self.drained_bytes,
            usb_writes: self.usb_writes,
            idle_loop_iters: self.idle_loop_iters,
            ticks_capture: self.ticks_capture,
            ticks_encoding: self.ticks_encoding,
            ticks_draining: self.ticks_draining,
            ticks_usb: self.ticks_usb,
        };
        self.channel_events = 0;
        self.alloc_failures = 0;
        self.queue_full_drops = 0;
        self.ring_full_drops = 0;
        self.reports_encoded = 0;
        self.encoded_bytes = 0;
        self.drained_bytes = 0;
        self.usb_writes = 0;
        self.idle_loop_iters = 0;
        self.ticks_capture = 0;
        self.ticks_encoding = 0;
        self.ticks_draining = 0;
        self.ticks_usb = 0;
        s
    }
}

/// The all-zero snapshot.
pub open spec fn zero_snapshot() -> ProfilerSnapshot {
    ProfilerSnapshot {
        channel_events: 0,
        alloc_failures: 0,
        queue_full_drops: 0,
        ring_full_drops: 0,
        reports_encoded: 0,
        encoded_bytes: 0,
        drained_bytes: 0,
        usb_writes: 0,
        idle_loop_iters: 0,
        ticks_capture: 0,
        ticks_encoding: 0,
        ticks_draining: 0,
        ticks_usb: 0,
    }
}

} // verus!

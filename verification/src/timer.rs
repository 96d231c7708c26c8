//! Arithmetic over the free-running hardware tick counter.
//!
//! The counter is a 32-bit timer running at [`TICKS_PER_SECOND`] that wraps
//! around on overflow.  Reading the counter is the hardware's business; every
//! function here takes the observed tick values as arguments and computes
//! elapsed time modulo the counter width, which is exactly how a rolling
//! timer is meant to be consumed.

use vstd::prelude::*;

verus! {

/// Rate of the free-running counter.
pub const TICKS_PER_SECOND: u32 = 4_000_000;

/// Ticks per millisecond of the free-running counter.
pub const TICKS_PER_MS: u32 = 4_000;

/// Ticks per microsecond of the free-running counter.
pub const TICKS_PER_US: u32 = 4;

/// Elapsed ticks from `start` to `now`, modulo the 32-bit counter width.
pub open spec fn spec_ticks_since(now: u32, start: u32) -> u32 {
    if now >= start {
        (now - start) as u32
    } else {
        (0x1_0000_0000 - start + now) as u32
    }
}

/// Elapsed whole milliseconds from `start` to `now`.
pub open spec fn spec_millis_since(now: u32, start: u32) -> u32 {
    (spec_ticks_since(now, start) / TICKS_PER_MS) as u32
}

/// Elapsed whole microseconds from `start` to `now`.
pub open spec fn spec_micros_since(now: u32, start: u32) -> u32 {
    (spec_ticks_since(now, start) / TICKS_PER_US) as u32
}

/// Elapsed ticks from `start` to `now` on the wrapping counter.
pub fn ticks_since(now: u32, start: u32) -> (r: u32)
    ensures
        r == spec_ticks_since(now, start),
{
    if now >= start {
        now - start
    } else {
        (0xFFFF_FFFFu32 - start) + now + 1
    }
}

/// Elapsed whole milliseconds from `start` to `now`.
pub fn millis_since(now: u32, start: u32) -> (r: u32)
    ensures
        r == spec_millis_since(now, start),
{
    ticks_since(now, start) / TICKS_PER_MS
}

/// Elapsed whole microseconds from `start` to `now`.
pub fn micros_since(now: u32, start: u32) -> (r: u32)
    ensures
        r == spec_micros_since(now, start),
{
    ticks_since(now, start) / TICKS_PER_US
}

/// Handle for the single free-running rolling timer.
///
/// The hardware counter itself is initialized and read outside the library;
/// code that owns a tick reading uses the methods here to turn pairs of
/// readings into elapsed time.
#[derive(Clone, Copy, Default)]
pub struct GlobalRollingTimer;

impl GlobalRollingTimer {
    /// A handle on the rolling timer.
    pub fn new() -> (r: Self)
        ensures
            r == (GlobalRollingTimer),
    {
        GlobalRollingTimer
    }

    /// Elapsed ticks from `start` to `now`.
    pub fn ticks_since(&self, now: u32, start: u32) -> (r: u32)
        ensures
            r == spec_ticks_since(now, start),
    {
        ticks_since(now, start)
    }

    /// Elapsed whole milliseconds from `start` to `now`.
    pub fn millis_since(&self, now: u32, start: u32) -> (r: u32)
        ensures
            r == spec_millis_since(now, start),
    {
        millis_since(now, start)
    }

    /// Elapsed whole microseconds from `start` to `now`.
    pub fn micros_since(&self, now: u32, start: u32) -> (r: u32)
        ensures
            r == spec_micros_since(now, start),
    {
        micros_since(now, start)
    }
}

} // verus!

//! Tests of the debounced input, the fuse controller, and tick arithmetic.

use diegesis::debounce::{ButtonDebounce, PinLevel, SETTLE_MS};
use diegesis::fuse::{FuseControl, COOLDOWN_MS};
use diegesis::timer::{millis_since, ticks_since, GlobalRollingTimer, TICKS_PER_MS};

fn ms(x: u32) -> u32 {
    x * TICKS_PER_MS
}

#[test]
fn tick_arithmetic_handles_wraparound() {
    assert_eq!(ticks_since(5000, 1000), 4000);
    assert_eq!(millis_since(ms(7), ms(2)), 5);
    // The counter wraps: 1001 ticks to the wrap point, 3000 after it.
    assert_eq!(ticks_since(3000, u32::MAX - 1000), 4001);
    assert_eq!(millis_since(3000, u32::MAX - 1000), 1);
    let timer = GlobalRollingTimer::new();
    assert_eq!(timer.ticks_since(10, 10), 0);
    assert_eq!(timer.millis_since(ms(12), ms(2)), 10);
    assert_eq!(timer.micros_since(8, 0), 2);
}

#[test]
fn debounce_noise_never_emits() {
    // The raw input flips every 4 ms — always faster than the settle
    // interval — so no edge is ever emitted.
    let mut d = ButtonDebounce::StableHigh;
    let mut now = 0u32;
    for _ in 0..50 {
        assert_eq!(d.poll(true, now), None);
        now += ms(SETTLE_MS - 1);
        assert_eq!(d.poll(false, now), None);
        now += ms(SETTLE_MS - 1);
    }
    assert_eq!(d, ButtonDebounce::StableHigh);
}

#[test]
fn debounce_settle_emits_exactly_one_edge() {
    let mut d = ButtonDebounce::StableHigh;
    assert_eq!(d.poll(true, 0), None);
    assert_eq!(d, ButtonDebounce::MaybeLow(0));
    // Held for less than the settle interval: still tentative.
    assert_eq!(d.poll(true, ms(SETTLE_MS) - 1), None);
    assert_eq!(d, ButtonDebounce::MaybeLow(0));
    // Held for exactly the settle interval: exactly one edge.
    assert_eq!(d.poll(true, ms(SETTLE_MS)), Some(PinLevel::Low));
    assert_eq!(d, ButtonDebounce::StableLow);
    // Holding further emits nothing more.
    for k in 1..20u32 {
        assert_eq!(d.poll(true, ms(SETTLE_MS + k)), None);
    }
}

#[test]
fn fuse_starts_clear_and_operator_toggles_it() {
    let mut f = FuseControl::new();
    assert!(!f.tripped);
    assert!(!f.running);
    // Start.
    let a = f.step(Some(PinLevel::Low), false, 0);
    assert!(a.start_channels);
    assert_eq!(a.indicator_running, Some(true));
    assert!(f.running && !f.tripped);
    // A high edge is not an actuation.
    let a = f.step(Some(PinLevel::High), false, 10);
    assert!(!a.start_channels);
    assert!(f.running);
    // Stop: the fuse trips.
    let a = f.step(Some(PinLevel::Low), false, 100);
    assert!(!a.start_channels);
    assert_eq!(a.indicator_running, Some(false));
    assert!(f.tripped && !f.running);
}

#[test]
fn fuse_clear_before_cooldown_has_no_effect() {
    let mut f = FuseControl::new();
    f.step(Some(PinLevel::Low), false, 0); // start
    f.step(Some(PinLevel::Low), false, ms(10)); // stop: trip at 10 ms
    let before = f;
    // Pressing start during the whole cooldown window changes nothing.
    for k in [1u32, 100, 1000, COOLDOWN_MS - 1] {
        let a = f.step(Some(PinLevel::Low), false, ms(10 + k));
        assert!(!a.start_channels);
        assert_eq!(f, before);
    }
    assert!(f.tripped);
}

#[test]
fn fuse_clears_only_by_explicit_start_after_cooldown() {
    let mut f = FuseControl::new();
    f.step(Some(PinLevel::Low), false, 0); // start
    f.step(Some(PinLevel::Low), false, ms(10)); // stop: trip at 10 ms
    // The cooldown expiring by itself clears nothing.
    let a = f.step(None, false, ms(10 + 10 * COOLDOWN_MS));
    assert!(!a.start_channels);
    assert!(f.tripped);
    // The explicit start after the cooldown re-arms.
    let a = f.step(Some(PinLevel::Low), false, ms(10 + 10 * COOLDOWN_MS + 1));
    assert!(a.start_channels);
    assert!(!f.tripped && f.running);
}

#[test]
fn overload_trips_and_requires_manual_rearm() {
    let mut f = FuseControl::new();
    f.step(Some(PinLevel::Low), false, 0); // start
    let a = f.step(None, true, ms(50)); // overload
    assert!(!a.start_channels);
    assert_eq!(a.indicator_running, Some(false));
    assert!(f.tripped && !f.running);
    // Start before the cooldown: ignored.
    let a = f.step(Some(PinLevel::Low), false, ms(50 + COOLDOWN_MS - 1));
    assert!(!a.start_channels);
    assert!(f.tripped);
    // Start at the cooldown boundary: re-armed.
    let a = f.step(Some(PinLevel::Low), false, ms(50 + COOLDOWN_MS * 2));
    assert!(a.start_channels);
    assert!(!f.tripped && f.running);
}

//! The fuse controller: global stop/overload protection.
//!
//! The fuse is the single cross-cutting signal of the pipeline: every
//! capture channel reads it before issuing a new transfer.  It starts
//! clear.  It trips when the operator issues a stop through the debounced
//! control, or when an overload condition is signalled to the control loop.
//! While tripped, no channel issues new transfers, so the system drains
//! within two completions per channel.  Clearing is deliberately manual:
//! only an explicit operator start action, made after the cooldown window
//! has elapsed since the trip, re-arms the system — a start pressed during
//! the cooldown has no effect at all, and the fuse never clears by itself.

use vstd::prelude::*;

use crate::debounce::PinLevel;
use crate::timer::spec_millis_since;
use crate::timer::millis_since;

verus! {

/// Milliseconds the operator must wait after a trip before a start action
/// can re-arm the system.
pub const COOLDOWN_MS: u32 = 2500;

/// The control-loop state around the fuse.
#[derive(Clone, Copy, Debug, PartialEq, Eq, Structural)]
pub struct FuseControl {
    /// Whether capture is currently running (channels may start transfers).
    pub running: bool,
    /// The fuse itself: while true, no channel starts a new transfer.
    pub tripped: bool,
    /// The tick of the most recent trip, while the fuse is tripped.
    pub trip_tick: Option<u32>,
}

/// One input to the control loop: the debounced operator edge (if any),
/// whether an overload condition was signalled since the last poll, and the
/// current tick.
#[derive(Clone, Copy, Debug, PartialEq, Eq, Structural)]
pub struct ControlEvent {
    pub edge: Option<PinLevel>,
    pub overload: bool,
    pub now: u32,
}

/// What the control loop must do after a step: start the capture channels
/// (kick their first events), and/or drive the status indicator.
#[derive(Clone, Copy, Debug, PartialEq, Eq, Structural)]
pub struct ControlAction {
    /// Kick every capture channel so transfers start.
    pub start_channels: bool,
    /// New level for the status indicator, if it changes: true = running.
    pub indicator_running: Option<bool>,
}

/// An operator actuation: the committed low edge of the active-low input.
pub open spec fn is_actuation(edge: Option<PinLevel>) -> bool {
    edge == Some(PinLevel::Low)
}

/// The cooldown has elapsed at `now` for a fuse tripped at `t`.
pub open spec fn cooldown_elapsed(t: u32, now: u32) -> bool {
    spec_millis_since(now, t) >= COOLDOWN_MS
}

/// Does this event clear the fuse in state `s`?  Only an explicit operator
/// actuation while stopped, after the cooldown has elapsed.
pub open spec fn clears_fuse(s: FuseControl, ev: ControlEvent) -> bool {
    &&& s.tripped
    &&& !s.running
    &&& !ev.overload
    &&& is_actuation(ev.edge)
    &&& match s.trip_tick {
        Some(t) => cooldown_elapsed(t, ev.now),
        None => true,
    }
}

/// One step of the control loop.
pub open spec fn control_next(s: FuseControl, ev: ControlEvent) -> FuseControl {
    if ev.overload {
        // An overload trips the fuse and stops the run; re-tripping while
        // already tripped keeps the original trip tick.
        if s.tripped {
            FuseControl { running: false, ..s }
        } else {
            FuseControl { running: false, tripped: true, trip_tick: Some(ev.now) }
        }
    } else if is_actuation(ev.edge) {
        if s.running {
            // Operator stop: blow the fuse.
            FuseControl { running: false, tripped: true, trip_tick: Some(ev.now) }
        } else if s.tripped {
            match s.trip_tick {
                Some(t) => {
                    if cooldown_elapsed(t, ev.now) {
                        // Explicit re-arm after the cooldown.
                        FuseControl { running: true, tripped: false, trip_tick: None }
                    } else {
                        // Start during the cooldown: no effect.
                        s
                    }
                },
                None => FuseControl { running: true, tripped: false, trip_tick: None },
            }
        } else {
            // Plain start from the cleared state.
            FuseControl { running: true, ..s }
        }
    } else {
        s
    }
}

/// The action the control loop owes after one step.
pub open spec fn control_action(s: FuseControl, ev: ControlEvent) -> ControlAction {
    let s2 = control_next(s, ev);
    ControlAction {
        start_channels: !s.running && s2.running,
        indicator_running: if s.running != s2.running {
            Some(s2.running)
        } else {
            None
        },
    }
}

impl FuseControl {
    /// The initial state: fuse clear, capture stopped.
    pub fn new() -> (s: FuseControl)
        ensures
            s == (FuseControl { running: false, tripped: false, trip_tick: None }),
    {
        FuseControl { running: false, tripped: false, trip_tick: None }
    }

    /// Service one control event: operator edge, overload signal, tick.
    pub fn step(&mut self, edge: Option<PinLevel>, overload: bool, now: u32) -> (action:
        ControlAction)
        ensures
            *final(self) == control_next(*old(self), ControlEvent { edge, overload, now }),
            action == control_action(*old(self), ControlEvent { edge, overload, now }),
            // A new run can begin only with the fuse clear.
            action.start_channels ==> !final(self).tripped,
            // The fuse clears only through an explicit, cooled-down start.
            old(self).tripped && !final(self).tripped ==> clears_fuse(
                *old(self),
                ControlEvent { edge, overload, now },
            ),
    {
        let was_running = self.running;
        if overload {
            if self.tripped {
                self.running = false;
            } else {
                self.running = false;
                self.tripped = true;
                self.trip_tick = Some(now);
            }
        } else if edge_is_actuation(&edge) {
            if self.running {
                self.running = false;
                self.tripped = true;
                self.trip_tick = Some(now);
            } else if self.tripped {
                let cleared = match self.trip_tick {
                    Some(t) => millis_since(now, t) >= COOLDOWN_MS,
                    None => true,
                };
                if cleared {
                    self.running = true;
                    self.tripped = false;
                    self.trip_tick = None;
                }
            } else {
                self.running = true;
            }
        }
        let started = !was_running && self.running;
        let indicator: Option<bool> = if was_running != self.running {
            Some(self.running)
        } else {
            None
        };
        ControlAction { start_channels: started, indicator_running: indicator }
    }
}

/// Whether the edge is the operator actuation.
fn edge_is_actuation(edge: &Option<PinLevel>) -> (r: bool)
    ensures
        r == is_actuation(*edge),
{
    match edge {
        Some(PinLevel::Low) => true,
        _ => false,
    }
}

// ------------------------------------------------------------------
// The monotonic re-arm law.
// ------------------------------------------------------------------

/// The control state after a whole sequence of events.
pub open spec fn control_run(s: FuseControl, evs: Seq<ControlEvent>) -> FuseControl
    decreases evs.len(),
{
    if evs.len() == 0 {
        s
    } else {
        control_run(control_next(s, evs[0]), evs.skip(1))
    }
}

/// Law: once tripped, the fuse stays tripped — and no step starts the
/// channels — until some event is an explicit operator start issued while
/// stopped, with no overload pending, after the cooldown window has elapsed
/// since the trip.  In particular, clearing attempts before the cooldown
/// have no effect, and the fuse never clears on its own.
pub proof fn lemma_fuse_monotonic_rearm(s: FuseControl, evs: Seq<ControlEvent>)
    requires
        s.tripped,
        forall|i: int|
            0 <= i < evs.len() ==> !clears_fuse(
                #[trigger] control_run(s, evs.take(i)),
                evs[i],
            ),
    ensures
        control_run(s, evs).tripped,
        forall|i: int|
            0 <= i < evs.len() ==> !control_action(
                #[trigger] control_run(s, evs.take(i)),
                evs[i],
            ).start_channels,
    decreases evs.len(),
{
    if evs.len() > 0 {
        assert(evs.take(0) =~= Seq::<ControlEvent>::empty());
        assert(control_run(s, evs.take(0)) == s);
        let s1 = control_next(s, evs[0]);
        assert(s1.tripped);
        let rest = evs.skip(1);
        assert forall|i: int| 0 <= i < rest.len() implies !clears_fuse(
            #[trigger] control_run(s1, rest.take(i)),
            rest[i],
        ) by {
            assert(evs.take(i + 1).skip(1) =~= rest.take(i));
            assert(control_run(s, evs.take(i + 1)) == control_run(s1, rest.take(i)));
            assert(rest[i] == evs[i + 1]);
        }
        lemma_fuse_monotonic_rearm(s1, rest);
        assert forall|i: int| 0 <= i < evs.len() implies !control_action(
            #[trigger] control_run(s, evs.take(i)),
            evs[i],
        ).start_channels by {
            if i == 0 {
                assert(!control_action(s, evs[0]).start_channels);
            } else {
                assert(evs.take(i).skip(1) =~= rest.take(i - 1));
                assert(control_run(s, evs.take(i)) == control_run(s1, rest.take(i - 1)));
                assert(evs[i] == rest[i - 1]);
            }
        }
    }
}

/// A start pressed during the cooldown changes nothing at all.
pub proof fn lemma_early_clear_has_no_effect(s: FuseControl, ev: ControlEvent, t: u32)
    requires
        s.tripped,
        !s.running,
        s.trip_tick == Some(t),
        !ev.overload,
        is_actuation(ev.edge),
        !cooldown_elapsed(t, ev.now),
    ensures
        control_next(s, ev) == s,
        control_action(s, ev) == (ControlAction { start_channels: false, indicator_running: None }),
{
}

} // verus!

//! Step behaviors for the indicator sequencer.

use vstd::prelude::*;

use crate::engine::Context;
use crate::engine::Rgb;
use crate::timer::spec_millis_since;
use crate::timer::millis_since;

verus! {

/// The behavior of a solid step: show the context's color for the whole
/// duration, then retire.
#[derive(Clone, Copy, Debug, Default, PartialEq, Eq, Structural)]
pub struct StayColor;

impl StayColor {
    /// A solid-color behavior.
    pub fn new() -> (s: Self)
        ensures
            s == (StayColor),
    {
        StayColor
    }

    /// The color to show at tick `now`: the context's color while its
    /// duration lasts, nothing once the step is over.
    pub fn poll(&self, context: &Context, now: u32) -> (c: Option<Rgb>)
        ensures
            c == if spec_millis_since(now, context.start_tick) >= context.duration_ms {
                None
            } else {
                Some(context.color)
            },
    {
        if millis_since(now, context.start_tick) >= context.duration_ms {
            None
        } else {
            Some(context.color)
        }
    }
}

/// How a plan builder advances the phase offset from one step to the next:
/// never, for the next step only, or for every following step.
#[derive(Clone, Copy, Debug, PartialEq, Eq, Structural)]
pub enum AutoIncr {
    Never,
    Once,
    Forever,
}

impl Default for AutoIncr {
    fn default() -> (r: Self)
        ensures
            r == AutoIncr::Never,
    {
        AutoIncr::Never
    }
}

} // verus!

//! A small timer-driven sequencer for the status indicator.
//!
//! Decorative only and fully decoupled from the capture pipeline: each
//! indicator pixel runs an ordered list of declarative [`Step`] records —
//! hold a color, pulse it, or ramp towards it — interpreted against the
//! rolling timer.  All brightness math is plain integer arithmetic.

use vstd::prelude::*;

use crate::timer::spec_millis_since;
use crate::timer::millis_since;

verus! {

/// One indicator pixel color.
#[derive(Clone, Copy, Debug, PartialEq, Eq, Structural)]
pub struct Rgb {
    pub r: u8,
    pub g: u8,
    pub b: u8,
}

/// Channel-wise scaling by `mul / div` with 16-bit intermediate math.
pub open spec fn spec_scale8(v: u8, mul: u8, div: u8) -> u8 {
    (((v as int) * (mul as int)) / (div as int)) as u8
}

impl Rgb {
    /// Channel-wise division.
    pub fn div(&self, div: u8) -> (c: Rgb)
        requires
            div != 0,
        ensures
            c == (Rgb { r: (self.r / div) as u8, g: (self.g / div) as u8, b: (self.b / div) as u8 }),
    {
        Rgb { r: self.r / div, g: self.g / div, b: self.b / div }
    }

    /// Channel-wise multiplication; the caller keeps every product in range.
    pub fn mul(&self, mul: u8) -> (c: Rgb)
        requires
            self.r * mul <= u8::MAX,
            self.g * mul <= u8::MAX,
            self.b * mul <= u8::MAX,
        ensures
            c == (Rgb { r: (self.r * mul) as u8, g: (self.g * mul) as u8, b: (self.b * mul) as u8 }),
    {
        Rgb { r: self.r * mul, g: self.g * mul, b: self.b * mul }
    }

    /// Channel-wise scaling by `mul / div` in 16-bit arithmetic.
    pub fn mul_then_div(&self, mul: u8, div: u8) -> (c: Rgb)
        requires
            div != 0,
        ensures
            c == (Rgb {
                r: spec_scale8(self.r, mul, div),
                g: spec_scale8(self.g, mul, div),
                b: spec_scale8(self.b, mul, div),
            }),
    {
        proof {
            vstd::arithmetic::mul::lemma_mul_upper_bound(self.r as int, 255, mul as int, 255);
            vstd::arithmetic::mul::lemma_mul_upper_bound(self.g as int, 255, mul as int, 255);
            vstd::arithmetic::mul::lemma_mul_upper_bound(self.b as int, 255, mul as int, 255);
        }
        Rgb {
            r: (((self.r as u16) * (mul as u16)) / (div as u16)) as u8,
            g: (((self.g as u16) * (mul as u16)) / (div as u16)) as u8,
            b: (((self.b as u16) * (mul as u16)) / (div as u16)) as u8,
        }
    }
}

/// How a step paints its color over its duration.
#[derive(Clone, Copy, Debug, PartialEq, Eq, Structural)]
pub enum StepShape {
    /// Hold the color for the whole duration.
    Solid,
    /// Pulse the color with a triangle brightness wave of the step's period.
    Pulse,
    /// Ramp the color in from black over the duration.
    Seek,
}

/// Whether a finished step retires or restarts.
#[derive(Clone, Copy, Debug, PartialEq, Eq, Structural)]
pub enum Repeat {
    Once,
    Forever,
}

/// How a whole sequence behaves when its last step retires.
#[derive(Clone, Copy, Debug, PartialEq, Eq, Structural)]
pub enum Behavior {
    OneShot,
    LoopForever,
}

/// One declarative sequencing step.
#[derive(Clone, Copy, Debug, PartialEq, Eq, Structural)]
pub struct Step {
    pub shape: StepShape,
    pub color: Rgb,
    pub duration_ms: u32,
    pub period_ms: u32,
    pub phase_offset_ms: u32,
    pub repeat: Repeat,
}

/// The timing context a step behavior is polled against.
#[derive(Clone, Copy, Debug, PartialEq, Eq, Structural)]
pub struct Context {
    pub color: Rgb,
    pub start_tick: u32,
    pub duration_ms: u32,
    pub period_ms: u32,
    pub phase_offset_ms: u32,
}

/// Triangle-wave brightness, 0..=255, over phase `p` of period `period`.
pub open spec fn spec_triangle(p: u32, period: u32) -> u32 {
    if period == 0 {
        255
    } else {
        let m = if p <= period - p {
            p as int
        } else {
            period - p
        };
        let v = 510 * m / (period as int);
        if v > 255 {
            255
        } else {
            v as u32
        }
    }
}

/// The color a step shows after `el` milliseconds of its life.
pub open spec fn spec_render(st: Step, el: u32) -> Rgb {
    match st.shape {
        StepShape::Solid => st.color,
        StepShape::Pulse => {
            if st.period_ms == 0 {
                st.color
            } else {
                let p = ((el + st.phase_offset_ms) % (st.period_ms as int)) as u32;
                let bri = spec_triangle(p, st.period_ms);
                Rgb {
                    r: spec_scale8(st.color.r, bri as u8, 255),
                    g: spec_scale8(st.color.g, bri as u8, 255),
                    b: spec_scale8(st.color.b, bri as u8, 255),
                }
            }
        },
        StepShape::Seek => {
            if st.duration_ms == 0 {
                st.color
            } else {
                let wide = el as int * 255 / (st.duration_ms as int);
                let bri: u32 = if wide > 255 {
                    255u32
                } else {
                    wide as u32
                };
                Rgb {
                    r: spec_scale8(st.color.r, bri as u8, 255),
                    g: spec_scale8(st.color.g, bri as u8, 255),
                    b: spec_scale8(st.color.b, bri as u8, 255),
                }
            }
        },
    }
}

/// The color a step shows after `el` milliseconds of its life.
pub fn render_step(st: &Step, el: u32) -> (c: Rgb)
    ensures
        c == spec_render(*st, el),
{
    match st.shape {
        StepShape::Solid => st.color,
        StepShape::Pulse => {
            if st.period_ms == 0 {
                st.color
            } else {
                let p = ((el as u64 + st.phase_offset_ms as u64) % (st.period_ms as u64)) as u32;
                let bri = triangle(p, st.period_ms);
                proof {
                    assert(el as u64 + st.phase_offset_ms as u64 == el + st.phase_offset_ms);
                }
                st.color.mul_then_div(bri as u8, 255)
            }
        },
        StepShape::Seek => {
            if st.duration_ms == 0 {
                st.color
            } else {
                proof {
                    vstd::arithmetic::mul::lemma_mul_upper_bound(el as int, 0xFFFF_FFFF, 255, 255);
                }
                let wide = (el as u64) * 255 / (st.duration_ms as u64);
                let bri = if wide > 255 {
                    255u32
                } else {
                    wide as u32
                };
                st.color.mul_then_div(bri as u8, 255)
            }
        },
    }
}

/// Triangle-wave brightness, 0..=255, over phase `p` of period `period`.
fn triangle(p: u32, period: u32) -> (bri: u32)
    requires
        p < period || period == 0,
    ensures
        bri == spec_triangle(p, period),
        bri <= 255,
{
    if period == 0 {
        255
    } else {
        let m = if p <= period - p {
            p
        } else {
            period - p
        };
        proof {
            vstd::arithmetic::mul::lemma_mul_upper_bound(510, 510, m as int, 0xFFFF_FFFF);
        }
        let v = (510u64 * m as u64) / (period as u64);
        if v > 255 {
            255
        } else {
            v as u32
        }
    }
}

/// A running sequence of steps for one indicator pixel.
#[derive(Clone, Debug, PartialEq, Eq)]
pub struct Sequence {
    pub steps: Vec<Step>,
    pub index: usize,
    pub start_tick: u32,
    pub behavior: Behavior,
}

impl Sequence {
    /// An empty, retired sequence.
    pub fn new() -> (s: Sequence)
        ensures
            s.steps@.len() == 0,
            s.index == 0,
            s.behavior == Behavior::OneShot,
    {
        Sequence { steps: Vec::new(), index: 0, start_tick: 0, behavior: Behavior::OneShot }
    }

    /// Install a new plan, starting at its first step from tick `now`.
    pub fn set(&mut self, plan: &Vec<Step>, behavior: Behavior, now: u32)
        ensures
            final(self).steps@ == plan@,
            final(self).index == 0,
            final(self).start_tick == now,
            final(self).behavior == behavior,
    {
        self.steps = plan.clone();
        self.index = 0;
        self.start_tick = now;
        self.behavior = behavior;
    }

    /// Poll the sequence at tick `now`: render the current step, retire or
    /// restart finished steps, and loop or stop at the end of the plan.
    /// `None` means the pixel has nothing new to show this poll.
    pub fn poll(&mut self, now: u32) -> (c: Option<Rgb>)
        ensures
            final(self).steps@ == old(self).steps@,
            final(self).behavior == old(self).behavior,
            ({
                let n = old(self).steps@.len();
                let looped = old(self).index >= n && old(self).behavior == Behavior::LoopForever
                    && n > 0;
                let idx = if looped {
                    0int
                } else {
                    old(self).index as int
                };
                let started = if looped {
                    now
                } else {
                    old(self).start_tick
                };
                if idx >= n {
                    &&& c is None
                    &&& final(self).index == old(self).index
                    &&& final(self).start_tick == old(self).start_tick
                } else {
                    let st = old(self).steps@[idx];
                    let el = spec_millis_since(now, started);
                    if el >= st.duration_ms {
                        match st.repeat {
                            Repeat::Forever => {
                                &&& c == Some(spec_render(st, 0))
                                &&& final(self).index == idx
                                &&& final(self).start_tick == now
                            },
                            Repeat::Once => {
                                &&& c is None
                                &&& final(self).index == idx + 1
                                &&& final(self).start_tick == now
                            },
                        }
                    } else {
                        &&& c == Some(spec_render(st, el))
                        &&& final(self).index == idx
                        &&& final(self).start_tick == started
                    }
                }
            }),
    {
        let n = self.steps.len();
        let looping = match self.behavior {
            Behavior::LoopForever => true,
            Behavior::OneShot => false,
        };
        if self.index >= n {
            if looping && n > 0 {
                self.index = 0;
                self.start_tick = now;
            } else {
                return None;
            }
        }
        let st = self.steps[self.index];
        let el = millis_since(now, self.start_tick);
        if el >= st.duration_ms {
            match st.repeat {
                Repeat::Forever => {
                    self.start_tick = now;
                    Some(render_step(&st, 0))
                },
                Repeat::Once => {
                    self.index = self.index + 1;
                    self.start_tick = now;
                    None
                },
            }
        } else {
            Some(render_step(&st, el))
        }
    }
}

} // verus!

//! Prebuilt indicator patterns over a ring of pixels.
//!
//! Each pattern installs one plan per pixel, staggered around the ring so
//! the animation appears to travel in the chosen direction.

use vstd::prelude::*;

use crate::engine::Behavior;
use crate::engine::Repeat;
use crate::engine::Rgb;
use crate::engine::Sequence;
use crate::engine::Step;
use crate::engine::StepShape;
use crate::engine::spec_scale8;

verus! {

/// Number of pixels a ring pattern is laid out for.
pub const RING_PIXELS: usize = 10;

/// The direction a ring animation travels in.
#[derive(Clone, Copy, Debug, PartialEq, Eq, Structural)]
pub enum Direction {
    Clockwise,
    CounterClockwise,
}

impl Direction {
    /// The opposite direction.  Inverting twice gives the original back.
    pub fn invert(&self) -> (d: Self)
        ensures
            d == match *self {
                Direction::Clockwise => Direction::CounterClockwise,
                Direction::CounterClockwise => Direction::Clockwise,
            },
    {
        match self {
            Direction::Clockwise => Direction::CounterClockwise,
            Direction::CounterClockwise => Direction::Clockwise,
        }
    }
}

pub open spec fn black() -> Rgb {
    Rgb { r: 0, g: 0, b: 0 }
}

pub open spec fn white() -> Rgb {
    Rgb { r: 255, g: 255, b: 255 }
}

pub open spec fn red() -> Rgb {
    Rgb { r: 255, g: 0, b: 0 }
}

pub open spec fn orange() -> Rgb {
    Rgb { r: 255, g: 165, b: 0 }
}

pub open spec fn yellow() -> Rgb {
    Rgb { r: 255, g: 255, b: 0 }
}

pub open spec fn green() -> Rgb {
    Rgb { r: 0, g: 128, b: 0 }
}

pub open spec fn blue() -> Rgb {
    Rgb { r: 0, g: 0, b: 255 }
}

pub open spec fn violet() -> Rgb {
    Rgb { r: 238, g: 130, b: 238 }
}

/// The pulse color of ring position `i` in the rainbow crawl.
pub open spec fn rainbow_color(i: int) -> Rgb {
    if i == 2 {
        red()
    } else if i == 3 {
        orange()
    } else if i == 4 {
        yellow()
    } else if i == 5 {
        green()
    } else if i == 6 {
        blue()
    } else if i == 7 {
        violet()
    } else {
        white()
    }
}

/// The rainbow-crawl plan of ring position `i`: dark for `100 * i`
/// milliseconds, one pulse, then dark for the rest of the second.
pub open spec fn rainbow_row(i: int) -> Seq<Step> {
    seq![
        Step {
            shape: StepShape::Solid,
            color: black(),
            duration_ms: (100 * i) as u32,
            period_ms: 0,
            phase_offset_ms: 0,
            repeat: Repeat::Once,
        },
        Step {
            shape: StepShape::Pulse,
            color: rainbow_color(i),
            duration_ms: 2500,
            period_ms: 2500,
            phase_offset_ms: 0,
            repeat: Repeat::Once,
        },
        Step {
            shape: StepShape::Solid,
            color: black(),
            duration_ms: (1000 - 100 * i) as u32,
            period_ms: 0,
            phase_offset_ms: 0,
            repeat: Repeat::Once,
        },
    ]
}

/// The ring position whose plan pixel `i` gets for the given direction.
pub open spec fn ring_position(direction: Direction, i: int) -> int {
    match direction {
        Direction::Clockwise => RING_PIXELS - 1 - i,
        Direction::CounterClockwise => i,
    }
}

/// Install the rainbow crawl on up to one ring of pixels: each pixel stays
/// dark, pulses its rainbow color once, and goes dark again, staggered
/// around the ring in the chosen direction.
pub fn rainbow_crawler(
    script: &mut Vec<Sequence>,
    behavior: Behavior,
    direction: Direction,
    now: u32,
)
    ensures
        final(script)@.len() == old(script)@.len(),
        forall|i: int|
            0 <= i < old(script)@.len() && i < RING_PIXELS ==> {
                &&& (#[trigger] final(script)@[i]).steps@ == rainbow_row(
                    ring_position(direction, i),
                )
                &&& final(script)@[i].index == 0
                &&& final(script)@[i].start_tick == now
                &&& final(script)@[i].behavior == behavior
            },
        forall|i: int|
            RING_PIXELS <= i < old(script)@.len() ==> final(script)@[i] == old(script)@[i],
{
    let count = if script.len() < RING_PIXELS {
        script.len()
    } else {
        RING_PIXELS
    };
    let mut i: usize = 0;
    while i < count
        invariant
            count <= script@.len(),
            count <= RING_PIXELS,
            count == if old(script)@.len() < RING_PIXELS {
                old(script)@.len() as int
            } else {
                RING_PIXELS as int
            },
            script@.len() == old(script)@.len(),
            i <= count,
            forall|k: int|
                0 <= k < i ==> {
                    &&& (#[trigger] script@[k]).steps@ == rainbow_row(ring_position(direction, k))
                    &&& script@[k].index == 0
                    &&& script@[k].start_tick == now
                    &&& script@[k].behavior == behavior
                },
            forall|k: int| i <= k < script@.len() ==> script@[k] == old(script)@[k],
        decreases count - i,
    {
        let row = match direction {
            Direction::Clockwise => RING_PIXELS - 1 - i,
            Direction::CounterClockwise => i,
        };
        let plan = build_rainbow_row(row);
        script.set(i, Sequence { steps: plan, index: 0, start_tick: now, behavior });
        i += 1;
    }
}

/// Build the rainbow-crawl plan for ring position `row`.
fn build_rainbow_row(row: usize) -> (plan: Vec<Step>)
    requires
        row < RING_PIXELS,
    ensures
        plan@ == rainbow_row(row as int),
{
    let color = if row == 2 {
        Rgb { r: 255, g: 0, b: 0 }
    } else if row == 3 {
        Rgb { r: 255, g: 165, b: 0 }
    } else if row == 4 {
        Rgb { r: 255, g: 255, b: 0 }
    } else if row == 5 {
        Rgb { r: 0, g: 128, b: 0 }
    } else if row == 6 {
        Rgb { r: 0, g: 0, b: 255 }
    } else if row == 7 {
        Rgb { r: 238, g: 130, b: 238 }
    } else {
        Rgb { r: 255, g: 255, b: 255 }
    };
    let mut plan: Vec<Step> = Vec::new();
    plan.push(
        Step {
            shape: StepShape::Solid,
            color: Rgb { r: 0, g: 0, b: 0 },
            duration_ms: 100 * (row as u32),
            period_ms: 0,
            phase_offset_ms: 0,
            repeat: Repeat::Once,
        },
    );
    plan.push(
        Step {
            shape: StepShape::Pulse,
            color,
            duration_ms: 2500,
            period_ms: 2500,
            phase_offset_ms: 0,
            repeat: Repeat::Once,
        },
    );
    plan.push(
        Step {
            shape: StepShape::Solid,
            color: Rgb { r: 0, g: 0, b: 0 },
            duration_ms: 1000 - 100 * (row as u32),
            period_ms: 0,
            phase_offset_ms: 0,
            repeat: Repeat::Once,
        },
    );
    proof {
        assert(plan@ =~= rainbow_row(row as int));
    }
    plan
}

/// Step `j` of the color-walk plan of ring position `i`: the color at
/// `(j + 1) / 8` strength, pulsing with a stagger of a quarter second per
/// position and per step; the final full-strength step repeats forever.
pub open spec fn walker_step(c: Rgb, i: int, j: int) -> Step {
    Step {
        shape: StepShape::Pulse,
        color: Rgb {
            r: spec_scale8(c.r, (j + 1) as u8, 8),
            g: spec_scale8(c.g, (j + 1) as u8, 8),
            b: spec_scale8(c.b, (j + 1) as u8, 8),
        },
        duration_ms: if j == 7 {
            2000
        } else {
            250
        },
        period_ms: 2000,
        phase_offset_ms: (250 * (i + 1) + 250 * j) as u32,
        repeat: if j == 7 {
            Repeat::Forever
        } else {
            Repeat::Once
        },
    }
}

/// The color-walk plan of ring position `i`.
pub open spec fn walker_row(c: Rgb, i: int) -> Seq<Step> {
    Seq::new(8, |j: int| walker_step(c, i, j))
}

/// Install the color walk: each pixel fades the walk color in over eight
/// staggered pulse steps and then keeps pulsing at full strength, the
/// stagger travelling around the ring in the chosen direction.
pub fn color_walker(
    script: &mut Vec<Sequence>,
    walk_color: Rgb,
    behavior: Behavior,
    direction: Direction,
    now: u32,
)
    ensures
        final(script)@.len() == old(script)@.len(),
        forall|i: int|
            0 <= i < old(script)@.len() && i < RING_PIXELS ==> {
                &&& (#[trigger] final(script)@[i]).steps@ == walker_row(
                    walk_color,
                    ring_position(direction.invert_spec(), i),
                )
                &&& final(script)@[i].index == 0
                &&& final(script)@[i].start_tick == now
                &&& final(script)@[i].behavior == behavior
            },
        forall|i: int|
            RING_PIXELS <= i < old(script)@.len() ==> final(script)@[i] == old(script)@[i],
{
    let count = if script.len() < RING_PIXELS {
        script.len()
    } else {
        RING_PIXELS
    };
    let mut i: usize = 0;
    while i < count
        invariant
            count <= script@.len(),
            count <= RING_PIXELS,
            script@.len() == old(script)@.len(),
            i <= count,
            forall|k: int|
                0 <= k < i ==> {
                    &&& (#[trigger] script@[k]).steps@ == walker_row(
                        walk_color,
                        ring_position(direction.invert_spec(), k),
                    )
                    &&& script@[k].index == 0
                    &&& script@[k].start_tick == now
                    &&& script@[k].behavior == behavior
                },
            forall|k: int| i <= k < script@.len() ==> script@[k] == old(script)@[k],
        decreases count - i,
    {
        let row = match direction {
            Direction::Clockwise => i,
            Direction::CounterClockwise => RING_PIXELS - 1 - i,
        };
        let plan = build_walker_row(walk_color, row);
        script.set(i, Sequence { steps: plan, index: 0, start_tick: now, behavior });
        i += 1;
    }
}

/// Build the color-walk plan for ring position `row`.
fn build_walker_row(c: Rgb, row: usize) -> (plan: Vec<Step>)
    requires
        row < RING_PIXELS,
    ensures
        plan@ == walker_row(c, row as int),
{
    let mut plan: Vec<Step> = Vec::new();
    let mut j: usize = 0;
    while j < 8
        invariant
            row < RING_PIXELS,
            j <= 8,
            plan@.len() == j,
            forall|k: int| 0 <= k < j ==> plan@[k] == walker_step(c, row as int, k),
        decreases 8 - j,
    {
        let strength = (j + 1) as u8;
        let scaled = c.mul_then_div(strength, 8);
        plan.push(
            Step {
                shape: StepShape::Pulse,
                color: scaled,
                duration_ms: if j == 7 {
                    2000
                } else {
                    250
                },
                period_ms: 2000,
                phase_offset_ms: 250 * (row as u32 + 1) + 250 * (j as u32),
                repeat: if j == 7 {
                    Repeat::Forever
                } else {
                    Repeat::Once
                },
            },
        );
        j += 1;
    }
    proof {
        assert(plan@ =~= walker_row(c, row as int));
    }
    plan
}

impl Direction {
    /// The opposite direction, as a specification value.
    pub open spec fn invert_spec(self) -> Direction {
        match self {
            Direction::Clockwise => Direction::CounterClockwise,
            Direction::CounterClockwise => Direction::Clockwise,
        }
    }
}

/// The boot plan of pixel `i`: one staggered pulse of blue, then a quick
/// ramp through the rainbow, ending dark.
pub open spec fn boot_row(i: int) -> Seq<Step> {
    seq![
        Step {
            shape: StepShape::Pulse,
            color: blue(),
            duration_ms: (2500 + 50 * i) as u32,
            period_ms: (2500 + 75 * i) as u32,
            phase_offset_ms: 0,
            repeat: Repeat::Once,
        },
        boot_seek(red(), 50),
        boot_seek(orange(), 50),
        boot_seek(yellow(), 50),
        boot_seek(green(), 50),
        boot_seek(blue(), 50),
        boot_seek(violet(), 50),
        boot_seek(black(), 100),
    ]
}

/// A short ramp step used by the boot plan.
pub open spec fn boot_seek(c: Rgb, duration: u32) -> Step {
    Step {
        shape: StepShape::Seek,
        color: c,
        duration_ms: duration,
        period_ms: 0,
        phase_offset_ms: 0,
        repeat: Repeat::Once,
    }
}

/// Install the boot animation: every pixel pulses blue once — each a
/// little later and a little slower than the one before — then ramps
/// through the rainbow and goes dark.
pub fn boot_seq(script: &mut Vec<Sequence>, behavior: Behavior, _direction: Direction, now: u32)
    requires
        2500 + 75 * old(script)@.len() <= u32::MAX,
    ensures
        final(script)@.len() == old(script)@.len(),
        forall|i: int|
            0 <= i < old(script)@.len() ==> {
                &&& (#[trigger] final(script)@[i]).steps@ == boot_row(i)
                &&& final(script)@[i].index == 0
                &&& final(script)@[i].start_tick == now
                &&& final(script)@[i].behavior == behavior
            },
{
    let n = script.len();
    let mut i: usize = 0;
    while i < n
        invariant
            n == script@.len(),
            script@.len() == old(script)@.len(),
            2500 + 75 * n <= u32::MAX,
            i <= n,
            forall|k: int|
                0 <= k < i ==> {
                    &&& (#[trigger] script@[k]).steps@ == boot_row(k)
                    &&& script@[k].index == 0
                    &&& script@[k].start_tick == now
                    &&& script@[k].behavior == behavior
                },
            forall|k: int| i <= k < script@.len() ==> script@[k] == old(script)@[k],
        decreases n - i,
    {
        let plan = build_boot_row(i);
        script.set(i, Sequence { steps: plan, index: 0, start_tick: now, behavior });
        i += 1;
    }
}

/// Build the boot plan for pixel `i`.
fn build_boot_row(i: usize) -> (plan: Vec<Step>)
    requires
        2500 + 75 * i <= u32::MAX,
    ensures
        plan@ == boot_row(i as int),
{
    let mut plan: Vec<Step> = Vec::new();
    plan.push(
        Step {
            shape: StepShape::Pulse,
            color: Rgb { r: 0, g: 0, b: 255 },
            duration_ms: 2500 + 50 * (i as u32),
            period_ms: 2500 + 75 * (i as u32),
            phase_offset_ms: 0,
            repeat: Repeat::Once,
        },
    );
    plan.push(build_boot_seek(Rgb { r: 255, g: 0, b: 0 }, 50));
    plan.push(build_boot_seek(Rgb { r: 255, g: 165, b: 0 }, 50));
    plan.push(build_boot_seek(Rgb { r: 255, g: 255, b: 0 }, 50));
    plan.push(build_boot_seek(Rgb { r: 0, g: 128, b: 0 }, 50));
    plan.push(build_boot_seek(Rgb { r: 0, g: 0, b: 255 }, 50));
    plan.push(build_boot_seek(Rgb { r: 238, g: 130, b: 238 }, 50));
    plan.push(build_boot_seek(Rgb { r: 0, g: 0, b: 0 }, 100));
    proof {
        assert(plan@ =~= boot_row(i as int));
    }
    plan
}

/// Build one ramp step of the boot plan.
fn build_boot_seek(c: Rgb, duration: u32) -> (s: Step)
    ensures
        s == boot_seek(c, duration),
{
    Step {
        shape: StepShape::Seek,
        color: c,
        duration_ms: duration,
        period_ms: 0,
        phase_offset_ms: 0,
        repeat: Repeat::Once,
    }
}

} // verus!

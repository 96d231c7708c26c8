//! Tests of the status-indicator sequencer and the prebuilt patterns.

use diegesis::behaviors::{AutoIncr, StayColor};
use diegesis::engine::{render_step, Behavior, Context, Repeat, Rgb, Sequence, Step, StepShape};
use diegesis::patterns::{boot_seq, color_walker, rainbow_crawler, Direction, RING_PIXELS};
use diegesis::timer::TICKS_PER_MS;

fn ms(x: u32) -> u32 {
    x * TICKS_PER_MS
}

const BLACK: Rgb = Rgb { r: 0, g: 0, b: 0 };
const WHITE: Rgb = Rgb { r: 255, g: 255, b: 255 };
const RED: Rgb = Rgb { r: 255, g: 0, b: 0 };
const BLUE: Rgb = Rgb { r: 0, g: 0, b: 255 };

fn ring() -> Vec<Sequence> {
    (0..RING_PIXELS).map(|_| Sequence::new()).collect()
}

#[test]
fn direction_invert_is_an_involution() {
    assert_eq!(Direction::Clockwise.invert(), Direction::CounterClockwise);
    assert_eq!(Direction::CounterClockwise.invert(), Direction::Clockwise);
    assert_eq!(Direction::Clockwise.invert().invert(), Direction::Clockwise);
}

#[test]
fn autoincr_defaults_to_never() {
    assert!(matches!(AutoIncr::default(), AutoIncr::Never));
}

#[test]
fn stay_color_holds_for_its_duration() {
    let ctx = Context {
        color: RED,
        start_tick: ms(100),
        duration_ms: 50,
        period_ms: 0,
        phase_offset_ms: 0,
    };
    let b = StayColor::new();
    assert_eq!(b.poll(&ctx, ms(100)), Some(RED));
    assert_eq!(b.poll(&ctx, ms(149)), Some(RED));
    assert_eq!(b.poll(&ctx, ms(150)), None);
}

#[test]
fn rgb_scaling_is_integer_exact() {
    let c = Rgb { r: 80, g: 41, b: 8 };
    assert_eq!(c.div(8), Rgb { r: 10, g: 5, b: 1 });
    assert_eq!(c.mul(3), Rgb { r: 240, g: 123, b: 24 });
    assert_eq!(c.mul_then_div(3, 8), Rgb { r: 30, g: 15, b: 3 });
    assert_eq!(WHITE.mul_then_div(1, 8), Rgb { r: 31, g: 31, b: 31 });
}

#[test]
fn solid_steps_render_their_color() {
    let st = Step {
        shape: StepShape::Solid,
        color: RED,
        duration_ms: 100,
        period_ms: 0,
        phase_offset_ms: 0,
        repeat: Repeat::Once,
    };
    assert_eq!(render_step(&st, 0), RED);
    assert_eq!(render_step(&st, 99), RED);
}

#[test]
fn pulse_steps_rise_and_fall() {
    let st = Step {
        shape: StepShape::Pulse,
        color: WHITE,
        duration_ms: 1000,
        period_ms: 1000,
        phase_offset_ms: 0,
        repeat: Repeat::Once,
    };
    assert_eq!(render_step(&st, 0), BLACK);
    let mid = render_step(&st, 500);
    assert_eq!(mid, WHITE.mul_then_div(255, 255));
    let quarter = render_step(&st, 250);
    assert!(quarter.r > 0 && quarter.r < 255);
    // Same brightness on the way up and on the way down.
    assert_eq!(render_step(&st, 250), render_step(&st, 750));
}

#[test]
fn sequence_advances_and_loops() {
    let plan = vec![
        Step {
            shape: StepShape::Solid,
            color: RED,
            duration_ms: 10,
            period_ms: 0,
            phase_offset_ms: 0,
            repeat: Repeat::Once,
        },
        Step {
            shape: StepShape::Solid,
            color: BLUE,
            duration_ms: 10,
            period_ms: 0,
            phase_offset_ms: 0,
            repeat: Repeat::Once,
        },
    ];
    let mut s = Sequence::new();
    assert_eq!(s.poll(0), None);
    s.set(&plan, Behavior::LoopForever, 0);
    assert_eq!(s.poll(ms(1)), Some(RED));
    assert_eq!(s.poll(ms(10)), None); // first step retires
    assert_eq!(s.poll(ms(11)), Some(BLUE));
    assert_eq!(s.poll(ms(21)), None); // second step retires
    assert_eq!(s.poll(ms(22)), Some(RED)); // looped back
    let mut once = Sequence::new();
    once.set(&plan, Behavior::OneShot, 0);
    assert_eq!(once.poll(ms(11)), None);
    assert_eq!(once.poll(ms(22)), None);
    assert_eq!(once.poll(ms(33)), None); // retired for good
}

#[test]
fn rainbow_crawler_staggers_the_ring() {
    let mut script = ring();
    rainbow_crawler(&mut script, Behavior::OneShot, Direction::CounterClockwise, ms(5));
    // Pixel 0 starts dark for 0 ms, pixel 9 for 900 ms.
    assert_eq!(script[0].steps[0].duration_ms, 0);
    assert_eq!(script[9].steps[0].duration_ms, 900);
    assert_eq!(script[9].steps[2].duration_ms, 100);
    // Pixel 2 pulses red for 2500 ms.
    assert_eq!(script[2].steps[1].color, RED);
    assert_eq!(script[2].steps[1].duration_ms, 2500);
    assert_eq!(script[2].steps.len(), 3);
    assert_eq!(script[0].start_tick, ms(5));
    // Clockwise reverses the stagger.
    let mut cw = ring();
    rainbow_crawler(&mut cw, Behavior::OneShot, Direction::Clockwise, 0);
    assert_eq!(cw[0].steps[0].duration_ms, 900);
    assert_eq!(cw[9].steps[0].duration_ms, 0);
}

#[test]
fn color_walker_fades_in_and_then_pulses_forever() {
    let mut script = ring();
    let c = Rgb { r: 80, g: 40, b: 8 };
    color_walker(&mut script, c, Behavior::LoopForever, Direction::Clockwise, 0);
    let steps = &script[0].steps;
    assert_eq!(steps.len(), 8);
    assert_eq!(steps[0].color, c.mul_then_div(1, 8));
    assert_eq!(steps[7].color, c.mul_then_div(8, 8));
    assert_eq!(steps[0].duration_ms, 250);
    assert_eq!(steps[7].duration_ms, 2000);
    assert!(matches!(steps[7].repeat, Repeat::Forever));
    // The stagger advances a quarter second per step and per pixel.
    assert_eq!(steps[0].phase_offset_ms, 250);
    assert_eq!(steps[1].phase_offset_ms, 500);
    assert_eq!(script[1].steps[0].phase_offset_ms, 500);
}

#[test]
fn boot_seq_delays_each_pixel_a_little_more() {
    let mut script = ring();
    boot_seq(&mut script, Behavior::OneShot, Direction::Clockwise, 0);
    for (i, s) in script.iter().enumerate() {
        assert_eq!(s.steps.len(), 8);
        assert_eq!(s.steps[0].duration_ms, 2500 + 50 * i as u32);
        assert_eq!(s.steps[0].period_ms, 2500 + 75 * i as u32);
        assert_eq!(s.steps[0].color, BLUE);
        assert!(matches!(s.steps[1].shape, StepShape::Seek));
        assert_eq!(s.steps[7].color, BLACK);
        assert_eq!(s.steps[7].duration_ms, 100);
    }
}

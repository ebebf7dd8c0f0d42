use wyoming::animation::{advance, neopixel_program, program_runs, pwm_program, Cursor, Program, Show, Step};
use wyoming::config::{NeopixelEffectType, PwmEffectType};

fn steps_from_start(p: Program, n: usize) -> Vec<Step> {
    let mut c = Cursor::Start;
    let mut out = Vec::new();
    for _ in 0..n {
        let (next, s) = advance(p, c);
        c = next;
        out.push(s);
    }
    out
}

#[test]
fn programs_from_effects() {
    assert_eq!(pwm_program(PwmEffectType::Off, None, None, None), Program::Static { on: false });
    assert_eq!(pwm_program(PwmEffectType::Solid, Some(100), None, None), Program::Static { on: true });
    assert_eq!(pwm_program(PwmEffectType::Breathe, None, None, None), Program::Cycle { steps: 100 });
    assert_eq!(pwm_program(PwmEffectType::Blink, None, None, None), Program::Blink { half_steps: 12 });
    assert_eq!(pwm_program(PwmEffectType::Pulse, None, None, None), Program::Pulse { count: 2, pulse_steps: 7 });
    assert_eq!(pwm_program(PwmEffectType::Pulse, None, Some(3), Some(40)), Program::Pulse { count: 3, pulse_steps: 2 });
    assert_eq!(neopixel_program(NeopixelEffectType::Rainbow, Some(1000)), Program::Cycle { steps: 50 });
    assert_eq!(neopixel_program(NeopixelEffectType::Blink, Some(200)), Program::Blink { half_steps: 5 });
    assert!(!program_runs(Program::Cycle { steps: 0 }));
    assert!(program_runs(Program::Blink { half_steps: 0 }));
}

#[test]
fn static_effects_show_then_wait() {
    assert_eq!(
        steps_from_start(Program::Static { on: true }, 3),
        vec![Step::Show(Show::On), Step::Wait, Step::Wait]
    );
    assert_eq!(steps_from_start(Program::Static { on: false }, 2), vec![Step::Show(Show::Off), Step::Wait]);
}

#[test]
fn blink_alternates() {
    assert_eq!(
        steps_from_start(Program::Blink { half_steps: 2 }, 8),
        vec![
            Step::Show(Show::On),
            Step::Tick,
            Step::Tick,
            Step::Show(Show::Off),
            Step::Tick,
            Step::Tick,
            Step::Show(Show::On),
            Step::Tick
        ]
    );
}

#[test]
fn pulses_then_wait() {
    assert_eq!(
        steps_from_start(Program::Pulse { count: 2, pulse_steps: 1 }, 9),
        vec![
            Step::Show(Show::On),
            Step::Tick,
            Step::Show(Show::Off),
            Step::Tick,
            Step::Show(Show::On),
            Step::Tick,
            Step::Show(Show::Off),
            Step::Tick,
            Step::Wait
        ]
    );
    assert_eq!(steps_from_start(Program::Pulse { count: 0, pulse_steps: 5 }, 2), vec![Step::Wait, Step::Wait]);
}

#[test]
fn animation_cycles_frames() {
    assert_eq!(
        steps_from_start(Program::Cycle { steps: 2 }, 6),
        vec![
            Step::Show(Show::Frame { step: 0, steps: 2 }),
            Step::Tick,
            Step::Show(Show::Frame { step: 1, steps: 2 }),
            Step::Tick,
            Step::Show(Show::Frame { step: 0, steps: 2 }),
            Step::Tick
        ]
    );
}

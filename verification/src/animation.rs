//! The timing of feedback effects: what an LED or buzzer effect shows, when it waits one
//! animation step, and when it waits for the next state.
//!
//! A provider runs the loop: it shows what it is told (computing any brightness or color
//! itself), sleeps one step of `STEP_MS` and polls for a new state on `Tick`, blocks for the
//! next state on `Wait`, and leaves the effect as soon as a new state arrives.
use vstd::prelude::*;

use crate::config::{NeopixelEffectType, PwmEffectType};
use crate::neopixel::STEP_MS;

verus! {

/// What to show.
#[derive(Debug, Clone, Copy, PartialEq, Eq, Structural)]
pub enum Show {
    /// Output off.
    Off,
    /// The effect's full output.
    On,
    /// Frame `step` of an animation of `steps` frames.
    Frame { step: u64, steps: u64 },
}

/// The shape of an effect over time.
#[derive(Debug, Clone, Copy, PartialEq, Eq, Structural)]
pub enum Program {
    /// Show once, on or off, then wait for the next state.
    Static { on: bool },
    /// Show the frames of an animation in a loop, one per step.
    Cycle { steps: u64 },
    /// Alternate on and off, each for `half_steps` steps.
    Blink { half_steps: u64 },
    /// `count` pulses, each on then off for `pulse_steps` steps, then off until the next
    /// state.
    Pulse { count: u32, pulse_steps: u64 },
}

/// Where an effect is.
#[derive(Debug, Clone, Copy, PartialEq, Eq, Structural)]
pub enum Cursor {
    /// Not started.
    Start,
    /// About to show frame `step`.
    CycleShow { step: u64 },
    /// Frame `step` shown; a step to wait.
    CycleTick { step: u64 },
    /// On, with `left` steps of the on phase to wait.
    BlinkOn { left: u64 },
    /// Off, with `left` steps of the off phase to wait.
    BlinkOff { left: u64 },
    /// Pulse `pulse` on, with `left` steps to wait.
    PulseOn { pulse: u32, left: u64 },
    /// Pulse `pulse` off, with `left` steps to wait.
    PulseOff { pulse: u32, left: u64 },
    /// Waiting for the next state.
    Waiting,
}

/// What the provider does next.
#[derive(Debug, Clone, Copy, PartialEq, Eq, Structural)]
pub enum Step {
    Show(Show),
    /// Sleep one animation step, then poll for a new state.
    Tick,
    /// Block until the next state.
    Wait,
}

/// Whether a cursor fits a program: animation frames within the animation, pulses within
/// the count.
pub open spec fn cursor_ok(p: Program, c: Cursor) -> bool {
    match c {
        Cursor::CycleShow { step } | Cursor::CycleTick { step } => p matches Program::Cycle { steps } && step < steps,
        Cursor::BlinkOn { .. } | Cursor::BlinkOff { .. } => p is Blink,
        Cursor::PulseOn { pulse, .. } | Cursor::PulseOff { pulse, .. } => p matches Program::Pulse { count, .. } && pulse
            < count,
        _ => true,
    }
}

/// Whether a program can run: an animation has at least one frame.
pub open spec fn program_ok(p: Program) -> bool {
    p matches Program::Cycle { steps } ==> steps > 0
}

/// The step after cursor `c` and where the effect is then.
pub open spec fn advance_spec(p: Program, c: Cursor) -> (Cursor, Step) {
    match (p, c) {
        (Program::Static { on }, Cursor::Start) => (
            Cursor::Waiting,
            Step::Show(
                if on {
                    Show::On
                } else {
                    Show::Off
                },
            ),
        ),
        (Program::Cycle { steps }, Cursor::Start) => (
            Cursor::CycleTick { step: 0 },
            Step::Show(Show::Frame { step: 0, steps }),
        ),
        (Program::Cycle { steps }, Cursor::CycleShow { step }) => (
            Cursor::CycleTick { step },
            Step::Show(Show::Frame { step, steps }),
        ),
        (Program::Cycle { steps }, Cursor::CycleTick { step }) => (
            Cursor::CycleShow { step: ((step + 1) % (steps as int)) as u64 },
            Step::Tick,
        ),
        (Program::Blink { half_steps }, Cursor::Start) => (Cursor::BlinkOn { left: half_steps }, Step::Show(Show::On)),
        (Program::Blink { half_steps }, Cursor::BlinkOn { left }) => if left > 0 {
            (Cursor::BlinkOn { left: (left - 1) as u64 }, Step::Tick)
        } else {
            (Cursor::BlinkOff { left: half_steps }, Step::Show(Show::Off))
        },
        (Program::Blink { half_steps }, Cursor::BlinkOff { left }) => if left > 0 {
            (Cursor::BlinkOff { left: (left - 1) as u64 }, Step::Tick)
        } else {
            (Cursor::BlinkOn { left: half_steps }, Step::Show(Show::On))
        },
        (Program::Pulse { count, pulse_steps }, Cursor::Start) => if count == 0 {
            (Cursor::Waiting, Step::Wait)
        } else {
            (Cursor::PulseOn { pulse: 0, left: pulse_steps }, Step::Show(Show::On))
        },
        (Program::Pulse { count, pulse_steps }, Cursor::PulseOn { pulse, left }) => if left > 0 {
            (Cursor::PulseOn { pulse, left: (left - 1) as u64 }, Step::Tick)
        } else {
            (Cursor::PulseOff { pulse, left: pulse_steps }, Step::Show(Show::Off))
        },
        (Program::Pulse { count, pulse_steps }, Cursor::PulseOff { pulse, left }) => if left > 0 {
            (Cursor::PulseOff { pulse, left: (left - 1) as u64 }, Step::Tick)
        } else if pulse + 1 < count {
            (Cursor::PulseOn { pulse: (pulse + 1) as u32, left: pulse_steps }, Step::Show(Show::On))
        } else {
            (Cursor::Waiting, Step::Wait)
        },
        _ => (Cursor::Waiting, Step::Wait),
    }
}

/// The next step of an effect, and where it is then.
pub fn advance(p: Program, c: Cursor) -> (r: (Cursor, Step))
    requires
        program_ok(p),
        cursor_ok(p, c),
    ensures
        r == advance_spec(p, c),
        cursor_ok(p, r.0),
{
    match (p, c) {
        (Program::Static { on }, Cursor::Start) => (
            Cursor::Waiting,
            Step::Show(
                if on {
                    Show::On
                } else {
                    Show::Off
                },
            ),
        ),
        (Program::Cycle { steps }, Cursor::Start) => (
            Cursor::CycleTick { step: 0 },
            Step::Show(Show::Frame { step: 0, steps }),
        ),
        (Program::Cycle { steps }, Cursor::CycleShow { step }) => (
            Cursor::CycleTick { step },
            Step::Show(Show::Frame { step, steps }),
        ),
        (Program::Cycle { steps }, Cursor::CycleTick { step }) => (
            Cursor::CycleShow { step: (step + 1) % steps },
            Step::Tick,
        ),
        (Program::Blink { half_steps }, Cursor::Start) => (Cursor::BlinkOn { left: half_steps }, Step::Show(Show::On)),
        (Program::Blink { half_steps }, Cursor::BlinkOn { left }) => if left > 0 {
            (Cursor::BlinkOn { left: left - 1 }, Step::Tick)
        } else {
            (Cursor::BlinkOff { left: half_steps }, Step::Show(Show::Off))
        },
        (Program::Blink { half_steps }, Cursor::BlinkOff { left }) => if left > 0 {
            (Cursor::BlinkOff { left: left - 1 }, Step::Tick)
        } else {
            (Cursor::BlinkOn { left: half_steps }, Step::Show(Show::On))
        },
        (Program::Pulse { count, pulse_steps }, Cursor::Start) => if count == 0 {
            (Cursor::Waiting, Step::Wait)
        } else {
            (Cursor::PulseOn { pulse: 0, left: pulse_steps }, Step::Show(Show::On))
        },
        (Program::Pulse { count, pulse_steps }, Cursor::PulseOn { pulse, left }) => if left > 0 {
            (Cursor::PulseOn { pulse, left: left - 1 }, Step::Tick)
        } else {
            (Cursor::PulseOff { pulse, left: pulse_steps }, Step::Show(Show::Off))
        },
        (Program::Pulse { count, pulse_steps }, Cursor::PulseOff { pulse, left }) => if left > 0 {
            (Cursor::PulseOff { pulse, left: left - 1 }, Step::Tick)
        } else if pulse + 1 < count {
            (Cursor::PulseOn { pulse: pulse + 1, left: pulse_steps }, Step::Show(Show::On))
        } else {
            (Cursor::Waiting, Step::Wait)
        },
        _ => (Cursor::Waiting, Step::Wait),
    }
}

/// Animation steps in a period of `period_ms`.
pub open spec fn steps_of(period_ms: u64) -> u64 {
    period_ms / STEP_MS
}

/// The program of a PWM effect: off and solid are static; breathe animates over its
/// period (2 s unless given); blink alternates over its period (500 ms unless given);
/// pulse gives its count of pulses (2 unless given) of its pulse length (150 ms unless
/// given).
pub open spec fn pwm_program_spec(kind: PwmEffectType, period_ms: Option<u64>, count: Option<u32>, pulse_ms: Option<u64>) -> Program {
    match kind {
        PwmEffectType::Off => Program::Static { on: false },
        PwmEffectType::Solid => Program::Static { on: true },
        PwmEffectType::Breathe => Program::Cycle { steps: steps_of(period_ms.unwrap_or(2000)) },
        PwmEffectType::Blink => Program::Blink { half_steps: steps_of(period_ms.unwrap_or(500) / 2) },
        PwmEffectType::Pulse => Program::Pulse {
            count: count.unwrap_or(2),
            pulse_steps: steps_of(pulse_ms.unwrap_or(150)),
        },
    }
}

/// The program of a PWM effect.
pub fn pwm_program(kind: PwmEffectType, period_ms: Option<u64>, count: Option<u32>, pulse_ms: Option<u64>) -> (r: Program)
    ensures
        r == pwm_program_spec(kind, period_ms, count, pulse_ms),
{
    match kind {
        PwmEffectType::Off => Program::Static { on: false },
        PwmEffectType::Solid => Program::Static { on: true },
        PwmEffectType::Breathe => Program::Cycle { steps: period_ms.unwrap_or(2000) / STEP_MS },
        PwmEffectType::Blink => Program::Blink { half_steps: (period_ms.unwrap_or(500) / 2) / STEP_MS },
        PwmEffectType::Pulse => Program::Pulse {
            count: count.unwrap_or(2),
            pulse_steps: pulse_ms.unwrap_or(150) / STEP_MS,
        },
    }
}

/// The program of a NeoPixel effect: off and solid are static; breathe and rainbow animate
/// over their period (2 s unless given); blink alternates over its period (500 ms unless
/// given).
pub open spec fn neopixel_program_spec(kind: NeopixelEffectType, period_ms: Option<u64>) -> Program {
    match kind {
        NeopixelEffectType::Off => Program::Static { on: false },
        NeopixelEffectType::Solid => Program::Static { on: true },
        NeopixelEffectType::Breathe | NeopixelEffectType::Rainbow => Program::Cycle {
            steps: steps_of(period_ms.unwrap_or(2000)),
        },
        NeopixelEffectType::Blink => Program::Blink { half_steps: steps_of(period_ms.unwrap_or(500) / 2) },
    }
}

/// The program of a NeoPixel effect.
pub fn neopixel_program(kind: NeopixelEffectType, period_ms: Option<u64>) -> (r: Program)
    ensures
        r == neopixel_program_spec(kind, period_ms),
{
    match kind {
        NeopixelEffectType::Off => Program::Static { on: false },
        NeopixelEffectType::Solid => Program::Static { on: true },
        NeopixelEffectType::Breathe | NeopixelEffectType::Rainbow => Program::Cycle {
            steps: period_ms.unwrap_or(2000) / STEP_MS,
        },
        NeopixelEffectType::Blink => Program::Blink { half_steps: (period_ms.unwrap_or(500) / 2) / STEP_MS },
    }
}

/// Whether an effect can run: an animation needs a period of at least one step.
pub fn program_runs(p: Program) -> (r: bool)
    ensures
        r == program_ok(p),
{
    match p {
        Program::Cycle { steps } => steps > 0,
        _ => true,
    }
}

/// Where `n` steps lead from cursor `c`, and the steps taken, in order.
pub open spec fn run(p: Program, c: Cursor, n: nat) -> (Cursor, Seq<Step>)
    decreases n,
{
    if n == 0 {
        (c, Seq::empty())
    } else {
        let (c1, s1) = advance_spec(p, c);
        let (c2, rest) = run(p, c1, (n - 1) as nat);
        (c2, seq![s1] + rest)
    }
}

/// A static effect that is off, once started or waiting, only ever shows its output off:
/// its first step shows off, and no later step shows anything else.
pub proof fn lemma_static_off_run(c: Cursor, n: nat)
    requires
        c == Cursor::Start || c == Cursor::Waiting,
    ensures
        forall|i: int| 0 <= i < run(Program::Static { on: false }, c, n).1.len() ==> (#[trigger] run(
            Program::Static { on: false },
            c,
            n,
        ).1[i] is Show ==> run(Program::Static { on: false }, c, n).1[i] == Step::Show(Show::Off)),
        run(Program::Static { on: false }, c, n).1.len() == n,
        c == Cursor::Start && n > 0 ==> run(Program::Static { on: false }, c, n).1[0] == Step::Show(Show::Off),
    decreases n,
{
    if n > 0 {
        let p = Program::Static { on: false };
        let (c1, s1) = advance_spec(p, c);
        lemma_static_off_run(c1, (n - 1) as nat);
        let rest = run(p, c1, (n - 1) as nat).1;
        assert(run(p, c, n).1 == seq![s1] + rest);
        assert forall|i: int| 0 <= i < run(p, c, n).1.len() && #[trigger] run(p, c, n).1[i] is Show implies run(
            p,
            c,
            n,
        ).1[i] == Step::Show(Show::Off) by {
            if i > 0 {
                assert(run(p, c, n).1[i] == rest[i - 1]);
            }
        }
    }
}

/// The off effect, on NeoPixels or on a PWM output, never lights: started, its first step
/// shows the output off and no step shows anything else.
pub proof fn lemma_off_effects_stay_dark(period_ms: Option<u64>, count: Option<u32>, pulse_ms: Option<u64>, n: nat)
    ensures
        neopixel_program_spec(NeopixelEffectType::Off, period_ms) == (Program::Static { on: false }),
        pwm_program_spec(PwmEffectType::Off, period_ms, count, pulse_ms) == (Program::Static { on: false }),
        n > 0 ==> run(neopixel_program_spec(NeopixelEffectType::Off, period_ms), Cursor::Start, n).1[0]
            == Step::Show(Show::Off),
        forall|i: int| 0 <= i < n ==> (#[trigger] run(neopixel_program_spec(NeopixelEffectType::Off, period_ms), Cursor::Start, n).1[i]
            is Show ==> run(neopixel_program_spec(NeopixelEffectType::Off, period_ms), Cursor::Start, n).1[i]
            == Step::Show(Show::Off)),
        forall|i: int| 0 <= i < n ==> (#[trigger] run(pwm_program_spec(PwmEffectType::Off, period_ms, count, pulse_ms), Cursor::Start, n).1[i]
            is Show ==> run(pwm_program_spec(PwmEffectType::Off, period_ms, count, pulse_ms), Cursor::Start, n).1[i]
            == Step::Show(Show::Off)),
{
    lemma_static_off_run(Cursor::Start, n);
}

/// `n` ticks.
pub open spec fn ticks(n: nat) -> Seq<Step> {
    Seq::new(n, |i: int| Step::Tick)
}

proof fn lemma_run_split(p: Program, c: Cursor, a: nat, b: nat)
    ensures
        run(p, c, a + b) == (run(p, run(p, c, a).0, b).0, run(p, c, a).1 + run(p, run(p, c, a).0, b).1),
    decreases a,
{
    if a > 0 {
        let (c1, s1) = advance_spec(p, c);
        lemma_run_split(p, c1, (a - 1) as nat, b);
        assert(run(p, c, a + b) == (run(p, c1, (a - 1 + b) as nat).0, seq![s1] + run(p, c1, (a - 1 + b) as nat).1));
        assert(seq![s1] + (run(p, c1, (a - 1) as nat).1 + run(p, run(p, c1, (a - 1) as nat).0, b).1) =~= (seq![s1]
            + run(p, c1, (a - 1) as nat).1) + run(p, run(p, c1, (a - 1) as nat).0, b).1);
    } else {
        assert(run(p, c, 0).1 + run(p, c, b).1 =~= run(p, c, b).1);
    }
}

proof fn lemma_blink_on_ticks(h: u64, m: u64)
    requires
        m <= h,
    ensures
        run(Program::Blink { half_steps: h }, Cursor::BlinkOn { left: m }, m as nat) == (Cursor::BlinkOn { left: 0 }, ticks(
            m as nat,
        )),
        run(Program::Blink { half_steps: h }, Cursor::BlinkOff { left: m }, m as nat) == (Cursor::BlinkOff { left: 0 }, ticks(
            m as nat,
        )),
    decreases m,
{
    if m > 0 {
        lemma_blink_on_ticks(h, (m - 1) as u64);
        assert(seq![Step::Tick] + ticks((m - 1) as nat) =~= ticks(m as nat));
    } else {
        assert(ticks(0) =~= Seq::<Step>::empty());
    }
}

/// A blink repeats forever: from the start of an on phase, `half_steps` ticks, off, then
/// `half_steps` ticks and on again, back where it began.
pub proof fn lemma_blink_period(h: u64)
    ensures
        run(Program::Blink { half_steps: h }, Cursor::BlinkOn { left: h }, 2 * h as nat + 2) == (
            Cursor::BlinkOn { left: h },
            ticks(h as nat) + seq![Step::Show(Show::Off)] + ticks(h as nat) + seq![Step::Show(Show::On)],
        ),
{
    let p = Program::Blink { half_steps: h };
    lemma_blink_on_ticks(h, h);
    lemma_run_split(p, Cursor::BlinkOn { left: h }, h as nat, (h + 2) as nat);
    let c1 = Cursor::BlinkOn { left: 0 };
    lemma_run_split(p, c1, 1, (h + 1) as nat);
    let c2 = Cursor::BlinkOff { left: h };
    assert(run(p, c1, 1) == (c2, seq![Step::Show(Show::Off)])) by {
        reveal_with_fuel(run, 2);
        assert(seq![Step::Show(Show::Off)] + Seq::<Step>::empty() =~= seq![Step::Show(Show::Off)]);
    }
    lemma_run_split(p, c2, h as nat, 1);
    let c3 = Cursor::BlinkOff { left: 0 };
    assert(run(p, c3, 1) == (Cursor::BlinkOn { left: h }, seq![Step::Show(Show::On)])) by {
        reveal_with_fuel(run, 2);
        assert(seq![Step::Show(Show::On)] + Seq::<Step>::empty() =~= seq![Step::Show(Show::On)]);
    }
    assert(2 * h as nat + 2 == h as nat + (h as nat + 2));
    assert(ticks(h as nat) + (seq![Step::Show(Show::Off)] + (ticks(h as nat) + seq![Step::Show(Show::On)])) =~= ticks(
        h as nat,
    ) + seq![Step::Show(Show::Off)] + ticks(h as nat) + seq![Step::Show(Show::On)]);
}

proof fn lemma_pulse_ticks(count: u32, n: u64, pulse: u32, m: u64)
    requires
        m <= n,
    ensures
        run(Program::Pulse { count, pulse_steps: n }, Cursor::PulseOn { pulse, left: m }, m as nat) == (
            Cursor::PulseOn { pulse, left: 0 },
            ticks(m as nat),
        ),
        run(Program::Pulse { count, pulse_steps: n }, Cursor::PulseOff { pulse, left: m }, m as nat) == (
            Cursor::PulseOff { pulse, left: 0 },
            ticks(m as nat),
        ),
    decreases m,
{
    if m > 0 {
        lemma_pulse_ticks(count, n, pulse, (m - 1) as u64);
        assert(seq![Step::Tick] + ticks((m - 1) as nat) =~= ticks(m as nat));
    } else {
        assert(ticks(0) =~= Seq::<Step>::empty());
    }
}

/// One pulse: from its start it stays on for `pulse_steps` ticks, shows off, stays off for
/// `pulse_steps` ticks, then either starts the next pulse or, after the last, waits for the
/// next state.
pub proof fn lemma_pulse_period(count: u32, n: u64, pulse: u32)
    requires
        pulse < count,
    ensures
        run(Program::Pulse { count, pulse_steps: n }, Cursor::PulseOn { pulse, left: n }, 2 * n as nat + 2) == (
            if pulse + 1 < count {
                Cursor::PulseOn { pulse: (pulse + 1) as u32, left: n }
            } else {
                Cursor::Waiting
            },
            ticks(n as nat) + seq![Step::Show(Show::Off)] + ticks(n as nat) + seq![
                if pulse + 1 < count {
                    Step::Show(Show::On)
                } else {
                    Step::Wait
                },
            ],
        ),
{
    let p = Program::Pulse { count, pulse_steps: n };
    lemma_pulse_ticks(count, n, pulse, n);
    lemma_run_split(p, Cursor::PulseOn { pulse, left: n }, n as nat, (n + 2) as nat);
    let c1 = Cursor::PulseOn { pulse, left: 0 };
    lemma_run_split(p, c1, 1, (n + 1) as nat);
    let c2 = Cursor::PulseOff { pulse, left: n };
    assert(run(p, c1, 1) == (c2, seq![Step::Show(Show::Off)])) by {
        reveal_with_fuel(run, 2);
        assert(seq![Step::Show(Show::Off)] + Seq::<Step>::empty() =~= seq![Step::Show(Show::Off)]);
    }
    lemma_run_split(p, c2, n as nat, 1);
    let c3 = Cursor::PulseOff { pulse, left: 0 };
    assert(2 * n as nat + 2 == n as nat + (n as nat + 2));
    let last = if pulse + 1 < count {
        Step::Show(Show::On)
    } else {
        Step::Wait
    };
    let next = if pulse + 1 < count {
        Cursor::PulseOn { pulse: (pulse + 1) as u32, left: n }
    } else {
        Cursor::Waiting
    };
    assert(run(p, c3, 1) == (next, seq![last])) by {
        reveal_with_fuel(run, 2);
        assert(seq![last] + Seq::<Step>::empty() =~= seq![last]);
    }
    assert(ticks(n as nat) + (seq![Step::Show(Show::Off)] + (ticks(n as nat) + seq![last])) =~= ticks(n as nat) + seq![
        Step::Show(Show::Off),
    ] + ticks(n as nat) + seq![last]);
}

} // verus!

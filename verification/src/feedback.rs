//! User feedback: the provider interface, a recording provider, and the decisions of the
//! logging and console providers.
use vstd::prelude::*;

use crate::config::{effect_for, ConsoleEffect, StateEffects};
use crate::json::str_eq;
use crate::state::FeedbackState;

verus! {

/// Abstraction for satellite user feedback.
///
/// Implementations receive semantic state updates from the state machine and translate them
/// to hardware-specific output (LEDs, buzzers, ...). `update()` must return immediately;
/// providers that need sustained output manage their own timing.
pub trait Feedback {
    fn update(&mut self, state: FeedbackState);

    fn shutdown(&mut self);
}

/// Captures feedback state changes, in order.
pub struct RecordingFeedback {
    pub states: Vec<FeedbackState>,
}

impl RecordingFeedback {
    /// A recorder with nothing recorded.
    pub fn new() -> (r: RecordingFeedback)
        ensures
            r.states@ == Seq::<FeedbackState>::empty(),
    {
        RecordingFeedback { states: Vec::new() }
    }
}

impl Feedback for RecordingFeedback {
    /// Record the state.
    fn update(&mut self, state: FeedbackState)
        ensures
            final(self).states@ == old(self).states@.push(state),
    {
        self.states.push(state);
    }

    /// Nothing to release.
    fn shutdown(&mut self)
        ensures
            final(self).states@ == old(self).states@,
    {
    }
}

/// The logging provider's reaction to a state: report and adopt it when it differs from the
/// current one, ignore it otherwise. Gives the new current state and whether to report.
pub fn logging_step(current: FeedbackState, state: FeedbackState) -> (r: (FeedbackState, bool))
    ensures
        r == (state, state != current),
{
    (state, state != current)
}

/// Whether the console provider writes to standard error rather than standard output.
pub fn console_uses_stderr(output: &str) -> (r: bool)
    ensures
        r == (output@ == "stderr"@),
{
    str_eq(output, "stderr")
}

/// The console provider's reaction to a state: a repeat of the last state prints nothing;
/// a new state becomes the last one and prints its template, if one is configured.
pub fn console_step<'a>(
    last: Option<FeedbackState>,
    state: FeedbackState,
    states: &'a StateEffects<ConsoleEffect>,
) -> (r: (Option<FeedbackState>, Option<&'a String>))
    ensures
        last == Some(state) ==> r == (last, None::<&String>),
        last != Some(state) ==> r.0 == Some(state) && match effect_for(*states, state) {
            Some(e) => r.1 == Some(&e.template),
            None => r.1 is None,
        },
{
    if last == Some(state) {
        return (last, None);
    }
    match states.get(state) {
        Some(effect) => (Some(state), Some(&effect.template)),
        None => (Some(state), None),
    }
}

} // verus!

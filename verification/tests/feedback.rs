use wyoming::config::{ConsoleEffect, StateEffects};
use wyoming::feedback::{console_step, console_uses_stderr, logging_step, Feedback, RecordingFeedback};
use wyoming::state::FeedbackState;

#[test]
fn recording_feedback_captures_states() {
    let mut fb = RecordingFeedback::new();
    fb.update(FeedbackState::Idle);
    fb.update(FeedbackState::Listening);
    fb.update(FeedbackState::Detected);

    assert_eq!(fb.states.len(), 3);
    assert_eq!(fb.states[0], FeedbackState::Idle);
    assert_eq!(fb.states[1], FeedbackState::Listening);
    assert_eq!(fb.states[2], FeedbackState::Detected);
}

#[test]
fn logging_reports_only_changes() {
    assert_eq!(logging_step(FeedbackState::Idle, FeedbackState::Idle), (FeedbackState::Idle, false));
    assert_eq!(logging_step(FeedbackState::Idle, FeedbackState::Error), (FeedbackState::Error, true));
}

#[test]
fn console_deduplicates_consecutive_states() {
    let states = StateEffects {
        idle: Some(ConsoleEffect { template: "IDLE".into() }),
        listening: None,
        detected: Some(ConsoleEffect { template: "DETECTED".into() }),
        processing: None,
        speaking: None,
        error: None,
    };
    let (last, line) = console_step(None, FeedbackState::Idle, &states);
    assert_eq!(last, Some(FeedbackState::Idle));
    assert_eq!(line.map(|s| s.as_str()), Some("IDLE"));
    let (last, line) = console_step(last, FeedbackState::Idle, &states);
    assert_eq!(last, Some(FeedbackState::Idle));
    assert!(line.is_none());
    let (last, line) = console_step(last, FeedbackState::Listening, &states);
    assert_eq!(last, Some(FeedbackState::Listening));
    assert!(line.is_none());
    let (_, line) = console_step(last, FeedbackState::Detected, &states);
    assert_eq!(line.map(|s| s.as_str()), Some("DETECTED"));
    assert!(console_uses_stderr("stderr"));
    assert!(!console_uses_stderr("stdout"));
}

//! Connection decisions: which server events drive the state machine, how the first event
//! of a connection is answered, and how long to wait between connection attempts.
use vstd::prelude::*;

use crate::event::{str_is, Event};
use crate::state::SatelliteInput;

verus! {

/// The state machine input for a server event type, if it drives the state machine.
pub open spec fn server_input(event_type: Seq<char>) -> Option<SatelliteInput> {
    if event_type == "run-satellite"@ {
        Some(SatelliteInput::ServerRunSatellite)
    } else if event_type == "pause-satellite"@ {
        Some(SatelliteInput::ServerPauseSatellite)
    } else if event_type == "detection"@ {
        Some(SatelliteInput::ServerDetection)
    } else if event_type == "voice-started"@ {
        Some(SatelliteInput::ServerVoiceStarted)
    } else if event_type == "audio-start"@ {
        Some(SatelliteInput::ServerTtsStart)
    } else if event_type == "audio-stop"@ {
        Some(SatelliteInput::ServerTtsStop)
    } else if event_type == "voice-stopped"@ {
        Some(SatelliteInput::ServerVoiceStopped)
    } else {
        None
    }
}

/// Map a raw server event to a state machine input. Events the state machine does not care
/// about (audio chunks during a response are routed directly) give `None`.
pub fn map_server_event(event: &Event) -> (r: Option<SatelliteInput>)
    ensures
        r == server_input(event.event_type@),
{
    let t = &event.event_type;
    if str_is(t, "run-satellite") {
        Some(SatelliteInput::ServerRunSatellite)
    } else if str_is(t, "pause-satellite") {
        Some(SatelliteInput::ServerPauseSatellite)
    } else if str_is(t, "detection") {
        Some(SatelliteInput::ServerDetection)
    } else if str_is(t, "voice-started") {
        Some(SatelliteInput::ServerVoiceStarted)
    } else if str_is(t, "audio-start") {
        Some(SatelliteInput::ServerTtsStart)
    } else if str_is(t, "audio-stop") {
        Some(SatelliteInput::ServerTtsStop)
    } else if str_is(t, "voice-stopped") {
        Some(SatelliteInput::ServerVoiceStopped)
    } else {
        None
    }
}

/// Server events never map to a hardware input or to a disconnection.
pub proof fn lemma_server_input_is_server_message(t: Seq<char>)
    ensures
        server_input(t) != Some(SatelliteInput::GpioHigh),
        server_input(t) != Some(SatelliteInput::SilenceTimeout),
        server_input(t) != Some(SatelliteInput::PlaybackComplete),
        server_input(t) != Some(SatelliteInput::Disconnected),
{
}

/// Result of the initial handshake when a connection is established.
///
/// Home Assistant uses two connection patterns: discovery sends `describe`, expects `info`
/// and then reconnects; operational use sends `run-satellite` directly.
#[derive(Debug, Clone, Copy, PartialEq, Eq, Structural)]
pub enum HandshakeResult {
    /// The first event was `describe` and was answered with `info`; wait for
    /// `run-satellite` next.
    NeedRunSatellite,
    /// The first event was `run-satellite`; enter the main loop at once.
    ReadyToRun,
}

/// What to do with the first event of a connection.
#[derive(Debug, Clone, Copy, PartialEq, Eq, Structural)]
pub enum HandshakeStep {
    /// Enter the main loop at once.
    Ready,
    /// Reply with `info`, then wait for `run-satellite`.
    ReplyInfo,
    /// Any other event: the handshake fails.
    Unexpected,
}

/// The handshake step for the type of a connection's first event.
pub open spec fn handshake_spec(event_type: Seq<char>) -> HandshakeStep {
    if event_type == "run-satellite"@ {
        HandshakeStep::Ready
    } else if event_type == "describe"@ {
        HandshakeStep::ReplyInfo
    } else {
        HandshakeStep::Unexpected
    }
}

/// Decide how to answer the first event of a connection.
pub fn handshake_step(event: &Event) -> (r: HandshakeStep)
    ensures
        r == handshake_spec(event.event_type@),
{
    if str_is(&event.event_type, "run-satellite") {
        HandshakeStep::Ready
    } else if str_is(&event.event_type, "describe") {
        HandshakeStep::ReplyInfo
    } else {
        HandshakeStep::Unexpected
    }
}

/// The handshake result once the first event has been handled.
pub fn handshake_result(step: HandshakeStep) -> (r: Option<HandshakeResult>)
    ensures
        r == match step {
            HandshakeStep::Ready => Some(HandshakeResult::ReadyToRun),
            HandshakeStep::ReplyInfo => Some(HandshakeResult::NeedRunSatellite),
            HandshakeStep::Unexpected => None::<HandshakeResult>,
        },
{
    match step {
        HandshakeStep::Ready => Some(HandshakeResult::ReadyToRun),
        HandshakeStep::ReplyInfo => Some(HandshakeResult::NeedRunSatellite),
        HandshakeStep::Unexpected => None,
    }
}

/// Whether an event is the `run-satellite` that ends the wait after a handshake.
pub fn is_run_satellite(event: &Event) -> (r: bool)
    ensures
        r == (event.event_type@ == "run-satellite"@),
{
    str_is(&event.event_type, "run-satellite")
}

/// Longest wait between connection attempts, in seconds.
pub const MAX_RETRY_DELAY_SECS: u64 = 30;

/// The wait after a failed attempt: double the previous wait, at most 30 seconds
/// (1 s, 2 s, 4 s, 8 s, 16 s, 30 s, 30 s, ...).
pub fn next_retry_delay(delay_secs: u64) -> (r: u64)
    ensures
        r == if 2 * delay_secs < MAX_RETRY_DELAY_SECS {
            2 * delay_secs
        } else {
            MAX_RETRY_DELAY_SECS as int
        },
{
    if delay_secs < MAX_RETRY_DELAY_SECS / 2 {
        2 * delay_secs
    } else {
        MAX_RETRY_DELAY_SECS
    }
}

/// Whether to stop retrying after `attempt` failed attempts: only when a limit is given
/// and reached.
pub fn should_give_up(attempt: u32, max_attempts: Option<u32>) -> (r: bool)
    ensures
        r == match max_attempts {
            Some(max) => attempt >= max,
            None => false,
        },
{
    match max_attempts {
        Some(max) => attempt >= max,
        None => false,
    }
}

/// The wait before attempt `n + 1` (counting from the first retry) starting from one
/// second.
pub open spec fn retry_delay(n: nat) -> int
    decreases n,
{
    if n == 0 {
        1
    } else {
        let d = retry_delay((n - 1) as nat);
        if 2 * d < MAX_RETRY_DELAY_SECS {
            2 * d
        } else {
            MAX_RETRY_DELAY_SECS as int
        }
    }
}

/// The backoff never waits more than 30 seconds, never less than one, and never shortens.
pub proof fn lemma_retry_delay_bounded(n: nat)
    ensures
        1 <= retry_delay(n) <= MAX_RETRY_DELAY_SECS,
        retry_delay(n) <= retry_delay(n + 1),
    decreases n,
{
    if n > 0 {
        lemma_retry_delay_bounded((n - 1) as nat);
    }
}

} // verus!

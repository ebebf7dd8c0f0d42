use vstd::prelude::*;

verus! {

/// Operating mode of the satellite.
#[derive(Debug, Clone, Copy, PartialEq, Eq, Structural)]
pub enum SatelliteState {
    /// No sound detected. No audio capture, no streaming.
    Idle,
    /// Voice activity detected. Capturing mic audio, streaming to server.
    Streaming,
    /// Wake word detected by server. Still streaming.
    Triggered,
    /// Server processing: STT -> intent -> TTS.
    Processing,
    /// Playing TTS audio through speaker. Mic muted.
    Responding,
}

/// Events that drive state transitions: hardware, server messages, connection.
#[derive(Debug, Clone, Copy, PartialEq, Eq, Structural)]
pub enum SatelliteInput {
    // Hardware
    GpioHigh,
    SilenceTimeout,
    PlaybackComplete,
    // Server messages
    ServerRunSatellite,
    ServerPauseSatellite,
    ServerDetection,
    ServerVoiceStarted,
    ServerTtsStart,
    ServerTtsStop,
    ServerVoiceStopped,
    // Connection
    Disconnected,
}

/// LED indication requested by the state machine.
#[derive(Debug, Clone, Copy, PartialEq, Eq, Structural)]
pub enum LedState {
    Off,
    DimWhite,
    Cyan,
    BluePulse,
    Green,
    RedBlink,
}

/// Side effects the main loop must execute after a state transition.
#[derive(Debug, Clone, Copy, PartialEq, Eq, Structural)]
pub enum Action {
    StartCapture,
    StopCapture,
    SendAudioStart,
    SendAudioStop,
    SendStreamingStarted,
    SendStreamingStopped,
    StartPlayback,
    StopPlayback,
    SendPlayed,
    SetLed(LedState),
    Reconnect,
}

/// Semantic feedback state. Describes *what happened*, not how to present it.
/// Feedback providers map these to hardware-specific output (colors, tones, etc).
#[derive(Debug, Clone, Copy, PartialEq, Eq, Structural)]
pub enum FeedbackState {
    /// Satellite ready, waiting for input.
    Idle,
    /// Mic active, streaming audio to server.
    Listening,
    /// Wake word recognized by server.
    Detected,
    /// Server processing (STT -> intent -> TTS).
    Processing,
    /// TTS playback in progress.
    Speaking,
    /// Disconnected or error condition.
    Error,
}

/// The transition table: (current state, input) -> (next state, actions).
pub open spec fn transition_spec(state: SatelliteState, input: SatelliteInput) -> (SatelliteState, Seq<Action>) {
    if input == SatelliteInput::Disconnected {
        if state == SatelliteState::Idle {
            (SatelliteState::Idle, seq![Action::SetLed(LedState::RedBlink), Action::Reconnect])
        } else {
            (
                SatelliteState::Idle,
                seq![
                    Action::StopCapture,
                    Action::StopPlayback,
                    Action::SetLed(LedState::RedBlink),
                    Action::Reconnect,
                ],
            )
        }
    } else {
        match (state, input) {
            (SatelliteState::Idle, SatelliteInput::GpioHigh) => (
                SatelliteState::Streaming,
                seq![Action::StartCapture, Action::SendAudioStart, Action::SendStreamingStarted],
            ),
            (SatelliteState::Streaming, SatelliteInput::SilenceTimeout) => (
                SatelliteState::Idle,
                seq![
                    Action::StopCapture,
                    Action::SendAudioStop,
                    Action::SendStreamingStopped,
                    Action::SetLed(LedState::Off),
                ],
            ),
            (SatelliteState::Streaming, SatelliteInput::ServerDetection) => (
                SatelliteState::Triggered,
                seq![Action::SetLed(LedState::Cyan)],
            ),
            (SatelliteState::Streaming, SatelliteInput::ServerVoiceStarted) => (
                SatelliteState::Processing,
                seq![Action::SetLed(LedState::BluePulse)],
            ),
            (SatelliteState::Streaming, SatelliteInput::ServerPauseSatellite) => (
                SatelliteState::Idle,
                seq![Action::StopCapture, Action::SendAudioStop, Action::SendStreamingStopped],
            ),
            (SatelliteState::Triggered, SatelliteInput::ServerVoiceStarted) => (
                SatelliteState::Processing,
                seq![Action::SetLed(LedState::BluePulse)],
            ),
            (SatelliteState::Processing, SatelliteInput::ServerTtsStart) => (
                SatelliteState::Responding,
                seq![Action::StopCapture, Action::SetLed(LedState::Green), Action::StartPlayback],
            ),
            (SatelliteState::Processing, SatelliteInput::ServerVoiceStopped) => (
                SatelliteState::Idle,
                seq![Action::StopCapture, Action::SendStreamingStopped, Action::SetLed(LedState::Off)],
            ),
            (SatelliteState::Responding, SatelliteInput::ServerTtsStop)
            | (SatelliteState::Responding, SatelliteInput::ServerVoiceStopped)
            | (SatelliteState::Responding, SatelliteInput::PlaybackComplete) => (
                SatelliteState::Idle,
                seq![
                    Action::StopPlayback,
                    Action::SendPlayed,
                    Action::SendStreamingStopped,
                    Action::SetLed(LedState::Off),
                ],
            ),
            _ => (state, seq![]),
        }
    }
}

/// Pure function: (current_state, input) -> (new_state, actions[]).
/// No I/O, no side effects.
pub fn transition(state: &SatelliteState, input: &SatelliteInput) -> (res: (SatelliteState, Vec<Action>))
    ensures
        (res.0, res.1@) == transition_spec(*state, *input),
{
    if *input == SatelliteInput::Disconnected {
        let mut actions: Vec<Action> = Vec::new();
        if *state != SatelliteState::Idle {
            actions.push(Action::StopCapture);
            actions.push(Action::StopPlayback);
        }
        actions.push(Action::SetLed(LedState::RedBlink));
        actions.push(Action::Reconnect);
        proof {
            if *state == SatelliteState::Idle {
                assert(actions@ =~= transition_spec(*state, *input).1);
            } else {
                assert(actions@ =~= transition_spec(*state, *input).1);
            }
        }
        return (SatelliteState::Idle, actions);
    }
    match (*state, *input) {
        (SatelliteState::Idle, SatelliteInput::GpioHigh) => (
            SatelliteState::Streaming,
            vec![Action::StartCapture, Action::SendAudioStart, Action::SendStreamingStarted],
        ),
        (SatelliteState::Streaming, SatelliteInput::SilenceTimeout) => (
            SatelliteState::Idle,
            vec![
                Action::StopCapture,
                Action::SendAudioStop,
                Action::SendStreamingStopped,
                Action::SetLed(LedState::Off),
            ],
        ),
        (SatelliteState::Streaming, SatelliteInput::ServerDetection) => (
            SatelliteState::Triggered,
            vec![Action::SetLed(LedState::Cyan)],
        ),
        (SatelliteState::Streaming, SatelliteInput::ServerVoiceStarted) => (
            SatelliteState::Processing,
            vec![Action::SetLed(LedState::BluePulse)],
        ),
        (SatelliteState::Streaming, SatelliteInput::ServerPauseSatellite) => (
            SatelliteState::Idle,
            vec![Action::StopCapture, Action::SendAudioStop, Action::SendStreamingStopped],
        ),
        (SatelliteState::Triggered, SatelliteInput::ServerVoiceStarted) => (
            SatelliteState::Processing,
            vec![Action::SetLed(LedState::BluePulse)],
        ),
        (SatelliteState::Processing, SatelliteInput::ServerTtsStart) => (
            SatelliteState::Responding,
            vec![Action::StopCapture, Action::SetLed(LedState::Green), Action::StartPlayback],
        ),
        (SatelliteState::Processing, SatelliteInput::ServerVoiceStopped) => (
            SatelliteState::Idle,
            vec![Action::StopCapture, Action::SendStreamingStopped, Action::SetLed(LedState::Off)],
        ),
        (SatelliteState::Responding, SatelliteInput::ServerTtsStop)
        | (SatelliteState::Responding, SatelliteInput::ServerVoiceStopped)
        | (SatelliteState::Responding, SatelliteInput::PlaybackComplete) => (
            SatelliteState::Idle,
            vec![
                Action::StopPlayback,
                Action::SendPlayed,
                Action::SendStreamingStopped,
                Action::SetLed(LedState::Off),
            ],
        ),
        _ => (*state, Vec::new()),
    }
}


/// States in which the microphone capture is running.
pub open spec fn capturing(s: SatelliteState) -> bool {
    s == SatelliteState::Streaming || s == SatelliteState::Triggered || s == SatelliteState::Processing
}

/// States in which an interaction with the server is under way (streaming session open).
pub open spec fn in_session(s: SatelliteState) -> bool {
    s != SatelliteState::Idle
}

/// A disconnection from any state returns to Idle, signals the error LED and asks to
/// reconnect; from any state but Idle it first stops capture and playback.
pub proof fn lemma_disconnect_resets(s: SatelliteState)
    ensures
        ({
            let (next, acts) = transition_spec(s, SatelliteInput::Disconnected);
            &&& next == SatelliteState::Idle
            &&& acts.contains(Action::SetLed(LedState::RedBlink))
            &&& acts.contains(Action::Reconnect)
            &&& s == SatelliteState::Idle ==> acts.len() == 2
            &&& s != SatelliteState::Idle ==> acts.len() == 4 && acts.contains(Action::StopCapture)
                && acts.contains(Action::StopPlayback)
        }),
{
    let acts = transition_spec(s, SatelliteInput::Disconnected).1;
    if s == SatelliteState::Idle {
        assert(acts[0] == Action::SetLed(LedState::RedBlink));
        assert(acts[1] == Action::Reconnect);
    } else {
        assert(acts[0] == Action::StopCapture);
        assert(acts[1] == Action::StopPlayback);
        assert(acts[2] == Action::SetLed(LedState::RedBlink));
        assert(acts[3] == Action::Reconnect);
    }
}

/// The machine asks to reconnect exactly when the connection was lost.
pub proof fn lemma_reconnect_iff_disconnected(s: SatelliteState, i: SatelliteInput)
    ensures
        transition_spec(s, i).1.contains(Action::Reconnect) <==> i == SatelliteInput::Disconnected,
{
    let acts = transition_spec(s, i).1;
    if i == SatelliteInput::Disconnected {
        lemma_disconnect_resets(s);
    } else {
        assert(forall|k: int| 0 <= k < acts.len() ==> acts[k] != Action::Reconnect);
    }
}

/// Any input other than a disconnection that leaves the state unchanged produces no action,
/// and a transition without actions leaves the state unchanged.
pub proof fn lemma_no_change_no_actions(s: SatelliteState, i: SatelliteInput)
    ensures
        i != SatelliteInput::Disconnected && transition_spec(s, i).0 == s ==> transition_spec(s, i).1.len() == 0,
        transition_spec(s, i).1.len() == 0 ==> transition_spec(s, i).0 == s,
{
}

/// Capture is started exactly when a capturing state is entered, and stopped whenever a
/// capturing state is left.
pub proof fn lemma_capture_balanced(s: SatelliteState, i: SatelliteInput)
    ensures
        ({
            let (next, acts) = transition_spec(s, i);
            &&& acts.contains(Action::StartCapture) <==> !capturing(s) && capturing(next)
            &&& capturing(s) && !capturing(next) ==> acts.contains(Action::StopCapture)
        }),
{
    let (next, acts) = transition_spec(s, i);
    if acts.contains(Action::StartCapture) {
        let k = choose|k: int| 0 <= k < acts.len() && acts[k] == Action::StartCapture;
        assert(acts[k] == Action::StartCapture);
    }
    if !capturing(s) && capturing(next) {
        assert(acts[0] == Action::StartCapture);
    }
    if capturing(s) && !capturing(next) {
        assert(acts[0] == Action::StopCapture);
    }
}

/// Playback is started exactly when Responding is entered, and stopped whenever it is left.
pub proof fn lemma_playback_balanced(s: SatelliteState, i: SatelliteInput)
    ensures
        ({
            let (next, acts) = transition_spec(s, i);
            &&& acts.contains(Action::StartPlayback) <==> s != SatelliteState::Responding
                && next == SatelliteState::Responding
            &&& s == SatelliteState::Responding && next != SatelliteState::Responding ==> acts.contains(
                Action::StopPlayback,
            )
        }),
{
    let (next, acts) = transition_spec(s, i);
    if acts.contains(Action::StartPlayback) {
        let k = choose|k: int| 0 <= k < acts.len() && acts[k] == Action::StartPlayback;
        assert(acts[k] == Action::StartPlayback);
    }
    if s != SatelliteState::Responding && next == SatelliteState::Responding {
        assert(acts[2] == Action::StartPlayback);
    }
    if s == SatelliteState::Responding && next != SatelliteState::Responding {
        if i == SatelliteInput::Disconnected {
            assert(acts[1] == Action::StopPlayback);
        } else {
            assert(acts[0] == Action::StopPlayback);
        }
    }
}

/// The server is told when a streaming session opens, and told when it closes unless the
/// connection itself was lost.
pub proof fn lemma_session_notified(s: SatelliteState, i: SatelliteInput)
    ensures
        ({
            let (next, acts) = transition_spec(s, i);
            &&& acts.contains(Action::SendStreamingStarted) <==> !in_session(s) && in_session(next)
            &&& in_session(s) && !in_session(next) && i != SatelliteInput::Disconnected ==> acts.contains(
                Action::SendStreamingStopped,
            )
        }),
{
    let (next, acts) = transition_spec(s, i);
    if acts.contains(Action::SendStreamingStarted) {
        let k = choose|k: int| 0 <= k < acts.len() && acts[k] == Action::SendStreamingStarted;
        assert(acts[k] == Action::SendStreamingStarted);
    }
    if !in_session(s) && in_session(next) {
        assert(acts[2] == Action::SendStreamingStarted);
    }
    if in_session(s) && !in_session(next) && i != SatelliteInput::Disconnected {
        if s == SatelliteState::Responding {
            assert(acts[2] == Action::SendStreamingStopped);
        } else if s == SatelliteState::Processing {
            assert(acts[1] == Action::SendStreamingStopped);
        } else {
            assert(acts[2] == Action::SendStreamingStopped);
        }
    }
}

/// `played` is reported exactly when a response ends normally.
pub proof fn lemma_played_iff_response_ends(s: SatelliteState, i: SatelliteInput)
    ensures
        transition_spec(s, i).1.contains(Action::SendPlayed) <==> s == SatelliteState::Responding
            && transition_spec(s, i).0 == SatelliteState::Idle && i != SatelliteInput::Disconnected,
{
    let (next, acts) = transition_spec(s, i);
    if acts.contains(Action::SendPlayed) {
        let k = choose|k: int| 0 <= k < acts.len() && acts[k] == Action::SendPlayed;
        assert(acts[k] == Action::SendPlayed);
    }
    if s == SatelliteState::Responding && next == SatelliteState::Idle && i != SatelliteInput::Disconnected {
        assert(acts[1] == Action::SendPlayed);
    }
}

} // verus!

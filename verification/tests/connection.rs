use wyoming::connection::{
    handshake_result, handshake_step, is_run_satellite, map_server_event, next_retry_delay, should_give_up,
    HandshakeResult, HandshakeStep,
};
use wyoming::event::Event;
use wyoming::state::SatelliteInput;

#[test]
fn map_all_known_server_events() {
    let cases = vec![
        ("run-satellite", SatelliteInput::ServerRunSatellite),
        ("pause-satellite", SatelliteInput::ServerPauseSatellite),
        ("detection", SatelliteInput::ServerDetection),
        ("voice-started", SatelliteInput::ServerVoiceStarted),
        ("audio-start", SatelliteInput::ServerTtsStart),
        ("audio-stop", SatelliteInput::ServerTtsStop),
        ("voice-stopped", SatelliteInput::ServerVoiceStopped),
    ];

    for (event_type, expected) in cases {
        let event = Event::new(event_type);
        assert_eq!(map_server_event(&event), Some(expected), "Failed for event type: {}", event_type,);
    }
}

#[test]
fn map_unknown_event_returns_none() {
    let event = Event::new("some-unknown-event");
    assert_eq!(map_server_event(&event), None);
}

#[test]
fn map_audio_chunk_returns_none() {
    let event = Event::new("audio-chunk");
    assert_eq!(map_server_event(&event), None);
}

#[test]
fn handshake_answers_first_event() {
    assert_eq!(handshake_step(&Event::new("run-satellite")), HandshakeStep::Ready);
    assert_eq!(handshake_step(&Event::new("describe")), HandshakeStep::ReplyInfo);
    assert_eq!(handshake_step(&Event::new("ping")), HandshakeStep::Unexpected);
    assert_eq!(handshake_result(HandshakeStep::Ready), Some(HandshakeResult::ReadyToRun));
    assert_eq!(handshake_result(HandshakeStep::ReplyInfo), Some(HandshakeResult::NeedRunSatellite));
    assert_eq!(handshake_result(HandshakeStep::Unexpected), None);
    assert!(is_run_satellite(&Event::new("run-satellite")));
    assert!(!is_run_satellite(&Event::new("describe")));
}

#[test]
fn retry_backoff_doubles_up_to_thirty_seconds() {
    let mut delay = 1;
    let mut seen = vec![delay];
    for _ in 0..7 {
        delay = next_retry_delay(delay);
        seen.push(delay);
    }
    assert_eq!(seen, vec![1, 2, 4, 8, 16, 30, 30, 30]);
    assert!(!should_give_up(3, None));
    assert!(!should_give_up(2, Some(3)));
    assert!(should_give_up(3, Some(3)));
}

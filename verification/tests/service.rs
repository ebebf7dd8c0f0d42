use wyoming::audio::AudioFormat;
use wyoming::config::{AudioConfig, SatelliteConfig};
use wyoming::event::Event;
use wyoming::json::{JsonMap, JsonNumber, JsonValue};
use wyoming::service::{
    action_event, base64_encode, describe_satellite, end_of_stream_input, is_playback_audio, led_feedback,
    playback_format_after, protocol_json, server_read_input, session_step, sse_frame, stream_tick, summarize_event,
    PrerollBuffer, ServerRead,
};
use wyoming::state::{Action, FeedbackState, LedState, SatelliteInput, SatelliteState};

#[test]
fn base64_encode_empty() {
    let mut out = String::new();
    base64_encode(&[], &mut out);
    assert_eq!(out, "");
}

#[test]
fn base64_encode_three_bytes() {
    let mut out = String::new();
    base64_encode(b"Man", &mut out);
    assert_eq!(out, "TWFu");
}

#[test]
fn base64_encode_two_bytes_padding() {
    let mut out = String::new();
    base64_encode(b"Ma", &mut out);
    assert_eq!(out, "TWE=");
}

#[test]
fn base64_encode_one_byte_padding() {
    let mut out = String::new();
    base64_encode(b"M", &mut out);
    assert_eq!(out, "TQ==");
}

#[test]
fn base64_encode_26_mel_bytes() {
    let data = vec![128u8; 26];
    let mut out = String::new();
    base64_encode(&data, &mut out);
    // 26 bytes = 8 full chunks (24 bytes) + 1 partial (2 bytes): 8*4 + 4 = 36 chars
    assert_eq!(out.len(), 36);
    assert!(out.ends_with('='), "26 bytes should produce padding");
}

#[test]
fn base64_appends_and_uses_whole_alphabet() {
    let mut out = String::from("x:");
    base64_encode(&[0xFB, 0xFF, 0xBF, 0x00, 0x10, 0x83], &mut out);
    assert_eq!(out, "x:+/+/ABCD");
    let mut out = String::new();
    base64_encode(b"hello world", &mut out);
    assert_eq!(out, "aGVsbG8gd29ybGQ=");
}

fn with_field(t: &str, key: &str, v: JsonValue) -> Event {
    let mut data = JsonMap::new();
    data.insert(key.into(), v);
    Event::new(t).with_data(data)
}

#[test]
fn summaries_of_incoming_events() {
    assert_eq!(summarize_event(&with_field("detection", "name", JsonValue::Str("ok_nabu".into()))), "name=ok_nabu");
    assert_eq!(summarize_event(&with_field("transcript", "text", JsonValue::Str("hi there".into()))), "text=hi there");
    assert_eq!(summarize_event(&with_field("run-pipeline", "start_stage", JsonValue::Str("asr".into()))), "start_stage=asr");
    assert_eq!(
        summarize_event(&with_field("audio-start", "rate", JsonValue::Number(JsonNumber::PosInt(22050)))),
        "rate=22050"
    );
    assert_eq!(summarize_event(&with_field("audio-start", "rate", JsonValue::Str("x".into()))), "");
    assert_eq!(summarize_event(&Event::new("detection")), "");
    assert_eq!(summarize_event(&Event::new("ping")), "");
}

#[test]
fn diagnostics_text() {
    assert_eq!(protocol_json("in", "detection", "name=x"), r#"{"dir":"in","type":"detection","summary":"name=x"}"#);
    assert_eq!(sse_frame("tick", "{}"), "event: tick\ndata: {}\n\n");
}

#[test]
fn actions_send_their_events() {
    let format = AudioFormat { rate: 16000, width: 2, channels: 1 };
    let e = action_event(Action::SendAudioStart, format).unwrap();
    assert_eq!(e.event_type, "audio-start");
    assert_eq!(e.data.get("rate").and_then(|v| v.as_u64()), Some(16000));
    assert!(e.data.get("timestamp").is_none());
    assert_eq!(action_event(Action::SendAudioStop, format).unwrap().event_type, "audio-stop");
    assert_eq!(action_event(Action::SendStreamingStarted, format).unwrap().event_type, "streaming-started");
    assert_eq!(action_event(Action::SendStreamingStopped, format).unwrap().event_type, "streaming-stopped");
    assert_eq!(action_event(Action::SendPlayed, format).unwrap().event_type, "played");
    assert!(action_event(Action::StartCapture, format).is_none());
    assert!(action_event(Action::SetLed(LedState::Cyan), format).is_none());
    assert!(action_event(Action::Reconnect, format).is_none());
}

#[test]
fn leds_map_to_feedback() {
    assert_eq!(led_feedback(LedState::Off), FeedbackState::Idle);
    assert_eq!(led_feedback(LedState::Cyan), FeedbackState::Detected);
    assert_eq!(led_feedback(LedState::BluePulse), FeedbackState::Processing);
    assert_eq!(led_feedback(LedState::Green), FeedbackState::Speaking);
    assert_eq!(led_feedback(LedState::RedBlink), FeedbackState::Error);
}

#[test]
fn playback_format_follows_audio_start() {
    let current = AudioFormat { rate: 16000, width: 2, channels: 1 };
    let mut data = JsonMap::new();
    data.insert("rate".into(), JsonValue::Number(JsonNumber::PosInt(22050)));
    data.insert("width".into(), JsonValue::Number(JsonNumber::PosInt(2)));
    data.insert("channels".into(), JsonValue::Number(JsonNumber::PosInt(1)));
    let start = Event::new("audio-start").with_data(data);
    assert_eq!(playback_format_after(&start, current), AudioFormat { rate: 22050, width: 2, channels: 1 });
    assert_eq!(playback_format_after(&Event::new("audio-start"), current), current);
    assert_eq!(playback_format_after(&Event::new("played"), current), current);
}

#[test]
fn preroll_keeps_latest_frames() {
    let mut buf = PrerollBuffer::new(3);
    for i in 0..5u8 {
        buf.push(vec![i]);
    }
    assert_eq!(buf.len(), 3);
    assert_eq!(buf.take_frames(), vec![vec![2], vec![3], vec![4]]);
    assert_eq!(buf.len(), 0);
    let mut none = PrerollBuffer::new(0);
    none.push(vec![1]);
    assert_eq!(none.len(), 0);
    buf.push(vec![9]);
    buf.clear();
    assert_eq!(buf.len(), 0);
}

#[test]
fn streaming_tick_decisions() {
    // Voice: keep streaming and restart the silence clock.
    let t = stream_tick(true, 5_000, 2_500, 1_000, 0);
    assert!(t.voice_seen && t.input.is_none());
    // No voice for longer than the timeout: stop.
    let t = stream_tick(false, 2_501, 2_500, 1_000, 0);
    assert_eq!(t.input, Some(SatelliteInput::SilenceTimeout));
    // Exactly at the timeout: keep going.
    assert!(stream_tick(false, 2_500, 2_500, 1_000, 0).input.is_none());
    // Watchdog, even with voice.
    let t = stream_tick(true, 0, 2_500, 301, 300);
    assert_eq!(t.input, Some(SatelliteInput::SilenceTimeout));
    assert!(t.voice_seen);
    // No maximum when zero.
    assert!(stream_tick(true, 0, 2_500, u128::MAX, 0).input.is_none());
}

#[test]
fn reads_from_the_server() {
    assert_eq!(server_read_input(&ServerRead::Received(Event::new("detection"))), Some(SatelliteInput::ServerDetection));
    assert_eq!(server_read_input(&ServerRead::Received(Event::new("audio-chunk"))), None);
    assert_eq!(server_read_input(&ServerRead::Nothing), None);
    assert_eq!(server_read_input(&ServerRead::Closed), Some(SatelliteInput::Disconnected));
    assert_eq!(server_read_input(&ServerRead::Failed), Some(SatelliteInput::Disconnected));
    assert!(is_playback_audio(&Event::new("audio-chunk")));
    assert!(!is_playback_audio(&Event::new("audio-stop")));
    assert_eq!(end_of_stream_input(SatelliteState::Streaming), Some(SatelliteInput::SilenceTimeout));
    assert_eq!(end_of_stream_input(SatelliteState::Idle), Some(SatelliteInput::SilenceTimeout));
    assert_eq!(end_of_stream_input(SatelliteState::Processing), None);
}

#[test]
fn session_steps() {
    let s = session_step(SatelliteState::Streaming, SatelliteInput::Disconnected, FeedbackState::Listening);
    assert_eq!(s.next_state, SatelliteState::Idle);
    assert_eq!(s.actions, vec![Action::StopCapture, Action::StopPlayback, Action::SetLed(LedState::RedBlink)]);
    assert!(s.end_session);
    assert!(!s.interaction_completed);
    assert_eq!(s.feedback, FeedbackState::Error);

    let s = session_step(SatelliteState::Responding, SatelliteInput::ServerTtsStop, FeedbackState::Speaking);
    assert_eq!(s.next_state, SatelliteState::Idle);
    assert!(!s.end_session);
    assert!(s.interaction_completed);
    assert_eq!(s.feedback, FeedbackState::Idle);

    let s = session_step(SatelliteState::Idle, SatelliteInput::GpioHigh, FeedbackState::Idle);
    assert_eq!(s.next_state, SatelliteState::Streaming);
    assert_eq!(s.actions, vec![Action::StartCapture, Action::SendAudioStart, Action::SendStreamingStarted]);
    assert_eq!(s.feedback, FeedbackState::Idle);
}

#[test]
fn satellite_description() {
    let sat = SatelliteConfig { name: "kitchen".into(), area: Some("Kitchen".into()) };
    let audio = AudioConfig {
        device: None,
        wav_input: Some("in.wav".into()),
        playback_device: None,
        wav_output: None,
        rate: 16000,
        width: 2,
        channels: 1,
        chunk_ms: 20,
    };
    let (info, mic, snd) = describe_satellite(&sat, &audio, "0.1.0");
    assert_eq!(info.name, "kitchen");
    assert_eq!(info.area.as_deref(), Some("Kitchen"));
    assert_eq!(info.description.as_deref(), Some("kitchen"));
    assert_eq!(info.version.as_deref(), Some("0.1.0"));
    assert_eq!(info.has_vad, Some(true));
    assert_eq!(info.supports_trigger, Some(false));
    assert_eq!(mic.len(), 1);
    assert_eq!(mic[0].mic_format, AudioFormat { rate: 16000, width: 2, channels: 1 });
    assert!(snd.is_empty());
    let mut audio2 = audio.clone();
    audio2.wav_output = Some("out.wav".into());
    let (_, _, snd) = describe_satellite(&sat, &audio2, "0.1.0");
    assert_eq!(snd.len(), 1);
}

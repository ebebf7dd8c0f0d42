use wyoming::config::{
    default_chunk_ms, default_channels, default_diagnostics_bind, default_mode, default_port, default_rate,
    default_width, validate_server_and_audio, AudioConfig, ConfigError, ConsoleEffect, DiagnosticsConfig,
    ServerConfig, StateEffects,
};
use wyoming::state::FeedbackState;

fn server(mode: &str) -> ServerConfig {
    ServerConfig { mode: mode.into(), host: "localhost".into(), port: 10700 }
}

fn audio(device: Option<&str>, wav_input: Option<&str>) -> AudioConfig {
    AudioConfig {
        device: device.map(|s| s.to_string()),
        wav_input: wav_input.map(|s| s.to_string()),
        playback_device: None,
        wav_output: None,
        rate: 16000,
        width: 2,
        channels: 1,
        chunk_ms: 20,
    }
}

#[test]
fn state_effects_get_maps_correctly() {
    let effects = StateEffects {
        idle: Some(ConsoleEffect { template: "idle".into() }),
        listening: Some(ConsoleEffect { template: "listening".into() }),
        detected: None,
        processing: None,
        speaking: None,
        error: Some(ConsoleEffect { template: "error".into() }),
    };

    assert_eq!(effects.get(FeedbackState::Idle).unwrap().template, "idle");
    assert_eq!(effects.get(FeedbackState::Listening).unwrap().template, "listening");
    assert!(effects.get(FeedbackState::Detected).is_none());
    assert!(effects.get(FeedbackState::Processing).is_none());
    assert!(effects.get(FeedbackState::Speaking).is_none());
    assert_eq!(effects.get(FeedbackState::Error).unwrap().template, "error");
}

#[test]
fn frame_size_calculation() {
    let config = AudioConfig {
        device: None,
        playback_device: None,
        wav_input: Some("test.wav".into()),
        wav_output: None,
        rate: 16000,
        width: 2,
        channels: 1,
        chunk_ms: 20,
    };
    // 16000 Hz * 20ms / 1000 = 320 samples * 2 bytes * 1 channel = 640 bytes
    assert_eq!(config.frame_size(), 640);
}

#[test]
fn validates_audio_source_required() {
    let result = validate_server_and_audio(&server("listen"), &audio(None, None));
    assert!(result.is_err());
}

#[test]
fn validates_audio_source_exclusive() {
    let result = validate_server_and_audio(&server("listen"), &audio(Some("hw:0,0"), Some("test.wav")));
    assert!(result.is_err());
}

#[test]
fn server_mode_connect_accepted() {
    let result = validate_server_and_audio(&server("connect"), &audio(None, Some("test.wav")));
    assert!(result.is_ok());
}

#[test]
fn server_mode_invalid_rejected() {
    let result = validate_server_and_audio(&server("bogus"), &audio(None, Some("test.wav")));
    match result {
        Err(ConfigError::Invalid(msg)) => {
            assert_eq!(msg, "server.mode must be 'listen' or 'connect', got 'bogus'");
        }
        other => panic!("expected Invalid, got {:?}", other),
    }
}

#[test]
fn validation_messages_name_the_rule() {
    match validate_server_and_audio(&server("listen"), &audio(None, None)) {
        Err(ConfigError::Invalid(msg)) => assert_eq!(msg, "audio config must specify either 'device' or 'wav_input'"),
        other => panic!("expected Invalid, got {:?}", other),
    }
    match validate_server_and_audio(&server("listen"), &audio(Some("hw:0,0"), Some("a.wav"))) {
        Err(ConfigError::Invalid(msg)) => assert_eq!(msg, "audio config cannot specify both 'device' and 'wav_input'"),
        other => panic!("expected Invalid, got {:?}", other),
    }
    assert!(validate_server_and_audio(&server("listen"), &audio(Some("hw:0,0"), None)).is_ok());
}

#[test]
fn frame_size_other_formats() {
    let mut config = audio(None, Some("a.wav"));
    config.rate = 22050;
    config.channels = 2;
    config.chunk_ms = 30;
    // 22050 * 30 / 1000 = 661 samples (rounded down) * 2 bytes * 2 channels
    assert_eq!(config.frame_size(), 2644);
    let f = config.audio_format();
    assert_eq!((f.rate, f.width, f.channels), (22050, 2, 2));
}

#[test]
fn defaults_match_documentation() {
    assert_eq!(default_mode(), "listen");
    assert_eq!(default_port(), 10700);
    assert_eq!(default_rate(), 16000);
    assert_eq!(default_width(), 2);
    assert_eq!(default_channels(), 1);
    assert_eq!(default_chunk_ms(), 20);
    assert_eq!(default_diagnostics_bind(), "0.0.0.0");
    let d = DiagnosticsConfig::default();
    assert!(d.enabled);
    assert_eq!(d.port, 8585);
    assert_eq!(d.bind, "0.0.0.0");
    let e: StateEffects<ConsoleEffect> = StateEffects::default();
    assert!(e.get(FeedbackState::Idle).is_none());
    assert!(e.get(FeedbackState::Error).is_none());
}

use std::time::Duration;

use wyoming::alsa::{AlsaSink, AlsaSource};
use wyoming::audio::AudioFormat;
use wyoming::hardware::{AudioError, AudioSink, AudioSource, AutoGpio, GpioInput, NullSink, WavFileSource};

#[test]
fn alsa_source_new_does_not_open_device() {
    let source = AlsaSource::new("nonexistent", 16000, 1, 640);
    assert!(!source.is_open());
    assert_eq!(source.period_frames(), 320);
}

#[test]
fn alsa_sink_new_does_not_open_device() {
    let sink = AlsaSink::new("nonexistent");
    assert!(!sink.is_open());
    assert!(sink.current_format().is_none());
}

#[test]
fn alsa_source_read_without_start_fails() {
    let mut source = AlsaSource::new("nonexistent", 16000, 1, 640);
    let result = source.read_frame();
    assert!(result.is_err());
}

#[test]
fn alsa_sink_write_without_start_fails() {
    let mut sink = AlsaSink::new("nonexistent");
    let result = sink.write_frame(&[0u8; 640]);
    assert!(result.is_err());
}

#[test]
fn null_sink_accepts_all_frames() {
    let mut sink = NullSink;
    sink.start(AudioFormat::wyoming_default()).unwrap();
    sink.write_frame(&[0u8; 640]).unwrap();
    sink.write_frame(&[0u8; 320]).unwrap();
    sink.stop().unwrap();
}

#[test]
fn auto_gpio_fires_immediately() {
    let gpio = AutoGpio::new();
    assert!(gpio.wait_for_high(Duration::from_millis(100)));
}

#[test]
fn auto_gpio_is_always_low() {
    let gpio = AutoGpio::new();
    assert!(!gpio.is_high());
}

#[test]
fn alsa_source_period_for_stereo() {
    let source = AlsaSource::new("nonexistent", 48000, 2, 3840);
    assert_eq!(source.period_frames(), 960);
}

#[test]
fn wav_source_reads_frames_then_ends() {
    let samples: Vec<i16> = vec![1, -1, 256, 0, 7];
    let mut source = WavFileSource::from_samples(&samples, 4, 20);
    assert!(matches!(source.read_frame(), Err(AudioError::DeviceUnavailable(_))));
    source.start().unwrap();
    assert_eq!(source.read_frame().unwrap(), vec![1, 0, 0xFF, 0xFF]);
    assert_eq!(source.read_frame().unwrap(), vec![0, 1, 0, 0]);
    // The last frame is padded with silence.
    assert_eq!(source.read_frame().unwrap(), vec![7, 0, 0, 0]);
    assert!(matches!(source.read_frame(), Err(AudioError::EndOfStream)));
    // Starting again rewinds.
    source.start().unwrap();
    assert_eq!(source.read_frame().unwrap(), vec![1, 0, 0xFF, 0xFF]);
    source.stop().unwrap();
    assert!(source.read_frame().is_err());
    assert_eq!(source.frame_duration_ms(), 20);
}

use wyoming::alsa::{capture_buffer_frames, capture_frame_bytes, playback_buffer_frames, playback_period_frames, sink_reuses_device};
use wyoming::audio::AudioFormat;

#[test]
fn capture_bytes_pad_short_reads() {
    let buf = [1i16, -2, 3, 4];
    // Two frames of one channel read, padded to eight bytes.
    assert_eq!(capture_frame_bytes(&buf, 2, 1, 8), vec![1, 0, 0xFE, 0xFF, 0, 0, 0, 0]);
    // A full read is not padded or cut.
    assert_eq!(capture_frame_bytes(&buf, 2, 2, 4), vec![1, 0, 0xFE, 0xFF, 3, 0, 4, 0]);
    assert_eq!(capture_frame_bytes(&buf, 0, 2, 3), vec![0, 0, 0]);
}

#[test]
fn period_and_buffer_sizes() {
    assert_eq!(playback_period_frames(22050), 441);
    assert_eq!(playback_period_frames(16000), 320);
    assert_eq!(playback_buffer_frames(441), 1764);
    assert_eq!(capture_buffer_frames(320), 1600);
}

#[test]
fn sink_reopens_on_format_change() {
    let f = AudioFormat { rate: 22050, width: 2, channels: 1 };
    let g = AudioFormat { rate: 16000, width: 2, channels: 1 };
    assert!(sink_reuses_device(true, Some(f), f));
    assert!(!sink_reuses_device(true, Some(g), f));
    assert!(!sink_reuses_device(false, Some(f), f));
    assert!(!sink_reuses_device(true, None, f));
}

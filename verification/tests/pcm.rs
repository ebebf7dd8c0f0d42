use wyoming::pcm::{pcm16le_to_samples, samples_to_pcm16le, StatKey};

#[test]
fn pcm16le_round_trip() {
    let original: Vec<i16> = vec![0, 1, -1, i16::MAX, i16::MIN, 12345, -12345];
    let mut bytes = Vec::new();
    samples_to_pcm16le(&original, &mut bytes);
    assert_eq!(bytes.len(), original.len() * 2);

    let mut recovered = Vec::new();
    pcm16le_to_samples(&bytes, &mut recovered);
    assert_eq!(recovered, original);
}

#[test]
fn pcm16le_empty() {
    let mut bytes = Vec::new();
    samples_to_pcm16le(&[], &mut bytes);
    assert!(bytes.is_empty());

    let mut samples = Vec::new();
    pcm16le_to_samples(&[], &mut samples);
    assert!(samples.is_empty());
}

#[test]
fn pcm16le_reuses_buffer() {
    let samples: Vec<i16> = vec![100, 200, 300];
    let mut bytes = Vec::with_capacity(100);
    samples_to_pcm16le(&samples, &mut bytes);
    assert_eq!(bytes.len(), 6);
    assert!(bytes.capacity() >= 100);
}

#[test]
fn pcm16le_byte_order_and_odd_tail() {
    let mut bytes = Vec::new();
    samples_to_pcm16le(&[0x1234, -2], &mut bytes);
    assert_eq!(bytes, vec![0x34, 0x12, 0xFE, 0xFF]);
    let mut samples = vec![9, 9, 9];
    pcm16le_to_samples(&[0x34, 0x12, 0x01], &mut samples);
    assert_eq!(samples, vec![0x1234]);
}

#[test]
fn stat_names_are_distinct_snake_case() {
    let keys = [
        StatKey::NoiseFloor,
        StatKey::DutyCycle,
        StatKey::CurrentGain,
        StatKey::ClippingCount,
        StatKey::EnergyRemoved,
        StatKey::ProcessUs,
        StatKey::AnalyzeUs,
        StatKey::Energy,
        StatKey::AttackThreshold,
        StatKey::SustainThreshold,
        StatKey::Triggered,
        StatKey::Phase,
        StatKey::HoldCounter,
        StatKey::ZeroCrossingRate,
        StatKey::SpeechBandRatio,
        StatKey::SpectralCentroid,
        StatKey::SpectralFlatness,
    ];
    for (i, a) in keys.iter().enumerate() {
        let name = a.name();
        assert!(!name.is_empty());
        assert!(name.chars().all(|c| c.is_ascii_lowercase() || c == '_'));
        for b in keys.iter().skip(i + 1) {
            assert_ne!(name, b.name());
        }
    }
}

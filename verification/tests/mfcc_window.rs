use wyoming::pcm::StatKey;

#[test]
fn hann_window_endpoints() {
    let n = 512;
    let w: Vec<f32> = (0..n)
        .map(|i| 0.5 * (1.0 - (2.0 * std::f32::consts::PI * i as f32 / (n - 1) as f32).cos()))
        .collect();
    // Hann window: endpoints should be ~0, middle should be ~1
    assert!(w[0] < 0.01);
    assert!(w[n - 1] < 0.01);
    assert!((w[n / 2] - 1.0).abs() < 0.01);
}

#[test]
fn stat_key_names() {
    assert_eq!(StatKey::NoiseFloor.name(), "noise_floor");
    assert_eq!(StatKey::CurrentGain.name(), "agc_gain");
    assert_eq!(StatKey::ZeroCrossingRate.name(), "zcr");
    assert_eq!(StatKey::SpectralFlatness.name(), "spectral_flatness");
}

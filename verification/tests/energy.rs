use wyoming::energy::{compute_rms, EnergyDetector};

fn make_samples(value: i16, count: usize) -> Vec<i16> {
    vec![value; count]
}

#[test]
fn rms_silence() {
    assert_eq!(compute_rms(&make_samples(0, 320)), 0);
}

#[test]
fn rms_uniform_value() {
    assert_eq!(compute_rms(&make_samples(1000, 320)), 1000);
}

#[test]
fn rms_empty() {
    assert_eq!(compute_rms(&[]), 0);
}

#[test]
fn rms_extremes_and_rounding() {
    assert_eq!(compute_rms(&make_samples(i16::MIN, 4)), 32768);
    assert_eq!(compute_rms(&make_samples(i16::MAX, 4)), 32767);
    // mean square (9 + 16) / 2 = 12, whose root rounds down to 3
    assert_eq!(compute_rms(&[3, -4]), 3);
    // mean square 45 / 4 = 11, root 3.3 rounds down
    assert_eq!(compute_rms(&[3, 0, 6, 0]), 3);
}

#[test]
fn energy_detector_silence_no_trigger() {
    let mut det = EnergyDetector::new(1000, 500);
    let mut silence = make_samples(0, 320);
    assert!(!det.process(&mut silence));
}

#[test]
fn energy_detector_loud_frame_triggers() {
    let mut det = EnergyDetector::new(1000, 500);
    let mut loud = make_samples(10000, 320);
    assert!(det.process(&mut loud));
}

#[test]
fn energy_detector_threshold_boundary() {
    let mut det = EnergyDetector::new(5000, 2500);
    let mut frame = make_samples(5000, 320);
    assert!(det.process(&mut frame));
}

#[test]
fn energy_detector_sustain_default() {
    let det = EnergyDetector::new(1000, 0);
    // sustain=0 resolves to attack/2 = 500
    assert_eq!(det.sustain_threshold(), 500);
}

#[test]
fn energy_detector_schmitt_trigger_phases() {
    let mut det = EnergyDetector::new(500, 200);

    assert!(!det.is_sustaining());

    let mut mid = make_samples(300, 320);
    assert!(!det.process(&mut mid));
    assert!(!det.is_sustaining());

    let mut loud = make_samples(600, 320);
    assert!(det.process(&mut loud));
    assert!(det.is_sustaining());

    assert!(det.process(&mut mid));
    assert!(det.is_sustaining());

    let mut quiet = make_samples(100, 320);
    assert!(!det.process(&mut quiet));
    assert!(!det.is_sustaining());

    assert!(!det.process(&mut mid));
    assert!(!det.is_sustaining());
}

#[test]
fn energy_detector_reset_returns_to_attack() {
    let mut det = EnergyDetector::new(500, 200);
    let mut loud = make_samples(1000, 320);
    assert!(det.process(&mut loud));
    assert_eq!(det.last_rms(), 1000);
    let mut mid = make_samples(300, 320);
    assert!(det.process(&mut mid));
    det.reset();
    assert_eq!(det.last_rms(), 0);
    assert!(!det.process(&mut mid));
    assert_eq!(det.attack_threshold(), 500);
    assert_eq!(det.name(), "energy_detector");
}

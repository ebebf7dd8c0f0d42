use wyoming::energy::{hold_step, schmitt_step};
use wyoming::runner::{analyze_interval, is_analyze_frame, mfcc_frame_size, stage_plan, StageId, StageSelection};
use wyoming::zcr::count_zero_crossings;

#[test]
fn stage_order_filters_observers_detectors() {
    let all = StageSelection {
        highpass: true,
        bandpass: true,
        zcr: true,
        mfcc: true,
        energy_detector: true,
        auto_energy: true,
    };
    assert_eq!(
        stage_plan(all),
        vec![
            StageId::HighPass,
            StageId::Bandpass,
            StageId::Zcr,
            StageId::Mfcc,
            StageId::EnergyDetector,
            StageId::AutoEnergy
        ]
    );
    let some = StageSelection { highpass: false, bandpass: false, zcr: true, mfcc: false, energy_detector: false, auto_energy: true };
    assert_eq!(stage_plan(some), vec![StageId::Zcr, StageId::AutoEnergy]);
}

#[test]
fn analyze_interval_defaults_to_fifty() {
    assert_eq!(analyze_interval(0), 50);
    assert_eq!(analyze_interval(7), 7);
    assert!(is_analyze_frame(50, 50));
    assert!(!is_analyze_frame(49, 50));
    assert_eq!(mfcc_frame_size(16000), 320);
}

#[test]
fn zero_crossings_count_sign_changes() {
    assert_eq!(count_zero_crossings(&[]), 0);
    assert_eq!(count_zero_crossings(&[5]), 0);
    assert_eq!(count_zero_crossings(&[1, -1, 1, -1]), 3);
    assert_eq!(count_zero_crossings(&[0, -1, 0, 3, 4]), 2);
    assert_eq!(count_zero_crossings(&[-3, -2, -1]), 0);
}

#[test]
fn schmitt_and_hold() {
    assert!(schmitt_step(false, 100, 100, 50));
    assert!(!schmitt_step(false, 99, 100, 50));
    assert!(schmitt_step(true, 50, 100, 50));
    assert!(!schmitt_step(true, 49, 100, 50));

    // No hold: report the frame itself.
    assert_eq!(hold_step(0, 0, true), (1, true));
    assert_eq!(hold_step(4, 0, false), (0, false));
    // A hold of three frames reports from the third triggered frame in a row.
    let mut counter = 0;
    let mut out = Vec::new();
    for &t in &[true, true, true, true, false, true] {
        let (c, o) = hold_step(counter, 3, t);
        counter = c;
        out.push(o);
    }
    assert_eq!(out, vec![false, false, true, true, false, false]);
    assert_eq!(hold_step(u16::MAX, 3, true), (u16::MAX, true));
}

#[test]
fn stage_names() {
    assert_eq!(StageId::HighPass.name(), "highpass");
    assert_eq!(StageId::Bandpass.name(), "bandpass");
    assert_eq!(StageId::Zcr.name(), "zcr");
    assert_eq!(StageId::Mfcc.name(), "mfcc");
    assert_eq!(StageId::EnergyDetector.name(), "energy_detector");
    assert_eq!(StageId::AutoEnergy.name(), "auto_energy");
}

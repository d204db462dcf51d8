use open_space::tracking::{
    CalibrationStep, SampleAction, TrackingState, BIAS_SAMPLES, CONVERGENCE_SAMPLES,
};

#[test]
fn first_sample_is_only_remembered() {
    let mut s = TrackingState::new();
    assert!(matches!(s.on_sample(1_000), SampleAction::Remember));
    assert_eq!(s.last_timestamp(), Some(1_000));
    assert_eq!(s.sample_count(), 0);
    match s.on_sample(2_500) {
        SampleAction::Integrate { dt_micros, subtract_bias, step } => {
            assert_eq!(dt_micros, 1_500);
            assert!(!subtract_bias);
            assert!(matches!(step, CalibrationStep::Nothing));
        }
        SampleAction::Remember => panic!("second sample must be integrated"),
    }
    assert_eq!(s.sample_count(), 1);
}

#[test]
fn calibration_follows_schedule() {
    let mut s = TrackingState::new();
    let mut t: u64 = 0;
    s.on_sample(t);
    let mut bias_at = Vec::new();
    let mut capture_at = Vec::new();
    let mut first_corrected = None;
    for k in 1..=2000u32 {
        t += 1_000;
        match s.on_sample(t) {
            SampleAction::Integrate { dt_micros, subtract_bias, step } => {
                assert_eq!(dt_micros, 1_000);
                if subtract_bias && first_corrected.is_none() {
                    first_corrected = Some(k);
                }
                match step {
                    CalibrationStep::EstimateBias => bias_at.push(k),
                    CalibrationStep::CaptureCalibration => capture_at.push(k),
                    CalibrationStep::Nothing => {}
                }
            }
            SampleAction::Remember => panic!("only the first sample is remembered"),
        }
    }
    assert_eq!(bias_at, vec![BIAS_SAMPLES]);
    assert_eq!(capture_at, vec![BIAS_SAMPLES + CONVERGENCE_SAMPLES]);
    assert_eq!(first_corrected, Some(BIAS_SAMPLES + 1));
    assert_eq!(s.sample_count(), 2000);
}

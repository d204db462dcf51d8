use open_space::settings::{
    clamp_num_screens, menu_update, settings_path, step_num_screens, DEFAULT_NUM_SCREENS,
    MAX_NUM_SCREENS, MIN_NUM_SCREENS,
};
use std::path::PathBuf;

#[test]
fn settings_live_in_working_directory() {
    assert_eq!(settings_path(), PathBuf::from("settings.json"));
}

#[test]
fn screen_count_is_clamped() {
    assert_eq!(clamp_num_screens(0), MIN_NUM_SCREENS);
    assert_eq!(clamp_num_screens(4), 4);
    assert_eq!(clamp_num_screens(100), MAX_NUM_SCREENS);
    assert_eq!(DEFAULT_NUM_SCREENS, 6);
    for n in 0..20 {
        let c = clamp_num_screens(n);
        assert_eq!(clamp_num_screens(c), c);
    }
}

#[test]
fn menu_steps_stay_in_range() {
    assert_eq!(step_num_screens(3, 1), 4);
    assert_eq!(step_num_screens(6, 5), 6);
    assert_eq!(step_num_screens(2, -5), 1);
    assert_eq!(step_num_screens(u32::MAX, 1), 1);
    assert_eq!(step_num_screens(u32::MAX, 7), 6);
    assert_eq!(step_num_screens(step_num_screens(4, 1), -1), 4);
}

#[test]
fn menu_poll_outcomes() {
    let idle = menu_update(3, 0, 0);
    assert!(!idle.changed && !idle.distance_changed);
    assert_eq!(idle.num_screens, 3);
    let closer = menu_update(3, -2, 0);
    assert!(closer.changed && closer.distance_changed);
    assert_eq!(closer.num_screens, 3);
    let more = menu_update(3, 0, 2);
    assert!(more.changed && !more.distance_changed);
    assert_eq!(more.num_screens, 5);
}

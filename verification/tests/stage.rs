use open_space::stage::{
    active_display_ids, displays_missing_modes, mode_wait_decision, noise_texture, ModeWait,
};

#[test]
fn active_ids_are_truncated_to_count() {
    assert_eq!(active_display_ids(vec![4, 5, 0, 0], 2, 0), vec![4, 5]);
    assert_eq!(active_display_ids(vec![4, 5], 9, 0), vec![4, 5]);
    assert!(active_display_ids(vec![4, 5, 0], 2, 1001).is_empty());
}

#[test]
fn missing_modes_are_listed_in_order() {
    assert_eq!(displays_missing_modes(&[(1, true), (2, false), (3, true), (4, false)]), vec![2, 4]);
    assert!(displays_missing_modes(&[(1, true)]).is_empty());
}

#[test]
fn waiting_for_modes() {
    assert!(matches!(mode_wait_decision(0, 99_000_000_000, 10_000_000_000), ModeWait::Ready));
    assert!(matches!(mode_wait_decision(2, 10_000_000_001, 10_000_000_000), ModeWait::TimedOut));
    assert!(matches!(mode_wait_decision(2, 10_000_000_000, 10_000_000_000), ModeWait::Poll));
}

#[test]
fn noise_texture_is_opaque() {
    let data = noise_texture(4, 3);
    assert_eq!(data.len(), 48);
    for (j, b) in data.iter().enumerate() {
        if j % 4 == 3 {
            assert_eq!(*b, 255);
        }
    }
    assert!(noise_texture(0, 10).is_empty());
}

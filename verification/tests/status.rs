use open_space::status::{camera_permission, count_frame, CameraPermission};

#[test]
fn frames_reported_early_and_every_hundred() {
    assert_eq!(count_frame(0), (1, true));
    assert_eq!(count_frame(4), (5, true));
    assert_eq!(count_frame(5), (6, false));
    assert_eq!(count_frame(99), (100, true));
    assert_eq!(count_frame(100), (101, false));
}

#[test]
fn camera_status_codes() {
    assert!(matches!(camera_permission(3), CameraPermission::Granted));
    assert!(matches!(camera_permission(0), CameraPermission::NotDetermined));
    assert!(matches!(camera_permission(1), CameraPermission::DeniedOrRestricted));
    assert!(matches!(camera_permission(2), CameraPermission::DeniedOrRestricted));
}

use open_space::monitor::{
    is_virtual, select_by_lowered_name, select_glasses_monitor, GlassesScan, MonitorInfo,
    ScanAction, GLASSES_SCAN_MAX_FRAMES,
};

fn mon(name: Option<&str>, refresh: Option<u32>, primary: bool) -> MonitorInfo {
    MonitorInfo {
        name: name.map(|n| n.to_string()),
        refresh_rate_millihertz: refresh,
        is_primary: primary,
    }
}

fn setup() -> Vec<MonitorInfo> {
    vec![
        mon(Some("Built-in Retina Display"), Some(120_000), true),
        mon(Some("Virtual Screen 1"), Some(60_000), false),
        mon(Some("XREAL Air"), Some(120_000), false),
        mon(Some("Dell U2720Q"), Some(60_000), false),
    ]
}

#[test]
fn virtual_names_are_recognised() {
    assert!(is_virtual(&mon(Some("Virtual Screen 4"), None, false)));
    assert!(!is_virtual(&mon(Some("XREAL Air"), None, false)));
    assert!(!is_virtual(&mon(None, None, false)));
}

#[test]
fn fastest_non_primary_monitor_is_chosen() {
    assert_eq!(select_glasses_monitor(&setup(), None), Some(2));
}

#[test]
fn later_monitor_wins_a_tie() {
    let monitors = vec![
        mon(Some("A"), Some(60_000), false),
        mon(Some("B"), None, false),
        mon(Some("C"), Some(60_000), false),
    ];
    assert_eq!(select_glasses_monitor(&monitors, None), Some(2));
}

#[test]
fn only_primary_or_virtual_gives_none() {
    let monitors = vec![
        mon(Some("Built-in"), Some(60_000), true),
        mon(Some("Virtual Screen 2"), Some(60_000), false),
    ];
    assert_eq!(select_glasses_monitor(&monitors, None), None);
}

#[test]
fn name_filter_ignores_case() {
    assert_eq!(select_glasses_monitor(&setup(), Some("xreal")), Some(2));
    assert_eq!(select_glasses_monitor(&setup(), Some("DELL")), Some(3));
    assert_eq!(select_glasses_monitor(&setup(), Some("retina")), Some(0));
    assert_eq!(select_glasses_monitor(&setup(), Some("virtual")), None);
    assert_eq!(select_glasses_monitor(&setup(), Some("viture")), None);
}

#[test]
fn scan_switches_once_found() {
    let mut scan = GlassesScan::new();
    assert!(matches!(scan.step(&[], None), ScanAction::Wait));
    assert!(!scan.is_done());
    assert!(matches!(scan.step(&setup(), None), ScanAction::Fullscreen(2)));
    assert!(scan.is_done());
    assert!(matches!(scan.step(&setup(), None), ScanAction::Wait));
}

#[test]
fn scan_gives_up_after_max_frames() {
    let only_primary = vec![mon(Some("Built-in"), Some(60_000), true)];
    let mut scan = GlassesScan::new();
    for _ in 1..GLASSES_SCAN_MAX_FRAMES {
        assert!(matches!(scan.step(&only_primary, None), ScanAction::Wait));
        assert!(!scan.is_done());
    }
    assert!(matches!(scan.step(&only_primary, None), ScanAction::GiveUp));
    assert!(scan.is_done());
    assert!(matches!(scan.step(&setup(), None), ScanAction::Wait));
}

#[test]
fn empty_monitor_lists_do_not_count() {
    let mut scan = GlassesScan::new();
    for _ in 0..1000 {
        assert!(matches!(scan.step(&[], None), ScanAction::Wait));
    }
    assert!(!scan.is_done());
}

#[test]
fn lowered_names_are_searched_in_order() {
    let monitors = setup();
    let lowered: Vec<Option<String>> = vec![
        Some("built-in retina display".to_string()),
        Some("virtual screen 1".to_string()),
        Some("xreal air".to_string()),
        None,
    ];
    assert_eq!(select_by_lowered_name(&monitors, &lowered, "air"), Some(2));
    assert_eq!(select_by_lowered_name(&monitors, &lowered, "screen"), None);
    assert_eq!(select_by_lowered_name(&monitors, &lowered, "i"), Some(0));
    assert_eq!(select_by_lowered_name(&monitors, &lowered, "dell"), None);
}

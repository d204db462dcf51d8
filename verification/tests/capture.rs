use open_space::capture::{any_stream_stopped, arrange_display_specs, capture_targets, include_main_display};

#[test]
fn main_display_is_added_and_centred() {
    let specs: Vec<(u32, u32, u32)> = vec![(10, 1920, 1080), (11, 1920, 1080)];
    let arranged = arrange_display_specs(specs, 1, 1920, 1080);
    assert_eq!(arranged, vec![(10, 1920, 1080), (1, 1920, 1080), (11, 1920, 1080)]);
}

#[test]
fn present_main_display_is_not_added_twice() {
    let mut specs: Vec<(u32, usize, usize)> = vec![(1, 800, 600), (2, 1920, 1080)];
    include_main_display(&mut specs, 1, 1920, 1080);
    assert_eq!(specs, vec![(1, 800, 600), (2, 1920, 1080)]);
    include_main_display(&mut specs, 3, 1920, 1080);
    assert_eq!(specs, vec![(1, 800, 600), (2, 1920, 1080), (3, 1920, 1080)]);
}

#[test]
fn screens_and_streams_line_up() {
    let ids = [20u32, 21, 22, 23, 24];
    let screens: Vec<(u32, u32, u32)> = ids.iter().map(|&id| (id, 1920, 1080)).collect();
    let streams: Vec<(u32, usize, usize)> = ids.iter().map(|&id| (id, 1920, 1080)).collect();
    let a = arrange_display_specs(screens, 5, 1920, 1080);
    let b = arrange_display_specs(streams, 5, 1920usize, 1080usize);
    let ida: Vec<u32> = a.iter().map(|s| s.0).collect();
    let idb: Vec<u32> = b.iter().map(|s| s.0).collect();
    assert_eq!(ida, idb);
    assert_eq!(ida, vec![20, 21, 22, 23, 5, 24]);
}

#[test]
fn targets_match_capturable_displays() {
    let specs = vec![(5u32, 100usize, 50usize), (6, 200, 100), (7, 300, 150)];
    let targets = capture_targets(&specs, &[7, 5, 5]);
    assert_eq!(targets.len(), 2);
    assert_eq!((targets[0].sender_idx, targets[0].source_idx), (0, 1));
    assert_eq!((targets[0].width, targets[0].height), (100, 50));
    assert_eq!((targets[1].sender_idx, targets[1].source_idx), (2, 0));
    assert!(capture_targets(&specs, &[]).is_empty());
}

#[test]
fn restart_when_a_stream_stopped() {
    assert!(!any_stream_stopped(&[]));
    assert!(!any_stream_stopped(&[false, false]));
    assert!(any_stream_stopped(&[false, true, false]));
}

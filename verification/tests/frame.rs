use open_space::frame::bgra_to_rgba;

#[test]
fn converts_padded_rows() {
    // 2 x 2 frame, rows 12 bytes apart (4 bytes of padding each).
    let bgra: Vec<u8> = vec![
        1, 2, 3, 4, 5, 6, 7, 8, 0, 0, 0, 0, //
        9, 10, 11, 12, 13, 14, 15, 16, 0, 0, 0, 0,
    ];
    let rgba = bgra_to_rgba(&bgra, 2, 2, 12);
    assert_eq!(
        rgba,
        vec![3, 2, 1, 4, 7, 6, 5, 8, 11, 10, 9, 12, 15, 14, 13, 16]
    );
}

#[test]
fn empty_frames_give_empty_data() {
    assert!(bgra_to_rgba(&[], 0, 0, 0).is_empty());
    assert!(bgra_to_rgba(&[1, 2, 3, 4], 1, 0, 4).is_empty());
}

#[test]
fn converting_twice_restores_packed_frame() {
    let bgra: Vec<u8> = (0..48u8).collect();
    let once = bgra_to_rgba(&bgra, 4, 3, 16);
    let twice = bgra_to_rgba(&once, 4, 3, 16);
    assert_eq!(twice, bgra);
    assert_ne!(once, bgra);
}

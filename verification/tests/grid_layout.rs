use open_space::grid_layout::{center_main_display, grid_cell, grid_center_index, grid_rows, GRID_COLS};

#[test]
fn center_index_of_small_grids() {
    assert_eq!(grid_center_index(1), 0);
    assert_eq!(grid_center_index(2), 1);
    assert_eq!(grid_center_index(3), 1);
    assert_eq!(grid_center_index(4), 3);
    assert_eq!(grid_center_index(5), 4);
    assert_eq!(grid_center_index(6), 4);
    assert_eq!(grid_center_index(7), 4);
    assert_eq!(grid_center_index(9), 4);
    assert_eq!(grid_center_index(10), 7);
}

#[test]
fn rows_round_up() {
    assert_eq!(grid_rows(0), 0);
    assert_eq!(grid_rows(3), 1);
    assert_eq!(grid_rows(4), 2);
    assert_eq!(grid_rows(6), 2);
    assert_eq!(grid_rows(7), 3);
}

#[test]
fn cells_fill_rows_left_to_right() {
    assert_eq!(GRID_COLS, 3);
    assert_eq!(grid_cell(0), (0, 0));
    assert_eq!(grid_cell(2), (0, 2));
    assert_eq!(grid_cell(4), (1, 1));
    assert_eq!(grid_cell(5), (1, 2));
}

#[test]
fn main_moves_to_center_of_three() {
    let mut specs = vec![(7u32, 1u32, 1u32), (8, 2, 2), (9, 3, 3)];
    center_main_display(&mut specs, 7, |&(id, _, _)| id);
    assert_eq!(specs, vec![(8, 2, 2), (7, 1, 1), (9, 3, 3)]);
}

#[test]
fn main_moves_to_center_of_six() {
    let mut specs = vec![(1u32, 0u32, 0u32), (2, 0, 0), (3, 0, 0), (4, 0, 0), (5, 0, 0), (100, 0, 0)];
    center_main_display(&mut specs, 100, |&(id, _, _)| id);
    let ids: Vec<u32> = specs.iter().map(|s| s.0).collect();
    assert_eq!(ids, vec![1, 2, 3, 4, 100, 5]);
}

#[test]
fn main_already_in_last_slot_of_four_stays() {
    let mut specs = vec![(1u32, 0usize, 0usize), (2, 0, 0), (3, 0, 0), (100, 0, 0)];
    center_main_display(&mut specs, 100, |&(id, _, _)| id);
    let ids: Vec<u32> = specs.iter().map(|s| s.0).collect();
    assert_eq!(ids, vec![1, 2, 3, 100]);
}

#[test]
fn missing_main_leaves_order() {
    let mut specs = vec![(1u32, 0u32, 0u32), (2, 0, 0), (3, 0, 0)];
    center_main_display(&mut specs, 42, |&(id, _, _)| id);
    assert_eq!(specs, vec![(1, 0, 0), (2, 0, 0), (3, 0, 0)]);
}

#[test]
fn single_entry_is_untouched() {
    let mut specs = vec![(42u32, 0u32, 0u32)];
    center_main_display(&mut specs, 42, |&(id, _, _)| id);
    assert_eq!(specs, vec![(42, 0, 0)]);
    let mut empty: Vec<(u32, u32, u32)> = Vec::new();
    center_main_display(&mut empty, 42, |&(id, _, _)| id);
    assert!(empty.is_empty());
}

#[test]
fn first_of_duplicate_ids_is_moved() {
    let mut specs = vec![(5u32, 1u32, 0u32), (5, 2, 0), (6, 3, 0)];
    center_main_display(&mut specs, 5, |&(id, _, _)| id);
    assert_eq!(specs, vec![(5, 2, 0), (5, 1, 0), (6, 3, 0)]);
}

#[test]
fn centering_twice_changes_nothing() {
    let mut specs = vec![(1u32, 0u32, 0u32), (2, 0, 0), (3, 0, 0), (4, 0, 0), (9, 0, 0), (6, 0, 0), (7, 0, 0)];
    center_main_display(&mut specs, 9, |&(id, _, _)| id);
    let once = specs.clone();
    center_main_display(&mut specs, 9, |&(id, _, _)| id);
    assert_eq!(specs, once);
    assert_eq!(specs[4].0, 9);
}

//! Grid construction, cell mutators, and resize behavior.

use cellular_automaton::Automaton;

/// Flatten a slice of (row, col) pairs into the alternating coordinate list
/// that the cell-setting batch operations take.
fn flatten_locations(locations: &[(usize, usize)]) -> Vec<usize> {
    let mut flat = Vec::new();
    for &(row, col) in locations {
        flat.push(row);
        flat.push(col);
    }
    flat
}

/// Build an automaton with the given dimensions and live-cell locations.
fn build_automaton(width: usize, height: usize, locations: &[(usize, usize)]) -> Automaton {
    let mut a = Automaton::new(width, height);
    a.set_cells_on(&flatten_locations(locations));
    a
}

#[test]
fn test_automaton_new() {
    let a = Automaton::new(64, 64);
    assert_eq!(a.width(), 64);
    assert_eq!(a.height(), 64);
    assert_eq!(a.to_vec().len(), 64 * 64);
    assert!(a.to_vec().iter().all(|&cell| cell == 0));
    assert_eq!(a.generation(), 0);
}

#[test]
fn test_automaton_new_empty() {
    let a = Automaton::new(0, 5);
    assert_eq!(a.width(), 0);
    assert_eq!(a.height(), 5);
    assert_eq!(a.to_vec().len(), 0);
    let b = Automaton::new(7, 0);
    assert_eq!(b.to_vec().len(), 0);
}

#[test]
fn test_automaton_set_cells() {
    let mut a = Automaton::new(3, 3);
    a.set_cells(&flatten_locations(&[
        (0, 0),
        (0, 1),
        (0, 2),
        (1, 0),
        (1, 1),
        (1, 2),
        (2, 0),
        (2, 1),
        (2, 2),
    ]));
    assert_eq!(a.to_vec(), vec![1, 1, 1, 1, 1, 1, 1, 1, 1]);
}

#[test]
fn test_set_cells_out_of_range_ignored() {
    let mut a = Automaton::new(3, 3);
    a.set_cells_on(&[0, 0, 5, 1, 1, 7, 2, 2]);
    assert_eq!(a.to_vec(), vec![1, 0, 0, 0, 0, 0, 0, 0, 1]);
}

#[test]
fn test_set_cells_odd_batch_dropped() {
    let mut a = Automaton::new(3, 3);
    a.set_cells_on(&[0, 0, 1, 1, 2]);
    assert_eq!(a.to_vec(), vec![0, 0, 0, 0, 0, 0, 0, 0, 0]);
}

#[test]
fn test_automaton_set_all_cells() {
    let mut a = Automaton::new(3, 3);
    a.set_all_cells(1);
    assert_eq!(a.to_vec(), vec![1, 1, 1, 1, 1, 1, 1, 1, 1]);
    a.set_all_cells(0);
    assert_eq!(a.to_vec(), vec![0, 0, 0, 0, 0, 0, 0, 0, 0]);
}

#[test]
fn test_set_all_cells_resets_generation() {
    let mut a = Automaton::new(4, 4);
    a.step(3);
    assert_eq!(a.generation(), 3);
    a.set_all_cells(0);
    assert_eq!(a.generation(), 0);
}

#[test]
fn test_toggle_cell() {
    let mut a = Automaton::new(3, 2);
    a.toggle_cell(1, 2);
    assert_eq!(a.to_vec(), vec![0, 0, 0, 0, 0, 1]);
    a.toggle_cell(1, 2);
    assert_eq!(a.to_vec(), vec![0, 0, 0, 0, 0, 0]);
}

#[test]
fn test_toggle_cell_collapses_aged_state() {
    let mut a = Automaton::new(2, 1);
    a.set_all_cells(5);
    a.cell_toggle(0, 0);
    assert_eq!(a.to_vec(), vec![0, 5]);
}

#[test]
fn test_toggle_cell_out_of_range_is_noop() {
    let mut a = Automaton::new(2, 2);
    a.toggle_cell(2, 0);
    a.toggle_cell(0, 2);
    a.cell_toggle(9, 9);
    assert_eq!(a.to_vec(), vec![0, 0, 0, 0]);
}

#[test]
fn test_cells_view() {
    let mut a = Automaton::new(2, 2);
    a.toggle_cell(0, 1);
    assert_eq!(a.cells().as_slice(), &[0, 1, 0, 0]);
    assert_eq!(a.get_cells(), vec![0, 1, 0, 0]);
}

#[test]
fn test_automaton_set_width_larger() {
    let mut a = Automaton::new(3, 3);
    a.set_all_cells(1);
    a.set_width(4);
    assert_eq!(a.width(), 4);
    assert_eq!(a.to_vec(), vec![1, 1, 1, 0, 1, 1, 1, 0, 1, 1, 1, 0]);
}

#[test]
fn test_automaton_set_width_smaller() {
    let mut a = Automaton::new(3, 3);
    a.set_all_cells(1);
    a.set_width(2);
    assert_eq!(a.width(), 2);
    assert_eq!(a.to_vec(), vec![1, 1, 1, 1, 1, 1]);
}

#[test]
fn test_resize_width_round_trip() {
    let mut a = build_automaton(3, 2, &[(0, 0), (0, 2), (1, 1)]);
    let before = a.to_vec();
    a.resize_width(5);
    assert_eq!(a.to_vec(), vec![1, 0, 1, 0, 0, 0, 1, 0, 0, 0]);
    a.resize_width(3);
    assert_eq!(a.to_vec(), before);
}

#[test]
fn test_automaton_set_height_larger() {
    let mut a = Automaton::new(3, 3);
    a.set_all_cells(1);
    a.set_height(4);
    assert_eq!(a.height(), 4);
    assert_eq!(a.to_vec(), vec![1, 1, 1, 1, 1, 1, 1, 1, 1, 0, 0, 0]);
}

#[test]
fn test_automaton_set_height_smaller() {
    let mut a = Automaton::new(3, 3);
    a.set_all_cells(1);
    a.set_height(2);
    assert_eq!(a.height(), 2);
    assert_eq!(a.to_vec(), vec![1, 1, 1, 1, 1, 1]);
}

#[test]
fn test_resize_height_appends_zero_rows() {
    let mut a = build_automaton(2, 2, &[(0, 1), (1, 0)]);
    a.resize_height(4);
    assert_eq!(a.to_vec(), vec![0, 1, 1, 0, 0, 0, 0, 0]);
}

#[test]
fn test_resize_preserves_generation_and_rules() {
    let mut a = build_automaton(2, 2, &[(0, 0)]);
    a.step(2);
    a.resize_width(3);
    a.resize_height(3);
    assert_eq!(a.generation(), 2);
}

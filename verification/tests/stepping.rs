//! Generation stepping: toroidal wrap, known oscillators and spaceships,
//! batching, and generalized multi-state rules.

use cellular_automaton::{Automaton, Rules};

fn flatten_locations(locations: &[(usize, usize)]) -> Vec<usize> {
    let mut flat = Vec::new();
    for &(row, col) in locations {
        flat.push(row);
        flat.push(col);
    }
    flat
}

fn build_automaton(width: usize, height: usize, locations: &[(usize, usize)]) -> Automaton {
    let mut a = Automaton::new(width, height);
    a.set_cells_on(&flatten_locations(locations));
    a
}

#[test]
fn test_lone_cell_on_unit_grid_dies() {
    // On a 1x1 torus the cell is its own neighbor through all 8 offsets, so a
    // live cell sees count 8 and dies under Conway's rule.
    let mut a = build_automaton(1, 1, &[(0, 0)]);
    a.step(1);
    assert_eq!(a.to_vec(), vec![0]);
    assert_eq!(a.generation(), 1);
}

#[test]
fn test_automaton_wrapping() {
    // Two horizontal neighbors on a 2x2 torus each see the other through two
    // wrapped offsets, count 2, and survive unchanged.
    let mut a = build_automaton(2, 2, &[(0, 0), (0, 1)]);
    let same = build_automaton(2, 2, &[(0, 0), (0, 1)]);
    a.step(1);
    assert_eq!(a.to_vec(), same.to_vec());
}

#[test]
fn test_automaton_tick() {
    // One step of a glider on a 6x6 torus, against its precomputed successor.
    let mut a = build_automaton(6, 6, &[(1, 2), (2, 3), (3, 1), (3, 2), (3, 3)]);
    let next = build_automaton(6, 6, &[(2, 1), (2, 3), (3, 2), (3, 3), (4, 2)]);
    a.step(1);
    assert_eq!(a.to_vec(), next.to_vec());
}

#[test]
fn test_blinker_oscillates() {
    let mut a = build_automaton(5, 5, &[(2, 1), (2, 2), (2, 3)]);
    let vertical = build_automaton(5, 5, &[(1, 2), (2, 2), (3, 2)]);
    let horizontal = build_automaton(5, 5, &[(2, 1), (2, 2), (2, 3)]);
    a.step(1);
    assert_eq!(a.to_vec(), vertical.to_vec());
    a.step(1);
    assert_eq!(a.to_vec(), horizontal.to_vec());
}

#[test]
fn test_step_batch_equals_single_steps() {
    let mut batched = build_automaton(6, 6, &[(1, 2), (2, 3), (3, 1), (3, 2), (3, 3)]);
    let mut one_by_one = build_automaton(6, 6, &[(1, 2), (2, 3), (3, 1), (3, 2), (3, 3)]);
    batched.step(5);
    for _ in 0..5 {
        one_by_one.step(1);
    }
    assert_eq!(batched.to_vec(), one_by_one.to_vec());
    assert_eq!(batched.generation(), 5);
    assert_eq!(one_by_one.generation(), 5);
}

#[test]
fn test_step_counts_generations() {
    let mut a = Automaton::new(3, 3);
    a.step(2);
    a.step(3);
    assert_eq!(a.generation(), 5);
}

#[test]
fn test_step_on_empty_grid_is_idle() {
    let mut a = Automaton::new(0, 4);
    a.step(7);
    assert_eq!(a.to_vec().len(), 0);
    assert_eq!(a.generation(), 7);
}

#[test]
fn test_aging_states_do_not_count_as_neighbors() {
    // Aging states are not live first-generation neighbors: a state-1 cell
    // surrounded by state-2 cells sees neighbor count 0, not 8.
    let mut a = Automaton::new(5, 5);
    a.set_survival_rule(&[0]);
    a.set_generation_rule(3);
    a.set_all_cells(2);
    a.toggle_cell(2, 2);
    a.toggle_cell(2, 2);
    a.step(1);
    let cells = a.to_vec();
    assert_eq!(cells[2 * 5 + 2], 1);
    for (i, &cell) in cells.iter().enumerate() {
        if i != 2 * 5 + 2 {
            assert_eq!(cell, 3);
        }
    }
}

#[test]
fn test_step_zero_is_identity() {
    let mut a = build_automaton(4, 4, &[(0, 0), (1, 1), (2, 3)]);
    let before = a.to_vec();
    a.step(0);
    assert_eq!(a.to_vec(), before);
    assert_eq!(a.generation(), 0);
}

#[test]
fn test_custom_rules_age_then_die() {
    // Generations-style rule: birth on 3, survival on 2 or 3, states up to 3.
    // A lone cell in state 2 on a 1x1 torus has neighbor count 0: it ages to
    // 3, then dies to 0.
    let mut a = Automaton::new(1, 1);
    a.set_birth_rule(&[3]);
    a.set_survival_rule(&[2, 3]);
    a.set_generation_rule(3);
    a.set_all_cells(2);
    a.step(1);
    assert_eq!(a.to_vec(), vec![3]);
    a.step(1);
    assert_eq!(a.to_vec(), vec![0]);
}

#[test]
fn test_survivor_stays_at_first_generation() {
    // Under a generations rule a surviving first-generation cell stays at
    // state 1 rather than aging: two mutual neighbors on a 2x2 torus each see
    // count 2 and keep state 1.
    let mut a = build_automaton(2, 2, &[(0, 0), (0, 1)]);
    a.set_generation_rule(9);
    a.step(1);
    assert_eq!(a.to_vec(), vec![1, 1, 0, 0]);
}

#[test]
fn test_empty_rules_kill_everything() {
    let mut a = Automaton::new(3, 3);
    a.set_all_cells(1);
    a.set_survival_rule(&[]);
    a.set_birth_rule(&[]);
    a.step(1);
    assert_eq!(a.to_vec(), vec![0, 0, 0, 0, 0, 0, 0, 0, 0]);
}

#[test]
fn test_rules_apply_transition_table() {
    let conway = Rules::default();
    assert_eq!(conway.apply(0, 3), 1);
    assert_eq!(conway.apply(0, 2), 0);
    assert_eq!(conway.apply(1, 2), 1);
    assert_eq!(conway.apply(1, 3), 1);
    assert_eq!(conway.apply(1, 1), 0);
    assert_eq!(conway.apply(1, 4), 0);
    assert_eq!(conway.apply(2, 3), 0);
}

#[test]
fn test_rules_apply_generations_aging() {
    // A cell in state 2 with neighbor count 4 ages to 3, and from state 3 the
    // same environment kills it.
    let generations = Rules { survival: vec![2, 3], birth: vec![3], generation: 3 };
    assert_eq!(generations.apply(2, 4), 3);
    assert_eq!(generations.apply(3, 4), 0);
    assert_eq!(generations.apply(1, 4), 2);
    assert_eq!(generations.apply(0, 4), 0);
    assert_eq!(generations.apply(0, 3), 1);
}

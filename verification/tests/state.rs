use std::collections::HashSet;
use tictactoe_engine::state::State;

fn chars(s: &str) -> Vec<char> {
    s.chars().collect()
}

fn codes(state: &State) -> Vec<usize> {
    (0..=9).map(|i| state.get(i)).collect()
}

#[test]
fn new_state_is_empty_with_cross_to_move() {
    let s = State::new();
    assert_eq!(codes(&s), vec![1, 0, 0, 0, 0, 0, 0, 0, 0, 0]);
}

#[test]
fn switch_turn_exchanges_the_players() {
    let mut s = State::new();
    s.switch_turn();
    assert_eq!(s.get(0), 2);
    s.switch_turn();
    assert_eq!(s.get(0), 1);
}

#[test]
fn set_marks_the_cell_for_the_mover_and_passes_the_turn() {
    let mut s = State::new();
    s.set(5);
    assert_eq!(codes(&s), vec![2, 0, 0, 0, 0, 1, 0, 0, 0, 0]);
    s.set(1);
    assert_eq!(codes(&s), vec![1, 2, 0, 0, 0, 1, 0, 0, 0, 0]);
    s.set(9);
    assert_eq!(codes(&s), vec![2, 2, 0, 0, 0, 1, 0, 0, 0, 1]);
}

#[test]
fn set_reaches_every_cell() {
    for cell in 1..=9 {
        let mut s = State::new();
        s.set(cell);
        for other in 1..=9 {
            assert_eq!(s.get(other), if other == cell { 1 } else { 0 });
        }
        assert_eq!(s.get(0), 2);
    }
}

#[test]
fn unset_clears_the_cell_and_passes_the_turn_back() {
    let mut s = State::new();
    s.set(3);
    s.unset(3);
    assert_eq!(codes(&s), vec![1, 0, 0, 0, 0, 0, 0, 0, 0, 0]);
}

#[test]
fn undo_restores_the_position_for_every_empty_cell() {
    let mut s = State::new();
    s.update(chars("xo--x---o"), 'x');
    let before = s.clone();
    for cell in 1..=9 {
        if s.get(cell) == 0 {
            s.set(cell);
            assert_ne!(s, before);
            s.unset(cell);
            assert_eq!(s, before);
        }
    }
}

#[test]
fn nested_moves_undone_in_reverse_order_restore_the_position() {
    let mut s = State::new();
    let before = s.clone();
    s.set(1);
    s.set(5);
    s.set(9);
    s.unset(9);
    s.unset(5);
    s.unset(1);
    assert_eq!(s, before);
}

#[test]
fn update_reads_the_board_in_row_major_order() {
    let mut s = State::new();
    s.update(chars("xo-ox-x-o"), 'o');
    assert_eq!(codes(&s), vec![2, 1, 2, 0, 2, 1, 0, 1, 0, 2]);
}

#[test]
fn update_with_cross_to_move() {
    let mut s = State::new();
    s.update(chars("---------"), 'o');
    s.update(chars("o--------"), 'x');
    assert_eq!(codes(&s), vec![1, 2, 0, 0, 0, 0, 0, 0, 0, 0]);
}

#[test]
fn update_with_an_unknown_turn_changes_nothing() {
    let mut s = State::new();
    s.update(chars("xo-ox-x-o"), 'o');
    let before = s.clone();
    s.update(chars("---------"), '-');
    assert_eq!(s, before);
    s.update(chars("---------"), 'X');
    assert_eq!(s, before);
}

#[test]
fn update_with_an_unknown_cell_changes_nothing() {
    let mut s = State::new();
    s.update(chars("xo-ox-x-o"), 'o');
    let before = s.clone();
    s.update(chars("----?----"), 'x');
    assert_eq!(s, before);
    s.update(chars("xxxxxxxxX"), 'x');
    assert_eq!(s, before);
}

#[test]
fn update_with_a_short_board_leaves_the_rest_empty() {
    let mut s = State::new();
    s.update(chars("xo-ox-x-o"), 'o');
    s.update(chars("xo"), 'x');
    assert_eq!(codes(&s), vec![1, 1, 2, 0, 0, 0, 0, 0, 0, 0]);
    s.update(Vec::new(), 'o');
    assert_eq!(codes(&s), vec![2, 0, 0, 0, 0, 0, 0, 0, 0, 0]);
}

#[test]
fn update_looks_at_the_first_nine_cells_only() {
    let mut s = State::new();
    s.update(chars("xoxoxoxox?!"), 'x');
    assert_eq!(codes(&s), vec![1, 1, 2, 1, 2, 1, 2, 1, 2, 1]);
}

#[test]
fn equal_positions_compare_equal_however_they_were_reached() {
    let mut a = State::new();
    a.set(1);
    a.set(5);
    a.set(9);
    let mut b = State::new();
    b.set(9);
    b.set(5);
    b.set(1);
    assert_eq!(a, b);
    let mut c = State::new();
    c.update(chars("x---o---x"), 'o');
    assert_eq!(a, c);
}

#[test]
fn positions_that_differ_in_turn_or_cell_compare_unequal() {
    let mut a = State::new();
    a.update(chars("x---o---x"), 'o');
    let mut b = State::new();
    b.update(chars("x---o---x"), 'x');
    assert_ne!(a, b);
    let mut c = State::new();
    c.update(chars("x---o--x-"), 'o');
    assert_ne!(a, c);
}

#[test]
fn clone_is_equal_and_independent() {
    let mut a = State::new();
    a.set(4);
    let b = a.clone();
    assert_eq!(a, b);
    a.set(6);
    assert_ne!(a, b);
    assert_eq!(b.get(6), 0);
    assert_eq!(b.get(4), 1);
}

#[test]
fn equal_positions_hash_alike() {
    let mut a = State::new();
    a.set(2);
    a.set(7);
    a.set(3);
    let mut b = State::new();
    b.set(3);
    b.set(7);
    b.set(2);
    let mut seen = HashSet::new();
    assert!(seen.insert(a));
    assert!(!seen.insert(b));
    assert!(seen.insert(State::new()));
    assert_eq!(seen.len(), 2);
}

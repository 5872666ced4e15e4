//! Tests for the grid: cell access, full-row detection, single-row
//! clearing with collapse, and the line-clear pass with its game-over
//! rule.

use tetris::grid::{CellState, ClearOutcome, Grid};
use tetris::{COL, ROW};

fn frozen_count(g: &Grid) -> u32 {
    let mut n = 0;
    for y in 0..ROW {
        for x in 0..COL {
            if g.cell_state(x, y) == CellState::Frozen {
                n += 1;
            }
        }
    }
    n
}

fn fill_row_frozen(g: &mut Grid, y: i32) {
    for x in 0..COL {
        g.set_state(x, y, CellState::Frozen);
    }
}

#[test]
fn new_grid_is_all_empty() {
    let g = Grid::new();
    for y in 0..ROW {
        for x in 0..COL {
            assert_eq!(g.cell_state(x, y), CellState::Empty);
        }
    }
}

#[test]
fn set_state_writes_one_cell() {
    let mut g = Grid::new();
    g.set_state(3, 5, CellState::Frozen);
    g.set_state(4, 5, CellState::Transient);
    assert_eq!(g.cell_state(3, 5), CellState::Frozen);
    assert_eq!(g.cell_state(4, 5), CellState::Transient);
    assert_eq!(g.cell_state(5, 5), CellState::Empty);
    assert_eq!(g.cell_state(3, 6), CellState::Empty);
}

#[test]
fn full_row_needs_every_column_frozen() {
    let mut g = Grid::new();
    for x in 0..COL - 1 {
        g.set_state(x, 3, CellState::Frozen);
    }
    assert!(!g.is_row_full(3));
    g.set_state(COL - 1, 3, CellState::Frozen);
    assert!(g.is_row_full(3));
    assert!(!g.is_row_full(2));
}

#[test]
fn transient_cells_do_not_make_a_row_full() {
    let mut g = Grid::new();
    for x in 0..COL {
        g.set_state(x, 0, CellState::Transient);
    }
    assert!(!g.is_row_full(0));
}

#[test]
fn full_rows_lists_exactly_the_full_rows_in_order() {
    let mut g = Grid::new();
    assert!(g.full_rows().is_empty());
    fill_row_frozen(&mut g, 7);
    fill_row_frozen(&mut g, 2);
    for x in 0..COL - 1 {
        g.set_state(x, 12, CellState::Frozen);
    }
    assert_eq!(g.full_rows(), vec![2, 7]);
}

#[test]
fn clearing_a_non_full_row_is_a_no_op() {
    let mut g = Grid::new();
    g.set_state(2, 5, CellState::Frozen);
    g.set_state(7, 9, CellState::Frozen);
    let cleared = g.clear_row_and_collapse(5);
    assert!(!cleared);
    assert_eq!(g.cell_state(2, 5), CellState::Frozen);
    assert_eq!(g.cell_state(7, 9), CellState::Frozen);
    assert_eq!(frozen_count(&g), 2);
}

#[test]
fn clearing_a_full_row_shifts_higher_rows_down() {
    let mut g = Grid::new();
    fill_row_frozen(&mut g, 2);
    g.set_state(0, 1, CellState::Frozen);
    g.set_state(4, 7, CellState::Frozen);
    g.set_state(11, 19, CellState::Frozen);
    let before = frozen_count(&g);
    let cleared = g.clear_row_and_collapse(2);
    assert!(cleared);
    assert_eq!(frozen_count(&g), before - COL as u32);
    assert_eq!(g.cell_state(0, 1), CellState::Frozen);
    assert_eq!(g.cell_state(4, 6), CellState::Frozen);
    assert_eq!(g.cell_state(4, 7), CellState::Empty);
    assert_eq!(g.cell_state(11, 18), CellState::Frozen);
    for x in 0..COL {
        assert_eq!(g.cell_state(x, 2), CellState::Empty);
        assert_eq!(g.cell_state(x, ROW - 1), CellState::Empty);
    }
}

#[test]
fn clear_pass_without_a_full_row_changes_nothing() {
    let mut g = Grid::new();
    g.set_state(5, 0, CellState::Frozen);
    assert_eq!(g.clear_pass(), ClearOutcome::NoFullRow);
    assert_eq!(g.cell_state(5, 0), CellState::Frozen);
    assert_eq!(frozen_count(&g), 1);
}

#[test]
fn clear_pass_removes_the_lowest_full_row_first() {
    let mut g = Grid::new();
    fill_row_frozen(&mut g, 6);
    fill_row_frozen(&mut g, 3);
    assert_eq!(g.clear_pass(), ClearOutcome::Cleared(3));
    // the other full row moved down one and goes on the next pass
    assert!(g.is_row_full(5));
    assert_eq!(g.clear_pass(), ClearOutcome::Cleared(5));
    assert_eq!(frozen_count(&g), 0);
}

#[test]
fn full_bottom_row_is_cleared_and_everything_drops() {
    let mut g = Grid::new();
    fill_row_frozen(&mut g, 0);
    g.set_state(3, 1, CellState::Frozen);
    let before = frozen_count(&g);
    assert_eq!(before, COL as u32 + 1);
    assert_eq!(g.clear_pass(), ClearOutcome::Cleared(0));
    assert_eq!(frozen_count(&g), before - COL as u32);
    assert_eq!(g.cell_state(3, 0), CellState::Frozen);
    for x in 0..COL {
        assert_eq!(g.cell_state(x, ROW - 1), CellState::Empty);
        if x != 3 {
            assert_eq!(g.cell_state(x, 0), CellState::Empty);
        }
    }
}

#[test]
fn frozen_cell_in_top_row_stops_every_clear() {
    let mut g = Grid::new();
    fill_row_frozen(&mut g, 0);
    g.set_state(4, ROW - 1, CellState::Frozen);
    let before = frozen_count(&g);
    assert_eq!(g.clear_pass(), ClearOutcome::GameOver);
    assert_eq!(frozen_count(&g), before);
    assert!(g.is_row_full(0));
    // the condition persists: every later pass reports game over again
    assert_eq!(g.clear_pass(), ClearOutcome::GameOver);
    assert_eq!(g.clear_pass(), ClearOutcome::GameOver);
    assert_eq!(frozen_count(&g), before);
}

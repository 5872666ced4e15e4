//! Tests for the falling piece: footprint-atomic movement, rotation
//! roll-back, gravity, freezing, and the footprint projection.

use tetris::geometry::{Pos, Rotation, Shape};
use tetris::grid::{CellState, Grid};
use tetris::piece::CurrentElement;
use tetris::{COL, ROW};

fn piece(shape: Shape, x: i32, y: i32) -> CurrentElement {
    CurrentElement {
        central_location: Pos { x, y },
        shape,
        direction: Rotation::Up,
        frozen: false,
    }
}

#[test]
fn initialize_resets_to_the_spawn_state() {
    let mut p = piece(Shape::T, 2, 3);
    p.direction = Rotation::Down;
    p.frozen = true;
    p.initialize(Shape::S);
    assert_eq!(p.central_location, Pos { x: COL / 2, y: ROW - 1 });
    assert_eq!(p.shape, Shape::S);
    assert_eq!(p.direction, Rotation::Up);
    assert!(!p.frozen);
}

#[test]
fn square_match_lists_the_four_footprint_cells() {
    let p = piece(Shape::O, 6, 10);
    let mut cells = p
        .square_match()
        .into_iter()
        .map(|c| (c.x, c.y))
        .collect::<Vec<_>>();
    cells.sort();
    assert_eq!(cells, vec![(5, 10), (5, 11), (6, 10), (6, 11)]);
}

#[test]
fn a_wall_vetoes_the_whole_move() {
    let g = Grid::new();
    // the O footprint spans columns x-1 and x: at x = 1 it touches the wall
    let mut p = piece(Shape::O, 1, 10);
    p.left(&g);
    assert_eq!(p.central_location, Pos { x: 1, y: 10 });
    p.right(&g);
    assert_eq!(p.central_location, Pos { x: 2, y: 10 });
    let mut q = piece(Shape::O, COL - 1, 10);
    q.right(&g);
    assert_eq!(q.central_location, Pos { x: COL - 1, y: 10 });
}

#[test]
fn one_frozen_cell_vetoes_the_whole_move() {
    let mut g = Grid::new();
    // the I piece lies on columns 3..=6 at row 10; block only column 2
    g.set_state(2, 10, CellState::Frozen);
    let mut p = piece(Shape::I, 5, 10);
    p.left(&g);
    assert_eq!(p.central_location, Pos { x: 5, y: 10 });
    // the same cells one row lower are free
    let mut q = piece(Shape::I, 5, 11);
    q.left(&g);
    assert_eq!(q.central_location, Pos { x: 4, y: 11 });
}

#[test]
fn rotation_is_rolled_back_as_a_unit() {
    let g = Grid::new();
    // a vertical I piece hugging the left wall cannot turn horizontal:
    // the horizontal footprint would reach columns -2 and -1
    let mut p = piece(Shape::I, 0, 10);
    p.direction = Rotation::Right;
    p.rotate(&g);
    assert_eq!(p.direction, Rotation::Right);
    // away from the wall the same rotation goes through
    let mut q = piece(Shape::I, 5, 10);
    q.direction = Rotation::Right;
    q.rotate(&g);
    assert_eq!(q.direction, Rotation::Down);
}

#[test]
fn rotation_is_rejected_below_the_floor() {
    let g = Grid::new();
    // a horizontal I piece on the floor cannot turn vertical: the
    // vertical footprint would reach rows -1 and -2
    let mut p = piece(Shape::I, 5, 0);
    p.rotate(&g);
    assert_eq!(p.direction, Rotation::Up);
}

#[test]
fn rotation_is_rejected_on_frozen_cells() {
    let mut g = Grid::new();
    g.set_state(5, 11, CellState::Frozen);
    // a horizontal I piece under the frozen cell cannot turn vertical
    let mut p = piece(Shape::I, 5, 10);
    p.rotate(&g);
    assert_eq!(p.direction, Rotation::Up);
}

#[test]
fn four_accepted_rotations_restore_the_footprint() {
    let g = Grid::new();
    let mut p = piece(Shape::T, 6, 10);
    let before = p.square_match();
    for _ in 0..4 {
        p.rotate(&g);
    }
    assert_eq!(p.direction, Rotation::Up);
    let after = p.square_match();
    assert_eq!(
        before.iter().map(|c| (c.x, c.y)).collect::<Vec<_>>(),
        after.iter().map(|c| (c.x, c.y)).collect::<Vec<_>>()
    );
}

#[test]
fn advance_drops_one_row_while_nothing_is_below() {
    let mut g = Grid::new();
    let mut p = piece(Shape::T, 6, 10);
    p.advance(&mut g);
    assert_eq!(p.central_location, Pos { x: 6, y: 9 });
    assert!(!p.frozen);
}

#[test]
fn advance_freezes_on_the_floor() {
    let mut g = Grid::new();
    // the O footprint occupies rows y and y+1: at y = 0 it rests on the floor
    let mut p = piece(Shape::O, 6, 0);
    p.advance(&mut g);
    assert!(p.frozen);
    assert_eq!(p.central_location, Pos { x: 6, y: 0 });
    for &(x, y) in [(5, 0), (6, 0), (5, 1), (6, 1)].iter() {
        assert_eq!(g.cell_state(x, y), CellState::Frozen);
    }
}

#[test]
fn advance_freezes_on_a_frozen_stack() {
    let mut g = Grid::new();
    g.set_state(5, 4, CellState::Frozen);
    let mut p = piece(Shape::O, 6, 5);
    p.advance(&mut g);
    assert!(p.frozen);
    assert_eq!(p.central_location, Pos { x: 6, y: 5 });
    for &(x, y) in [(5, 5), (6, 5), (5, 6), (6, 6)].iter() {
        assert_eq!(g.cell_state(x, y), CellState::Frozen);
    }
}

#[test]
fn o_piece_falls_nineteen_rows_then_freezes() {
    let mut g = Grid::new();
    let mut p = piece(Shape::O, 6, 19);
    // spawn footprint: rows 19 and 20, columns 5 and 6
    let mut cells = p
        .square_match()
        .into_iter()
        .map(|c| (c.x, c.y))
        .collect::<Vec<_>>();
    cells.sort();
    assert_eq!(cells, vec![(5, 19), (5, 20), (6, 19), (6, 20)]);
    for step in 1..=19 {
        p.advance(&mut g);
        assert!(!p.frozen);
        assert_eq!(p.central_location.y, 19 - step);
    }
    assert_eq!(p.central_location.y, 0);
    p.advance(&mut g);
    assert!(p.frozen);
    assert_eq!(p.central_location.y, 0);
    for &(x, y) in [(5, 0), (6, 0), (5, 1), (6, 1)].iter() {
        assert_eq!(g.cell_state(x, y), CellState::Frozen);
    }
}

#[test]
fn projection_marks_the_footprint_and_sweeps_stale_cells() {
    let mut g = Grid::new();
    g.set_state(0, 0, CellState::Frozen);
    g.set_state(9, 9, CellState::Transient);
    let p = piece(Shape::O, 6, 10);
    p.project(&mut g);
    for &(x, y) in [(5, 10), (6, 10), (5, 11), (6, 11)].iter() {
        assert_eq!(g.cell_state(x, y), CellState::Transient);
    }
    assert_eq!(g.cell_state(9, 9), CellState::Empty);
    assert_eq!(g.cell_state(0, 0), CellState::Frozen);
    let mut transients = 0;
    for y in 0..ROW {
        for x in 0..COL {
            if g.cell_state(x, y) == CellState::Transient {
                transients += 1;
            }
        }
    }
    assert_eq!(transients, 4);
}

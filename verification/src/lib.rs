//! Core engine of a falling-block puzzle game.
//!
//! The library tracks a fixed grid of cells, the currently falling piece,
//! shape-rotation geometry, collision and freeze detection, and line
//! clearing.  Rendering and input polling are left to the host program,
//! which feeds discrete commands and gravity ticks into [`game::Game`] and
//! reads back the occupancy state of every cell.

use vstd::prelude::*;

pub mod geometry;
pub mod grid;
pub mod piece;
pub mod game;

verus! {

/// Number of columns in the play field.
pub const COL: i32 = 12;

/// Number of rows in the play field; row 0 is the floor.
pub const ROW: i32 = 20;

} // verus!

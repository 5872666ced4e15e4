//! The game-loop driver.
//!
//! The driver owns the grid and the falling piece.  The host layer feeds
//! it discrete input events and gravity ticks; the driver applies
//! validated moves, resolves freezing, runs the line-clear pass, and
//! spawns a fresh piece of random shape when the previous one settled.

use vstd::prelude::*;

use crate::geometry::{lemma_contains_of_four, lemma_offsets_shape, footprint, Pos, Rotation,
    Shape};
use crate::grid::{game_over_spec, pass_sheet, CellState, ClearOutcome, Grid, empty_row};
use crate::piece::{freeze_sheet, moved_piece, project_sheet, rotated_piece, CurrentElement};
use crate::{COL, ROW};

verus! {

/// A discrete input event from the host layer.
#[derive(Clone, Copy, PartialEq, Eq, Structural, Debug)]
pub enum Command {
    /// Try to move the falling piece one column to the left.
    MoveLeft,
    /// Try to move the falling piece one column to the right.
    MoveRight,
    /// Try to rotate the falling piece one clockwise step.
    Rotate,
    /// Speed gravity up until the current piece settles.
    SoftDropOn,
}

/// Gravity interval in milliseconds while falling normally.
pub const GRAVITY_MS: u64 = 500;

/// Gravity interval in milliseconds while soft-dropping.
pub const SOFT_DROP_MS: u64 = 10;

/// Relies on rand::thread_rng and rand::Rng::gen_range: a draw from the
/// nonempty range `1..8` lies within it and does not panic.  Which value
/// comes back is left open: the shape choice is random.
#[verifier::external_body]
fn draw_shape_ordinal() -> (n: i32)
    ensures
        1 <= n <= 7,
{
    rand::Rng::gen_range(&mut rand::thread_rng(), 1..8)
}

/// The shape each ordinal in `1..=7` denotes.
pub open spec fn shape_of_ordinal_spec(n: int) -> Shape {
    if n == 1 {
        Shape::I
    } else if n == 2 {
        Shape::J
    } else if n == 3 {
        Shape::L
    } else if n == 4 {
        Shape::O
    } else if n == 5 {
        Shape::S
    } else if n == 6 {
        Shape::T
    } else {
        Shape::Z
    }
}

/// The shape a drawn ordinal denotes.
pub fn shape_of_ordinal(n: i32) -> (s: Shape)
    requires
        1 <= n <= 7,
    ensures
        s == shape_of_ordinal_spec(n as int),
{
    if n == 1 {
        Shape::I
    } else if n == 2 {
        Shape::J
    } else if n == 3 {
        Shape::L
    } else if n == 4 {
        Shape::O
    } else if n == 5 {
        Shape::S
    } else if n == 6 {
        Shape::T
    } else {
        Shape::Z
    }
}

/// Draw a random shape for the next spawn.
fn random_shape() -> Shape {
    let n = draw_shape_ordinal();
    shape_of_ordinal(n)
}

/// A sheet of `ROW` all-empty rows: the view of a fresh grid.
pub open spec fn empty_sheet() -> Seq<Seq<CellState>> {
    Seq::new(ROW as nat, |y: int| empty_row())
}

/// The whole core game state: the grid, the falling piece, the terminal
/// flag, and the soft-drop speed flag.
pub struct Game {
    /// The play field.
    pub grid: Grid,
    /// The one live falling piece.
    pub current: CurrentElement,
    /// Set once the line-clear pass signals game over; gravity and
    /// spawning halt.
    pub over: bool,
    /// Whether the host timer should run at the soft-drop interval.
    pub soft_drop: bool,
}

impl Game {
    /// Well-formed: grid dimensions hold, the piece anchor is inside the
    /// field, and while the game runs the piece is falling with its whole
    /// footprint between the walls.
    pub open spec fn wf(self) -> bool {
        &&& self.grid.wf()
        &&& self.current.wf()
        &&& !self.over ==> !self.current.frozen
        &&& !self.current.frozen ==> self.current.in_field()
    }

    /// A freshly spawned piece: anchor at the top centre, rotation up,
    /// falling.
    pub open spec fn spawn_spec(shape: Shape) -> CurrentElement {
        CurrentElement {
            central_location: Pos { x: (COL / 2) as i32, y: (ROW - 1) as i32 },
            shape,
            direction: Rotation::Up,
            frozen: false,
        }
    }

    /// A fresh game: an empty grid with one spawned piece of random shape
    /// projected onto it, at normal gravity speed.
    pub fn new() -> (g: Game)
        ensures
            g.wf(),
            !g.over,
            !g.soft_drop,
            g.current == Game::spawn_spec(g.current.shape),
            g.grid@ == project_sheet(
                empty_sheet(),
                g.current.shape,
                Rotation::Up,
                (COL / 2) as int,
                (ROW - 1) as int,
            ),
    {
        let mut grid = Grid::new();
        let shape = random_shape();
        let current = CurrentElement {
            central_location: Pos { x: COL / 2, y: ROW - 1 },
            shape,
            direction: Rotation::Up,
            frozen: false,
        };
        proof {
            lemma_spawn_in_field(shape);
            assert(grid@ =~= empty_sheet());
        }
        current.project(&mut grid);
        Game { grid, current, over: false, soft_drop: false }
    }

    /// The current gravity-tick interval for the host timer.
    pub fn gravity_interval_ms(&self) -> (ms: u64)
        ensures
            ms == if self.soft_drop {
                SOFT_DROP_MS
            } else {
                GRAVITY_MS
            },
    {
        if self.soft_drop {
            SOFT_DROP_MS
        } else {
            GRAVITY_MS
        }
    }

    /// Apply one input event.  Moves and rotations are validated
    /// footprint-wide and the piece is re-projected; soft-drop only
    /// shortens the gravity interval.  After game over every command is
    /// a no-op.
    pub fn handle(&mut self, cmd: Command)
        requires
            old(self).wf(),
        ensures
            final(self).wf(),
            old(self).over ==> *final(self) == *old(self),
            !old(self).over ==> final(self).over == old(self).over && match cmd {
                Command::MoveLeft => final(self).current == moved_piece(
                    old(self).current,
                    old(self).grid@,
                    -1,
                ) && final(self).grid@ == project_sheet(
                    old(self).grid@,
                    final(self).current.shape,
                    final(self).current.direction,
                    final(self).current.ax(),
                    final(self).current.ay(),
                ) && final(self).soft_drop == old(self).soft_drop,
                Command::MoveRight => final(self).current == moved_piece(
                    old(self).current,
                    old(self).grid@,
                    1,
                ) && final(self).grid@ == project_sheet(
                    old(self).grid@,
                    final(self).current.shape,
                    final(self).current.direction,
                    final(self).current.ax(),
                    final(self).current.ay(),
                ) && final(self).soft_drop == old(self).soft_drop,
                Command::Rotate => final(self).current == rotated_piece(
                    old(self).current,
                    old(self).grid@,
                ) && final(self).grid@ == project_sheet(
                    old(self).grid@,
                    final(self).current.shape,
                    final(self).current.direction,
                    final(self).current.ax(),
                    final(self).current.ay(),
                ) && final(self).soft_drop == old(self).soft_drop,
                Command::SoftDropOn => *final(self) == (Game { soft_drop: true, ..*old(self) }),
            },
    {
        if self.over {
            return ;
        }
        match cmd {
            Command::MoveLeft => {
                self.current.left(&self.grid);
                self.current.project(&mut self.grid);
            },
            Command::MoveRight => {
                self.current.right(&self.grid);
                self.current.project(&mut self.grid);
            },
            Command::Rotate => {
                self.current.rotate(&self.grid);
                self.current.project(&mut self.grid);
            },
            Command::SoftDropOn => {
                self.soft_drop = true;
            },
        }
    }

    /// One gravity tick.  A falling piece drops one row or settles where
    /// it stands; a settled piece triggers the line-clear pass, and then
    /// either the game ends or a fresh random piece spawns at normal
    /// gravity speed.
    pub fn tick(&mut self)
        requires
            old(self).wf(),
        ensures
            final(self).wf(),
            old(self).over ==> *final(self) == *old(self),
            !old(self).over && !old(self).current.settles(old(self).grid@) ==> final(self).current
                == (CurrentElement {
                central_location: Pos {
                    x: old(self).current.central_location.x,
                    y: (old(self).current.ay() - 1) as i32,
                },
                ..old(self).current
            }) && final(self).grid@ == project_sheet(
                old(self).grid@,
                old(self).current.shape,
                old(self).current.direction,
                old(self).current.ax(),
                old(self).current.ay() - 1,
            ) && !final(self).over && final(self).soft_drop == old(self).soft_drop,
            !old(self).over && old(self).current.settles(old(self).grid@) ==> ({
                let gf = freeze_sheet(
                    old(self).grid@,
                    old(self).current.shape,
                    old(self).current.direction,
                    old(self).current.ax(),
                    old(self).current.ay(),
                );
                &&& game_over_spec(gf) ==> final(self).over
                    && final(self).grid@ == gf
                    && final(self).current == (CurrentElement { frozen: true, ..old(self).current })
                    && final(self).soft_drop == old(self).soft_drop
                &&& !game_over_spec(gf) ==> !final(self).over
                    && !final(self).soft_drop
                    && final(self).current == Game::spawn_spec(final(self).current.shape)
                    && final(self).grid@ == project_sheet(
                    pass_sheet(gf),
                    final(self).current.shape,
                    Rotation::Up,
                    (COL / 2) as int,
                    (ROW - 1) as int,
                )
            }),
    {
        if self.over {
            return ;
        }
        self.current.advance(&mut self.grid);
        if self.current.frozen {
            let outcome = self.grid.clear_pass();
            match outcome {
                ClearOutcome::GameOver => {
                    self.over = true;
                },
                _ => {
                    self.soft_drop = false;
                    let shape = random_shape();
                    self.current.initialize(shape);
                    proof {
                        lemma_spawn_in_field(shape);
                    }
                    self.current.project(&mut self.grid);
                },
            }
        } else {
            self.current.project(&mut self.grid);
        }
    }
}

/// A freshly spawned piece lies inside the walls and at or above the
/// floor, whatever its shape: its offsets reach at most two cells out
/// from the top-centre anchor.
pub proof fn lemma_spawn_in_field(shape: Shape)
    ensures
        Game::spawn_spec(shape).wf(),
        Game::spawn_spec(shape).in_field(),
{
    let p = Game::spawn_spec(shape);
    let fp = footprint(shape, Rotation::Up, p.ax(), p.ay());
    lemma_offsets_shape(shape, Rotation::Up);
    assert forall|c: (int, int)| #[trigger] fp.contains(c) implies 0 <= c.0 < COL && 0 <= c.1 by {
        lemma_contains_of_four(fp, c);
    }
}

} // verus!

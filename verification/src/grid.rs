//! The play field: a fixed `COL` x `ROW` matrix of cells.
//!
//! The grid owns every cell.  It answers row-occupancy queries, takes
//! direct cell writes from the piece projection, and performs the
//! line-clear pass: full-row detection, the game-over check, and
//! single-row removal with shift-down and refill.

use vstd::prelude::*;

use crate::{COL, ROW};

verus! {

/// Occupancy state of one grid cell.
#[derive(Clone, Copy, PartialEq, Eq, Structural, Debug)]
pub enum CellState {
    /// Nothing covers the cell.
    Empty,
    /// The still-falling piece covers the cell.
    Transient,
    /// A settled piece covers the cell permanently.
    Frozen,
}

/// Outcome of one line-clear pass.
#[derive(Clone, Copy, PartialEq, Eq, Structural, Debug)]
pub enum ClearOutcome {
    /// The topmost row holds a frozen cell; nothing was cleared.
    GameOver,
    /// The lowest full row, which was removed.
    Cleared(i32),
    /// No row was full; the grid is unchanged.
    NoFullRow,
}

/// A row of `COL` empty cells.
pub open spec fn empty_row() -> Seq<CellState> {
    Seq::new(COL as nat, |x: int| CellState::Empty)
}

/// A sheet of rows is well formed when it has exactly `ROW` rows of `COL`
/// cells each.
pub open spec fn sheet_wf(g: Seq<Seq<CellState>>) -> bool {
    g.len() == ROW && forall|y: int| 0 <= y < ROW ==> (#[trigger] g[y]).len() == COL
}

/// A row is full when every one of its cells is frozen.
pub open spec fn row_full(row: Seq<CellState>) -> bool {
    forall|x: int| 0 <= x < COL ==> #[trigger] row[x] == CellState::Frozen
}

/// The game is over when the topmost row holds at least one frozen cell.
pub open spec fn game_over_spec(g: Seq<Seq<CellState>>) -> bool {
    exists|x: int| 0 <= x < COL && #[trigger] g[ROW - 1][x] == CellState::Frozen
}

/// Number of frozen cells in one row.
pub open spec fn frozen_in_row(row: Seq<CellState>) -> int
    decreases row.len(),
{
    if row.len() == 0 {
        0
    } else {
        frozen_in_row(row.drop_last()) + if row.last() == CellState::Frozen {
            1int
        } else {
            0int
        }
    }
}

/// Number of frozen cells in a whole sheet of rows.
pub open spec fn total_frozen(g: Seq<Seq<CellState>>) -> int
    decreases g.len(),
{
    if g.len() == 0 {
        0
    } else {
        total_frozen(g.drop_last()) + frozen_in_row(g.last())
    }
}

/// The sheet after clearing row `y`: the row disappears, every row above
/// it shifts down by one, and a fresh empty row appears at the top.
pub open spec fn collapse(g: Seq<Seq<CellState>>, y: int) -> Seq<Seq<CellState>> {
    g.remove(y).push(empty_row())
}

/// The lowest full row at or above row `y`, if any.
pub open spec fn first_full_from(g: Seq<Seq<CellState>>, y: int) -> Option<int>
    decreases ROW - y,
{
    if y < 0 || y >= ROW {
        None
    } else if row_full(g[y]) {
        Some(y)
    } else {
        first_full_from(g, y + 1)
    }
}

/// The sheet after one line-clear pass: unchanged when the game is over or
/// no row is full, otherwise the lowest full row is cleared.  Only one row
/// goes per pass even if several are full; the driver re-checks later.
pub open spec fn pass_sheet(g: Seq<Seq<CellState>>) -> Seq<Seq<CellState>> {
    if game_over_spec(g) {
        g
    } else {
        match first_full_from(g, 0) {
            Some(y) => collapse(g, y),
            None => g,
        }
    }
}

/// The outcome that one line-clear pass reports on sheet `g`.
pub open spec fn pass_outcome(g: Seq<Seq<CellState>>) -> ClearOutcome {
    if game_over_spec(g) {
        ClearOutcome::GameOver
    } else {
        match first_full_from(g, 0) {
            Some(y) => ClearOutcome::Cleared(y as i32),
            None => ClearOutcome::NoFullRow,
        }
    }
}

/// The sheet after `n` consecutive line-clear passes.
pub open spec fn pass_sheet_n(g: Seq<Seq<CellState>>, n: nat) -> Seq<Seq<CellState>>
    decreases n,
{
    if n == 0 {
        g
    } else {
        pass_sheet(pass_sheet_n(g, (n - 1) as nat))
    }
}

/// The play field.  Created once at startup and mutated in place by the
/// piece projection and by line clearing.
pub struct Grid {
    cells: Vec<Vec<CellState>>,
}

impl View for Grid {
    type V = Seq<Seq<CellState>>;

    closed spec fn view(&self) -> Seq<Seq<CellState>> {
        self.cells@.map(|i: int, row: Vec<CellState>| row@)
    }
}

/// A fresh all-empty row as an executable vector.
fn make_empty_row() -> (row: Vec<CellState>)
    ensures
        row@ == empty_row(),
{
    let mut row: Vec<CellState> = Vec::new();
    let mut x: usize = 0;
    while x < COL as usize
        invariant
            x <= COL as usize,
            row@.len() == x,
            forall|i: int| 0 <= i < x ==> #[trigger] row@[i] == CellState::Empty,
        decreases COL as usize - x,
    {
        row.push(CellState::Empty);
        x = x + 1;
    }
    proof {
        assert(row@ =~= empty_row());
    }
    row
}

impl Grid {
    /// Well-formed: exactly `ROW` rows of `COL` cells each.
    pub open spec fn wf(&self) -> bool {
        sheet_wf(self@)
    }

    /// A fresh grid with every cell empty.
    pub fn new() -> (g: Grid)
        ensures
            g.wf(),
            forall|y: int| 0 <= y < ROW ==> #[trigger] g@[y] == empty_row(),
    {
        let mut cells: Vec<Vec<CellState>> = Vec::new();
        let mut y: usize = 0;
        while y < ROW as usize
            invariant
                y <= ROW as usize,
                cells@.len() == y,
                forall|j: int| 0 <= j < y ==> (#[trigger] cells@[j])@ == empty_row(),
            decreases ROW as usize - y,
    {
            let row = make_empty_row();
            cells.push(row);
            y = y + 1;
        }
        let g = Grid { cells };
        proof {
            assert(forall|j: int| 0 <= j < ROW ==> #[trigger] g@[j] == empty_row());
        }
        g
    }

    /// Bounds-checked read of one cell.
    pub fn cell_state(&self, x: i32, y: i32) -> (c: CellState)
        requires
            self.wf(),
            0 <= x < COL,
            0 <= y < ROW,
        ensures
            c == self@[y as int][x as int],
    {
        self.cells[y as usize][x as usize]
    }

    /// Direct write of one cell; used to mark cells transient, frozen, or
    /// empty again.
    pub fn set_state(&mut self, x: i32, y: i32, state: CellState)
        requires
            old(self).wf(),
            0 <= x < COL,
            0 <= y < ROW,
        ensures
            final(self).wf(),
            final(self)@ == old(self)@.update(
                y as int,
                old(self)@[y as int].update(x as int, state),
            ),
    {
        proof {
            assert(self.cells@.len() == ROW);
            assert(self.cells@[y as int]@ == self@[y as int]);
        }
        self.cells[y as usize][x as usize] = state;
        proof {
            assert(self@ =~= old(self)@.update(
                y as int,
                old(self)@[y as int].update(x as int, state),
            ));
        }
    }

    /// Whether every cell of row `y` is frozen.
    #[verifier::loop_isolation(false)]
    pub fn is_row_full(&self, y: i32) -> (b: bool)
        requires
            self.wf(),
            0 <= y < ROW,
        ensures
            b == row_full(self@[y as int]),
    {
        let mut x: usize = 0;
        while x < COL as usize
            invariant
                x <= COL as usize,
                forall|i: int| 0 <= i < x ==> #[trigger] self@[y as int][i] == CellState::Frozen,
            decreases COL as usize - x,
        {
            if self.cells[y as usize][x] != CellState::Frozen {
                return false;
            }
            x = x + 1;
        }
        true
    }

    /// Whether the game is over: any frozen cell in the topmost row.
    #[verifier::loop_isolation(false)]
    pub fn game_over(&self) -> (b: bool)
        requires
            self.wf(),
        ensures
            b == game_over_spec(self@),
    {
        let mut x: usize = 0;
        while x < COL as usize
            invariant
                x <= COL as usize,
                forall|i: int| 0 <= i < x ==> #[trigger] self@[ROW - 1][i] != CellState::Frozen,
            decreases COL as usize - x,
        {
            if self.cells[(ROW - 1) as usize][x] == CellState::Frozen {
                return true;
            }
            x = x + 1;
        }
        false
    }

    /// The indices of all full rows, in increasing order.
    #[verifier::loop_isolation(false)]
    pub fn full_rows(&self) -> (v: Vec<i32>)
        requires
            self.wf(),
        ensures
            forall|i: int, j: int| 0 <= i < j < v@.len() ==> v@[i] < v@[j],
            forall|i: int|
                0 <= i < v@.len() ==> 0 <= #[trigger] v@[i] < ROW && row_full(self@[v@[i] as int]),
            forall|y: int| 0 <= y < ROW && row_full(self@[y]) ==> v@.contains(y as i32),
    {
        let mut v: Vec<i32> = Vec::new();
        let mut y: i32 = 0;
        while y < ROW
            invariant
                0 <= y <= ROW,
                forall|i: int, j: int| 0 <= i < j < v@.len() ==> v@[i] < v@[j],
                forall|i: int|
                    0 <= i < v@.len() ==> 0 <= #[trigger] v@[i] < y && row_full(
                        self@[v@[i] as int],
                    ),
                forall|yy: int| 0 <= yy < y && row_full(self@[yy]) ==> v@.contains(yy as i32),
            decreases ROW - y,
        {
            if self.is_row_full(y) {
                let ghost v0 = v@;
                v.push(y);
                proof {
                    assert(v@[v@.len() - 1] == y);
                    assert forall|yy: int|
                        0 <= yy < y + 1 && row_full(self@[yy]) implies v@.contains(yy as i32) by {
                        if yy < y {
                            assert(v0.contains(yy as i32));
                            let k = choose|k: int| 0 <= k < v0.len() && v0[k] == yy as i32;
                            assert(v@[k] == yy as i32);
                        }
                    }
                }
            }
            y = y + 1;
        }
        v
    }

    /// Clear row `y` if it is full: the row disappears, every row above it
    /// shifts down by one, and a fresh empty row fills the top.  Clearing a
    /// row that is not full is a no-op.
    pub fn clear_row_and_collapse(&mut self, y: i32) -> (cleared: bool)
        requires
            old(self).wf(),
            0 <= y < ROW,
        ensures
            final(self).wf(),
            cleared == row_full(old(self)@[y as int]),
            cleared ==> final(self)@ == collapse(old(self)@, y as int),
            !cleared ==> final(self)@ == old(self)@,
    {
        if !self.is_row_full(y) {
            return false;
        }
        self.cells.remove(y as usize);
        let fresh = make_empty_row();
        self.cells.push(fresh);
        proof {
            assert(self@ =~= collapse(old(self)@, y as int));
        }
        true
    }

    /// One line-clear pass: refuse and signal game over if the topmost row
    /// holds a frozen cell, otherwise clear the lowest full row, if any.
    #[verifier::loop_isolation(false)]
    pub fn clear_pass(&mut self) -> (outcome: ClearOutcome)
        requires
            old(self).wf(),
        ensures
            final(self).wf(),
            outcome == pass_outcome(old(self)@),
            final(self)@ == pass_sheet(old(self)@),
    {
        if self.game_over() {
            return ClearOutcome::GameOver;
        }
        let mut y: i32 = 0;
        while y < ROW
            invariant
                0 <= y <= ROW,
                self@ == old(self)@,
                forall|j: int| 0 <= j < y ==> !row_full(#[trigger] old(self)@[j]),
            decreases ROW - y,
        {
            if self.is_row_full(y) {
                self.clear_row_and_collapse(y);
                proof {
                    lemma_first_full_from_prefix(old(self)@, y as int);
                }
                return ClearOutcome::Cleared(y);
            }
            y = y + 1;
        }
        proof {
            lemma_first_full_from_prefix(old(self)@, ROW as int);
        }
        ClearOutcome::NoFullRow
    }
}

/// Skipping rows that are not full does not change which row the search
/// for the lowest full row finds.
proof fn lemma_first_full_from_prefix(g: Seq<Seq<CellState>>, y: int)
    requires
        0 <= y <= ROW,
        forall|j: int| 0 <= j < y ==> !row_full(#[trigger] g[j]),
    ensures
        first_full_from(g, 0) == first_full_from(g, y),
    decreases y,
{
    if y > 0 {
        lemma_first_full_from_prefix(g, y - 1);
    }
}

/// A row with only frozen cells has as many frozen cells as cells.
proof fn lemma_frozen_in_row_all_frozen(row: Seq<CellState>)
    requires
        forall|i: int| 0 <= i < row.len() ==> #[trigger] row[i] == CellState::Frozen,
    ensures
        frozen_in_row(row) == row.len(),
    decreases row.len(),
{
    if row.len() > 0 {
        lemma_frozen_in_row_all_frozen(row.drop_last());
    }
}

/// A row with no frozen cell counts zero.
proof fn lemma_frozen_in_row_none_frozen(row: Seq<CellState>)
    requires
        forall|i: int| 0 <= i < row.len() ==> #[trigger] row[i] != CellState::Frozen,
    ensures
        frozen_in_row(row) == 0,
    decreases row.len(),
{
    if row.len() > 0 {
        lemma_frozen_in_row_none_frozen(row.drop_last());
    }
}

/// Removing one row removes exactly its frozen cells from the total.
proof fn lemma_total_frozen_remove(g: Seq<Seq<CellState>>, y: int)
    requires
        0 <= y < g.len(),
    ensures
        total_frozen(g.remove(y)) == total_frozen(g) - frozen_in_row(g[y]),
    decreases g.len(),
{
    if y == g.len() - 1 {
        assert(g.remove(y) =~= g.drop_last());
    } else {
        assert(g.remove(y).drop_last() =~= g.drop_last().remove(y));
        assert(g.remove(y).last() == g.last());
        lemma_total_frozen_remove(g.drop_last(), y);
    }
}

/// Appending one row adds exactly its frozen cells to the total.
proof fn lemma_total_frozen_push(g: Seq<Seq<CellState>>, row: Seq<CellState>)
    ensures
        total_frozen(g.push(row)) == total_frozen(g) + frozen_in_row(row),
{
    assert(g.push(row).drop_last() =~= g);
    assert(g.push(row).last() == row);
}

/// Law: clearing a full row drops the total number of frozen cells by
/// exactly `COL`; every other row keeps its cells, shifted down by one
/// above the cleared row.
pub proof fn lemma_clear_full_row_frozen_count(g: Seq<Seq<CellState>>, y: int)
    requires
        sheet_wf(g),
        0 <= y < ROW,
        row_full(g[y]),
    ensures
        total_frozen(collapse(g, y)) == total_frozen(g) - COL,
{
    lemma_total_frozen_remove(g, y);
    lemma_frozen_in_row_all_frozen(g[y]);
    lemma_total_frozen_push(g.remove(y), empty_row());
    lemma_frozen_in_row_none_frozen(empty_row());
}

/// Law: how one cleared row moves the others.  Rows below the cleared row
/// stay, rows above shift down by exactly one, and the topmost row becomes
/// fresh and empty.
pub proof fn lemma_collapse_rows(g: Seq<Seq<CellState>>, y: int)
    requires
        sheet_wf(g),
        0 <= y < ROW,
    ensures
        sheet_wf(collapse(g, y)),
        forall|r: int| 0 <= r < y ==> #[trigger] collapse(g, y)[r] == g[r],
        forall|r: int| y <= r < ROW - 1 ==> #[trigger] collapse(g, y)[r] == g[r + 1],
        collapse(g, y)[ROW - 1] == empty_row(),
{
}

/// Law: once the topmost row holds a frozen cell, every later line-clear
/// pass signals game over and leaves the grid untouched, until a restart.
pub proof fn lemma_game_over_persists(g: Seq<Seq<CellState>>, n: nat)
    requires
        game_over_spec(g),
    ensures
        pass_sheet_n(g, n) == g,
        pass_outcome(pass_sheet_n(g, n)) == ClearOutcome::GameOver,
    decreases n,
{
    if n > 0 {
        lemma_game_over_persists(g, (n - 1) as nat);
    }
}

} // verus!

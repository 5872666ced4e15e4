//! The falling piece and its interaction with the grid.
//!
//! The piece owns its anchor, shape, rotation and a frozen flag.  Moves
//! and rotations are validated footprint-wide against the grid: one
//! colliding cell vetoes the whole operation.  A gravity tick either
//! drops the anchor one row or, when the piece rests on the floor or on
//! frozen cells, stamps its footprint frozen in the grid.

use vstd::prelude::*;

use crate::geometry::{footprint, occupies, offsets4, lemma_offsets_shape, lemma_contains_of_four,
    Pos, Rotation, Shape};
use crate::grid::{sheet_wf, CellState, Grid};
use crate::{COL, ROW};

verus! {

/// Every footprint cell lies between the side walls and at or above the
/// floor.  Cells above the visible field are allowed: a freshly spawned
/// piece pokes above the top until gravity pulls it down.
pub open spec fn fp_in_field(s: Shape, r: Rotation, ax: int, ay: int) -> bool {
    forall|c: (int, int)| #[trigger]
        footprint(s, r, ax, ay).contains(c) ==> 0 <= c.0 < COL && 0 <= c.1
}

/// A placement is allowed when each of its four cells lies inside the
/// walls, at or above the floor, and not on a frozen cell.
pub open spec fn placeable(
    g: Seq<Seq<CellState>>,
    s: Shape,
    r: Rotation,
    ax: int,
    ay: int,
) -> bool {
    forall|c: (int, int)| #[trigger]
        footprint(s, r, ax, ay).contains(c) ==> 0 <= c.0 < COL && 0 <= c.1 && (c.1 < ROW
            ==> g[c.1][c.0] != CellState::Frozen)
}

/// The freeze condition: some footprint cell sits on the floor, or the
/// cell directly below some footprint cell is frozen and is not itself
/// part of the footprint.
pub open spec fn must_freeze(
    g: Seq<Seq<CellState>>,
    s: Shape,
    r: Rotation,
    ax: int,
    ay: int,
) -> bool {
    exists|c: (int, int)| #[trigger]
        footprint(s, r, ax, ay).contains(c) && (c.1 == 0 || (0 <= c.1 - 1 < ROW && g[c.1 - 1][c.0]
            == CellState::Frozen && !footprint(s, r, ax, ay).contains((c.0, c.1 - 1))))
}

/// One cell of the sheet after the footprint projection: footprint cells
/// are transient, stale transient cells elsewhere become empty again, and
/// every other cell keeps its state.
pub open spec fn proj_cell(
    g: Seq<Seq<CellState>>,
    s: Shape,
    r: Rotation,
    ax: int,
    ay: int,
    x: int,
    y: int,
) -> CellState {
    if footprint(s, r, ax, ay).contains((x, y)) {
        CellState::Transient
    } else if g[y][x] == CellState::Transient {
        CellState::Empty
    } else {
        g[y][x]
    }
}

/// The whole sheet after the footprint projection.
pub open spec fn project_sheet(
    g: Seq<Seq<CellState>>,
    s: Shape,
    r: Rotation,
    ax: int,
    ay: int,
) -> Seq<Seq<CellState>> {
    Seq::new(g.len(), |y: int| Seq::new(g[y].len(), |x: int| proj_cell(g, s, r, ax, ay, x, y)))
}

/// The sheet after the footprint is stamped frozen.  Footprint cells
/// above the visible field are not represented in the grid and vanish.
pub open spec fn freeze_sheet(
    g: Seq<Seq<CellState>>,
    s: Shape,
    r: Rotation,
    ax: int,
    ay: int,
) -> Seq<Seq<CellState>> {
    Seq::new(
        g.len(),
        |y: int|
            Seq::new(
                g[y].len(),
                |x: int|
                    if footprint(s, r, ax, ay).contains((x, y)) {
                        CellState::Frozen
                    } else {
                        g[y][x]
                    },
            ),
    )
}

/// Law: after a projection the transient cells of the field are exactly
/// the footprint cells that lie inside it.
pub proof fn lemma_projection_matches_footprint(
    g: Seq<Seq<CellState>>,
    s: Shape,
    r: Rotation,
    ax: int,
    ay: int,
    x: int,
    y: int,
)
    requires
        sheet_wf(g),
        0 <= x < COL,
        0 <= y < ROW,
    ensures
        project_sheet(g, s, r, ax, ay)[y][x] == CellState::Transient <==> footprint(
            s,
            r,
            ax,
            ay,
        ).contains((x, y)),
{
}

/// The falling piece: anchor position, shape, rotation state and the
/// frozen flag.  There is one live instance at a time; the grid alone
/// owns the cells.
#[derive(Clone, Copy, PartialEq, Eq, Structural, Debug)]
pub struct CurrentElement {
    /// Anchor cell, the rotation pivot.
    pub central_location: Pos,
    /// Which of the seven shapes is falling.
    pub shape: Shape,
    /// Current rotation state.
    pub direction: Rotation,
    /// Set once the piece has settled into the grid.
    pub frozen: bool,
}

/// The piece after a validated one-column move: shifted when the whole
/// candidate footprint fits, unchanged otherwise.
pub open spec fn moved_piece(p: CurrentElement, g: Seq<Seq<CellState>>, dx: int) -> CurrentElement {
    if placeable(
        g,
        p.shape,
        p.direction,
        p.central_location.x + dx,
        p.central_location.y as int,
    ) {
        CurrentElement {
            central_location: Pos { x: (p.central_location.x + dx) as i32, ..p.central_location },
            ..p
        }
    } else {
        p
    }
}

/// The piece after a validated clockwise rotation: turned when the whole
/// rotated footprint fits, rolled back otherwise.
pub open spec fn rotated_piece(p: CurrentElement, g: Seq<Seq<CellState>>) -> CurrentElement {
    if placeable(
        g,
        p.shape,
        p.direction.spec_cw(),
        p.central_location.x as int,
        p.central_location.y as int,
    ) {
        CurrentElement { direction: p.direction.spec_cw(), ..p }
    } else {
        p
    }
}

impl CurrentElement {
    /// The anchor stays inside the visible field.
    pub open spec fn wf(self) -> bool {
        0 <= self.central_location.x < COL && 0 <= self.central_location.y < ROW
    }

    /// The anchor column as a mathematical integer.
    pub open spec fn ax(self) -> int {
        self.central_location.x as int
    }

    /// The anchor row as a mathematical integer.
    pub open spec fn ay(self) -> int {
        self.central_location.y as int
    }

    /// The four cells the piece covers at its current anchor and rotation.
    pub open spec fn spec_footprint(self) -> Seq<(int, int)> {
        footprint(self.shape, self.direction, self.ax(), self.ay())
    }

    /// Every footprint cell lies inside the walls and at or above the
    /// floor.
    pub open spec fn in_field(self) -> bool {
        fp_in_field(self.shape, self.direction, self.ax(), self.ay())
    }

    /// The footprint is in the field and clear of frozen cells.
    pub open spec fn fits(self, g: Seq<Seq<CellState>>) -> bool {
        placeable(g, self.shape, self.direction, self.ax(), self.ay())
    }

    /// The freeze condition holds for the piece on sheet `g`.
    pub open spec fn settles(self, g: Seq<Seq<CellState>>) -> bool {
        must_freeze(g, self.shape, self.direction, self.ax(), self.ay())
    }

    /// Reset to a fresh spawn: anchor at the top centre, rotation up, not
    /// frozen.
    pub fn initialize(&mut self, shape: Shape)
        ensures
            *final(self) == (CurrentElement {
                central_location: Pos { x: (COL / 2) as i32, y: (ROW - 1) as i32 },
                shape,
                direction: Rotation::Up,
                frozen: false,
            }),
    {
        self.central_location = Pos { x: COL / 2, y: ROW - 1 };
        self.shape = shape;
        self.direction = Rotation::Up;
        self.frozen = false;
    }

    /// The four footprint cells at the current anchor, in table order.
    /// Cells with `y >= ROW` lie above the visible field.
    pub fn square_match(&self) -> (v: Vec<Pos>)
        requires
            self.wf(),
        ensures
            v@.len() == 4,
            forall|i: int|
                0 <= i < 4 ==> (#[trigger] v@[i].x as int, v@[i].y as int)
                    == self.spec_footprint()[i],
    {
        proof {
            lemma_offsets_shape(self.shape, self.direction);
        }
        let o = offsets4(self.shape, self.direction);
        let ax = self.central_location.x;
        let ay = self.central_location.y;
        let mut v: Vec<Pos> = Vec::new();
        v.push(Pos { x: ax + o.0.0, y: ay + o.0.1 });
        v.push(Pos { x: ax + o.1.0, y: ay + o.1.1 });
        v.push(Pos { x: ax + o.2.0, y: ay + o.2.1 });
        v.push(Pos { x: ax + o.3.0, y: ay + o.3.1 });
        v
    }

    /// Try to move one column to the left.  The move is footprint-atomic:
    /// if any candidate cell would leave the walls or land on a frozen
    /// cell, the whole move is rejected and the piece stays put.
    pub fn left(&mut self, grid: &Grid)
        requires
            grid.wf(),
            old(self).wf(),
        ensures
            *final(self) == moved_piece(*old(self), grid@, -1),
            final(self).wf(),
    {
        let ok = can_place(
            grid,
            self.shape,
            self.direction,
            self.central_location.x - 1,
            self.central_location.y,
        );
        if ok {
            proof {
                lemma_anchor_in_footprint(
                    self.shape,
                    self.direction,
                    self.central_location.x - 1,
                    self.central_location.y as int,
                );
            }
            self.central_location.x = self.central_location.x - 1;
        }
    }

    /// Try to move one column to the right; footprint-atomic like `left`.
    pub fn right(&mut self, grid: &Grid)
        requires
            grid.wf(),
            old(self).wf(),
        ensures
            *final(self) == moved_piece(*old(self), grid@, 1),
            final(self).wf(),
    {
        let ok = can_place(
            grid,
            self.shape,
            self.direction,
            self.central_location.x + 1,
            self.central_location.y,
        );
        if ok {
            proof {
                lemma_anchor_in_footprint(
                    self.shape,
                    self.direction,
                    self.central_location.x + 1,
                    self.central_location.y as int,
                );
            }
            self.central_location.x = self.central_location.x + 1;
        }
    }

    /// Try one clockwise rotation step.  The rotated footprint must stay
    /// inside the walls, at or above the floor, and off frozen cells;
    /// otherwise the rotation is rolled back as a unit.  There is no
    /// wall-kick search.
    pub fn rotate(&mut self, grid: &Grid)
        requires
            grid.wf(),
            old(self).wf(),
        ensures
            *final(self) == rotated_piece(*old(self), grid@),
            final(self).wf(),
    {
        self.direction = self.direction.cw();
        let ok = can_place(
            grid,
            self.shape,
            self.direction,
            self.central_location.x,
            self.central_location.y,
        );
        if !ok {
            self.direction = self.direction.ccw();
        }
    }
}

/// The anchor itself is always one of the footprint cells.
pub proof fn lemma_anchor_in_footprint(s: Shape, r: Rotation, ax: int, ay: int)
    ensures
        footprint(s, r, ax, ay).contains((ax, ay)),
{
    lemma_offsets_shape(s, r);
    assert(footprint(s, r, ax, ay)[0] == (ax, ay));
}

/// Whether one candidate cell is allowed: inside the walls, at or above
/// the floor, and not on a frozen cell of the visible field.
fn cell_free(grid: &Grid, cx: i64, cy: i64) -> (b: bool)
    requires
        grid.wf(),
    ensures
        b == (0 <= cx < COL && 0 <= cy && (cy < ROW ==> grid@[cy as int][cx as int]
            != CellState::Frozen)),
{
    if cx < 0 || cx >= COL as i64 {
        return false;
    }
    if cy < 0 {
        return false;
    }
    if cy >= ROW as i64 {
        return true;
    }
    let c = grid.cell_state(cx as i32, cy as i32);
    c != CellState::Frozen
}

/// Whether the shape, rotated to `r`, may stand with its anchor at
/// `(ax, ay)`: the whole four-cell footprint must be allowed.
pub fn can_place(grid: &Grid, s: Shape, r: Rotation, ax: i32, ay: i32) -> (b: bool)
    requires
        grid.wf(),
    ensures
        b == placeable(grid@, s, r, ax as int, ay as int),
{
    let o = offsets4(s, r);
    let axl = ax as i64;
    let ayl = ay as i64;
    let b = cell_free(grid, axl + o.0.0 as i64, ayl + o.0.1 as i64) && cell_free(
        grid,
        axl + o.1.0 as i64,
        ayl + o.1.1 as i64,
    ) && cell_free(grid, axl + o.2.0 as i64, ayl + o.2.1 as i64) && cell_free(
        grid,
        axl + o.3.0 as i64,
        ayl + o.3.1 as i64,
    );
    proof {
        let fp = footprint(s, r, ax as int, ay as int);
        lemma_offsets_shape(s, r);
        assert(fp.contains(fp[0]));
        assert(fp.contains(fp[1]));
        assert(fp.contains(fp[2]));
        assert(fp.contains(fp[3]));
        if b {
            assert forall|c: (int, int)| #[trigger]
                fp.contains(c) implies 0 <= c.0 < COL && 0 <= c.1 && (c.1 < ROW
                ==> grid@[c.1][c.0] != CellState::Frozen) by {
                lemma_contains_of_four(fp, c);
            }
        }
    }
    b
}

/// Whether footprint cell `(cx, cy)` triggers the freeze condition: it
/// sits on the floor, or the cell directly below it is frozen and not
/// itself part of the footprint anchored at `anchor`.
fn freeze_at(grid: &Grid, s: Shape, r: Rotation, anchor: Pos, cx: i32, cy: i32) -> (b: bool)
    requires
        grid.wf(),
        0 <= cx < COL,
        0 <= cy,
    ensures
        b == (cy == 0 || (0 <= cy - 1 < ROW && grid@[cy - 1][cx as int] == CellState::Frozen
            && !footprint(s, r, anchor.x as int, anchor.y as int).contains((cx as int, cy - 1)))),
{
    if cy == 0 {
        return true;
    }
    if cy - 1 >= ROW {
        return false;
    }
    if grid.cell_state(cx, cy - 1) != CellState::Frozen {
        return false;
    }
    !occupies(s, r, anchor, Pos { x: cx, y: cy - 1 })
}

/// Whether the piece with anchor `(ax, ay)` must freeze where it stands.
fn check_freeze(grid: &Grid, s: Shape, r: Rotation, ax: i32, ay: i32) -> (b: bool)
    requires
        grid.wf(),
        0 <= ax < COL,
        0 <= ay < ROW,
        fp_in_field(s, r, ax as int, ay as int),
    ensures
        b == must_freeze(grid@, s, r, ax as int, ay as int),
{
    let anchor = Pos { x: ax, y: ay };
    let o = offsets4(s, r);
    proof {
        let fp = footprint(s, r, ax as int, ay as int);
        lemma_offsets_shape(s, r);
        assert(fp.contains(fp[0]));
        assert(fp.contains(fp[1]));
        assert(fp.contains(fp[2]));
        assert(fp.contains(fp[3]));
    }
    let b = freeze_at(grid, s, r, anchor, ax + o.0.0, ay + o.0.1) || freeze_at(
        grid,
        s,
        r,
        anchor,
        ax + o.1.0,
        ay + o.1.1,
    ) || freeze_at(grid, s, r, anchor, ax + o.2.0, ay + o.2.1) || freeze_at(
        grid,
        s,
        r,
        anchor,
        ax + o.3.0,
        ay + o.3.1,
    );
    proof {
        let fp = footprint(s, r, ax as int, ay as int);
        if !b {
            assert forall|c: (int, int)| #[trigger]
                fp.contains(c) implies !(c.1 == 0 || (0 <= c.1 - 1 < ROW && grid@[c.1 - 1][c.0]
                == CellState::Frozen && !fp.contains((c.0, c.1 - 1)))) by {
                lemma_contains_of_four(fp, c);
            }
        }
    }
    b
}

/// The sheet after one footprint cell is stamped frozen; a cell above the
/// visible field is not represented in the grid and vanishes.
pub open spec fn stamp(g: Seq<Seq<CellState>>, cx: int, cy: int) -> Seq<Seq<CellState>> {
    if 0 <= cy < g.len() {
        g.update(cy, g[cy].update(cx, CellState::Frozen))
    } else {
        g
    }
}

/// Stamp one footprint cell frozen, if it lies inside the visible field.
fn stamp_cell(grid: &mut Grid, cx: i32, cy: i32)
    requires
        old(grid).wf(),
        0 <= cx < COL,
        0 <= cy,
    ensures
        final(grid).wf(),
        final(grid)@ == stamp(old(grid)@, cx as int, cy as int),
{
    if cy < ROW {
        grid.set_state(cx, cy, CellState::Frozen);
    }
}

impl CurrentElement {
    /// One gravity tick.  When the freeze condition holds the piece
    /// settles where it stands: every footprint cell inside the visible
    /// field is stamped frozen and the frozen flag is set.  Otherwise the
    /// anchor drops one row; a footprint that was clear of frozen cells
    /// stays clear after the drop.
    #[verifier::rlimit(100)]
    pub fn advance(&mut self, grid: &mut Grid)
        requires
            old(grid).wf(),
            old(self).wf(),
            !old(self).frozen,
            old(self).in_field(),
        ensures
            final(grid).wf(),
            old(self).settles(old(grid)@) ==> *final(self) == (CurrentElement {
                frozen: true,
                ..*old(self)
            }) && final(grid)@ == freeze_sheet(
                old(grid)@,
                old(self).shape,
                old(self).direction,
                old(self).ax(),
                old(self).ay(),
            ),
            !old(self).settles(old(grid)@) ==> final(grid)@ == old(grid)@ && *final(self)
                == (CurrentElement {
                central_location: Pos {
                    x: old(self).central_location.x,
                    y: (old(self).ay() - 1) as i32,
                },
                ..*old(self)
            }) && final(self).wf() && final(self).in_field(),
            !old(self).settles(old(grid)@) && old(self).fits(old(grid)@) ==> final(self).fits(
                final(grid)@,
            ),
    {
        let s = self.shape;
        let r = self.direction;
        let ax = self.central_location.x;
        let ay = self.central_location.y;
        let freeze = check_freeze(grid, s, r, ax, ay);
        if freeze {
            let o = offsets4(s, r);
            proof {
                let fp = footprint(s, r, ax as int, ay as int);
                lemma_offsets_shape(s, r);
                assert(fp.contains(fp[0]));
                assert(fp.contains(fp[1]));
                assert(fp.contains(fp[2]));
                assert(fp.contains(fp[3]));
            }
            stamp_cell(grid, ax + o.0.0, ay + o.0.1);
            stamp_cell(grid, ax + o.1.0, ay + o.1.1);
            stamp_cell(grid, ax + o.2.0, ay + o.2.1);
            stamp_cell(grid, ax + o.3.0, ay + o.3.1);
            self.frozen = true;
            proof {
                let fp = footprint(s, r, ax as int, ay as int);
                let fs = freeze_sheet(old(grid)@, s, r, ax as int, ay as int);
                assert forall|y: int| 0 <= y < ROW implies grid@[y] == fs[y] by {
                    assert forall|x: int| 0 <= x < COL implies grid@[y][x] == fs[y][x] by {
                        lemma_contains_of_four(fp, (x, y));
                    }
                    assert(grid@[y] =~= fs[y]);
                }
                assert(grid@ =~= fs);
            }
        } else {
            proof {
                let fpold = footprint(s, r, ax as int, ay as int);
                let fpnew = footprint(s, r, ax as int, ay as int - 1);
                lemma_offsets_shape(s, r);
                assert(fpold.contains(fpold[0]));
                assert(fpold.contains(fpold[1]));
                assert(fpold.contains(fpold[2]));
                assert(fpold.contains(fpold[3]));
                lemma_anchor_in_footprint(s, r, ax as int, ay as int);
                assert(ay as int != 0);
                assert forall|c: (int, int)| #[trigger]
                    fpnew.contains(c) implies fpold.contains((c.0, c.1 + 1)) && 0 <= c.0 < COL
                    && 0 <= c.1 by {
                    lemma_contains_of_four(fpnew, c);
                }
                if placeable(grid@, s, r, ax as int, ay as int) {
                    assert forall|c: (int, int)| #[trigger]
                        fpnew.contains(c) implies 0 <= c.0 < COL && 0 <= c.1 && (c.1 < ROW
                        ==> grid@[c.1][c.0] != CellState::Frozen) by {
                        lemma_contains_of_four(fpnew, c);
                        let cp = (c.0, c.1 + 1);
                        assert(fpold.contains(cp));
                        if c.1 < ROW && !fpold.contains(c) {
                            assert(!(cp.1 == 0 || (0 <= cp.1 - 1 < ROW && grid@[cp.1 - 1][cp.0]
                                == CellState::Frozen && !fpold.contains((cp.0, cp.1 - 1)))));
                        }
                    }
                }
            }
            self.central_location.y = self.central_location.y - 1;
        }
    }

    /// Recompute the footprint projection in the grid: every footprint
    /// cell inside the field becomes transient, stale transient cells
    /// elsewhere are emptied, frozen and empty cells keep their state.
    #[verifier::loop_isolation(false)]
    pub fn project(&self, grid: &mut Grid)
        requires
            old(grid).wf(),
            self.wf(),
        ensures
            final(grid).wf(),
            final(grid)@ == project_sheet(
                old(grid)@,
                self.shape,
                self.direction,
                self.ax(),
                self.ay(),
            ),
    {
        let s = self.shape;
        let r = self.direction;
        let mut y: i32 = 0;
        while y < ROW
            invariant
                grid.wf(),
                0 <= y <= ROW,
                forall|yy: int, xx: int|
                    0 <= yy < y && 0 <= xx < COL ==> #[trigger] grid@[yy][xx] == proj_cell(
                        old(grid)@,
                        s,
                        r,
                        self.ax(),
                        self.ay(),
                        xx,
                        yy,
                    ),
                forall|yy: int, xx: int|
                    y <= yy < ROW && 0 <= xx < COL ==> #[trigger] grid@[yy][xx] == old(
                        grid,
                    )@[yy][xx],
            decreases ROW - y,
        {
            let mut x: i32 = 0;
            while x < COL
                invariant
                    grid.wf(),
                    0 <= y < ROW,
                    0 <= x <= COL,
                    forall|yy: int, xx: int|
                        0 <= yy < y && 0 <= xx < COL ==> #[trigger] grid@[yy][xx] == proj_cell(
                            old(grid)@,
                            s,
                            r,
                            self.ax(),
                            self.ay(),
                            xx,
                            yy,
                        ),
                    forall|xx: int|
                        0 <= xx < x ==> #[trigger] grid@[y as int][xx] == proj_cell(
                            old(grid)@,
                            s,
                            r,
                            self.ax(),
                            self.ay(),
                            xx,
                            y as int,
                        ),
                    forall|xx: int|
                        x <= xx < COL ==> #[trigger] grid@[y as int][xx] == old(
                            grid,
                        )@[y as int][xx],
                    forall|yy: int, xx: int|
                        y < yy < ROW && 0 <= xx < COL ==> #[trigger] grid@[yy][xx] == old(
                            grid,
                        )@[yy][xx],
                decreases COL - x,
            {
                let occ = occupies(s, r, self.central_location, Pos { x, y });
                if occ {
                    grid.set_state(x, y, CellState::Transient);
                } else if grid.cell_state(x, y) == CellState::Transient {
                    grid.set_state(x, y, CellState::Empty);
                }
                x = x + 1;
            }
            y = y + 1;
        }
        proof {
            let ps = project_sheet(old(grid)@, s, r, self.ax(), self.ay());
            assert forall|yy: int| 0 <= yy < ROW implies grid@[yy] == ps[yy] by {
                assert(grid@[yy] =~= ps[yy]);
            }
            assert(grid@ =~= ps);
        }
    }
}

} // verus!

//! Shape geometry: which cells a piece covers.
//!
//! A piece is a shape variant together with a rotation state and an anchor
//! cell.  Each (shape, rotation) pair covers four cells at fixed offsets
//! from the anchor; the offset table is the single source of truth, and the
//! executable predicates are proved against it.

use vstd::prelude::*;

verus! {

/// The seven tetromino variants.
#[derive(Clone, Copy, PartialEq, Eq, Structural, Debug)]
pub enum Shape {
    I,
    J,
    L,
    O,
    S,
    T,
    Z,
}

/// The four rotation states, cycling Up -> Right -> Down -> Left -> Up.
#[derive(Clone, Copy, PartialEq, Eq, Structural, Debug)]
pub enum Rotation {
    Up,
    Right,
    Down,
    Left,
}

/// A grid-aligned coordinate: column `x`, row `y`.  Row 0 is the floor.
#[derive(Clone, Copy, PartialEq, Eq, Structural, Debug)]
pub struct Pos {
    pub x: i32,
    pub y: i32,
}

impl Rotation {
    /// The rotation one clockwise step after `self`.
    pub open spec fn spec_cw(self) -> Rotation {
        match self {
            Rotation::Up => Rotation::Right,
            Rotation::Right => Rotation::Down,
            Rotation::Down => Rotation::Left,
            Rotation::Left => Rotation::Up,
        }
    }

    /// The rotation one counter-clockwise step after `self`.
    pub open spec fn spec_ccw(self) -> Rotation {
        match self {
            Rotation::Up => Rotation::Left,
            Rotation::Right => Rotation::Up,
            Rotation::Down => Rotation::Right,
            Rotation::Left => Rotation::Down,
        }
    }

    /// One clockwise step; this is what a rotate command attempts.
    pub fn cw(self) -> (r: Rotation)
        ensures
            r == self.spec_cw(),
    {
        match self {
            Rotation::Up => Rotation::Right,
            Rotation::Right => Rotation::Down,
            Rotation::Down => Rotation::Left,
            Rotation::Left => Rotation::Up,
        }
    }

    /// One counter-clockwise step; used to roll a rejected rotation back.
    pub fn ccw(self) -> (r: Rotation)
        ensures
            r == self.spec_ccw(),
    {
        match self {
            Rotation::Up => Rotation::Left,
            Rotation::Right => Rotation::Up,
            Rotation::Down => Rotation::Right,
            Rotation::Left => Rotation::Down,
        }
    }
}

/// The four cell offsets `(dx, dy)` that `s` covers around its anchor when
/// rotated to `r`: the covered cells are `(anchor.x + dx, anchor.y + dy)`.
/// The O piece looks the same in every rotation, the I, S and Z pieces in
/// every other rotation.
pub open spec fn offsets(s: Shape, r: Rotation) -> Seq<(int, int)> {
    match s {
        Shape::I => match r {
            Rotation::Up | Rotation::Down => seq![(0int, 0int), (1, 0), (-1, 0), (-2, 0)],
            Rotation::Right | Rotation::Left => seq![(0int, 0int), (0, 1), (0, -1), (0, -2)],
        },
        Shape::J => match r {
            Rotation::Up => seq![(0int, 0int), (-1, 0), (-2, 0), (0, -1)],
            Rotation::Right => seq![(0int, 0int), (-1, 0), (0, 1), (0, 2)],
            Rotation::Down => seq![(0int, 0int), (1, 0), (2, 0), (0, 1)],
            Rotation::Left => seq![(0int, 0int), (1, 0), (0, -1), (0, -2)],
        },
        Shape::L => match r {
            Rotation::Up => seq![(0int, 0int), (1, 0), (2, 0), (0, -1)],
            Rotation::Right => seq![(0int, 0int), (-1, 0), (0, -1), (0, -2)],
            Rotation::Down => seq![(0int, 0int), (-1, 0), (-2, 0), (0, 1)],
            Rotation::Left => seq![(0int, 0int), (1, 0), (0, 1), (0, 2)],
        },
        Shape::O => seq![(0int, 0int), (-1, 0), (0, 1), (-1, 1)],
        Shape::S => match r {
            Rotation::Up | Rotation::Down => seq![(0int, 0int), (1, 0), (0, -1), (-1, -1)],
            Rotation::Right | Rotation::Left => seq![(0int, 0int), (0, -1), (-1, 0), (-1, 1)],
        },
        Shape::T => match r {
            Rotation::Up => seq![(0int, 0int), (-1, 0), (1, 0), (0, 1)],
            Rotation::Right => seq![(0int, 0int), (0, 1), (0, -1), (1, 0)],
            Rotation::Down => seq![(0int, 0int), (-1, 0), (1, 0), (0, -1)],
            Rotation::Left => seq![(0int, 0int), (0, 1), (0, -1), (-1, 0)],
        },
        Shape::Z => match r {
            Rotation::Up | Rotation::Down => seq![(0int, 0int), (1, 0), (0, 1), (-1, 1)],
            Rotation::Right | Rotation::Left => seq![(0int, 0int), (0, -1), (1, 0), (1, 1)],
        },
    }
}

/// The four cells covered by shape `s` rotated to `r` with its anchor at
/// `(ax, ay)`.
pub open spec fn footprint(s: Shape, r: Rotation, ax: int, ay: int) -> Seq<(int, int)> {
    offsets(s, r).map(|i: int, o: (int, int)| (ax + o.0, ay + o.1))
}

/// Whether the cell `(x, y)` is part of the footprint of shape `s` rotated
/// to `r` with its anchor at `(ax, ay)`.
pub open spec fn occupies_spec(s: Shape, r: Rotation, ax: int, ay: int, x: int, y: int) -> bool {
    footprint(s, r, ax, ay).contains((x, y))
}

/// Every (shape, rotation) pair has exactly four offsets, the first of them
/// the anchor itself, and none further than two cells away.
pub proof fn lemma_offsets_shape(s: Shape, r: Rotation)
    ensures
        offsets(s, r).len() == 4,
        offsets(s, r)[0] == (0int, 0int),
        forall|i: int|
            0 <= i < 4 ==> -2 <= #[trigger] offsets(s, r)[i].0 <= 2 && -2 <= offsets(s, r)[i].1
                <= 2,
{
    match s {
        Shape::I => {
        },
        Shape::J => {
        },
        Shape::L => {
        },
        Shape::O => {
        },
        Shape::S => {
        },
        Shape::T => {
        },
        Shape::Z => {
        },
    }
}

/// No (shape, rotation) pair lists the same offset twice.
proof fn lemma_offsets_distinct(s: Shape, r: Rotation)
    ensures
        offsets(s, r).no_duplicates(),
{
    match s {
        Shape::I => {
        },
        Shape::J => {
        },
        Shape::L => {
        },
        Shape::O => {
        },
        Shape::S => {
        },
        Shape::T => {
        },
        Shape::Z => {
        },
    }
}

/// Law: every (shape, rotation, anchor) combination covers exactly four
/// distinct cells: the cells on which `occupies` answers true form a set
/// of size four.
pub proof fn lemma_footprint_four_cells(s: Shape, r: Rotation, ax: int, ay: int)
    ensures
        footprint(s, r, ax, ay).len() == 4,
        footprint(s, r, ax, ay).no_duplicates(),
        footprint(s, r, ax, ay).to_set() == Set::new(
            |c: (int, int)| occupies_spec(s, r, ax, ay, c.0, c.1),
        ),
        footprint(s, r, ax, ay).to_set().len() == 4,
{
    lemma_offsets_shape(s, r);
    lemma_offsets_distinct(s, r);
    let fp = footprint(s, r, ax, ay);
    assert forall|i: int, j: int| 0 <= i < j < 4 implies fp[i] != fp[j] by {
        assert(offsets(s, r)[i] != offsets(s, r)[j]);
    }
    assert(fp.no_duplicates());
    fp.unique_seq_to_set();
    assert(fp.to_set() =~= Set::new(|c: (int, int)| occupies_spec(s, r, ax, ay, c.0, c.1)));
}

/// Law: rotation is a cycle of order four.  Four clockwise steps return
/// any rotation to itself, and with it the footprint at any anchor; one
/// counter-clockwise step undoes one clockwise step.
pub proof fn lemma_rotation_order_four(s: Shape, r: Rotation, ax: int, ay: int)
    ensures
        r.spec_cw().spec_cw().spec_cw().spec_cw() == r,
        r.spec_cw().spec_ccw() == r,
        r.spec_ccw().spec_cw() == r,
        footprint(s, r.spec_cw().spec_cw().spec_cw().spec_cw(), ax, ay) == footprint(
            s,
            r,
            ax,
            ay,
        ),
{
}

/// Membership in a four-element sequence is the four-way disjunction.
pub proof fn lemma_contains_of_four<A>(q: Seq<A>, v: A)
    requires
        q.len() == 4,
    ensures
        q.contains(v) <==> (v == q[0] || v == q[1] || v == q[2] || v == q[3]),
{
    if q.contains(v) {
        let i = choose|i: int| 0 <= i < q.len() && q[i] == v;
        assert(i == 0 || i == 1 || i == 2 || i == 3);
    }
    if v == q[0] || v == q[1] || v == q[2] || v == q[3] {
        assert(q.contains(v));
    }
}

/// The offset table of `offsets`, as executable values, in the same order.
pub(crate) fn offsets4(s: Shape, r: Rotation) -> (o: ((i32, i32), (i32, i32), (i32, i32), (i32, i32)))
    ensures
        offsets(s, r) == seq![
            (o.0.0 as int, o.0.1 as int),
            (o.1.0 as int, o.1.1 as int),
            (o.2.0 as int, o.2.1 as int),
            (o.3.0 as int, o.3.1 as int),
        ],
{
    let o = match s {
        Shape::I => match r {
            Rotation::Up | Rotation::Down => ((0, 0), (1, 0), (-1, 0), (-2, 0)),
            Rotation::Right | Rotation::Left => ((0, 0), (0, 1), (0, -1), (0, -2)),
        },
        Shape::J => match r {
            Rotation::Up => ((0, 0), (-1, 0), (-2, 0), (0, -1)),
            Rotation::Right => ((0, 0), (-1, 0), (0, 1), (0, 2)),
            Rotation::Down => ((0, 0), (1, 0), (2, 0), (0, 1)),
            Rotation::Left => ((0, 0), (1, 0), (0, -1), (0, -2)),
        },
        Shape::L => match r {
            Rotation::Up => ((0, 0), (1, 0), (2, 0), (0, -1)),
            Rotation::Right => ((0, 0), (-1, 0), (0, -1), (0, -2)),
            Rotation::Down => ((0, 0), (-1, 0), (-2, 0), (0, 1)),
            Rotation::Left => ((0, 0), (1, 0), (0, 1), (0, 2)),
        },
        Shape::O => ((0, 0), (-1, 0), (0, 1), (-1, 1)),
        Shape::S => match r {
            Rotation::Up | Rotation::Down => ((0, 0), (1, 0), (0, -1), (-1, -1)),
            Rotation::Right | Rotation::Left => ((0, 0), (0, -1), (-1, 0), (-1, 1)),
        },
        Shape::T => match r {
            Rotation::Up => ((0, 0), (-1, 0), (1, 0), (0, 1)),
            Rotation::Right => ((0, 0), (0, 1), (0, -1), (1, 0)),
            Rotation::Down => ((0, 0), (-1, 0), (1, 0), (0, -1)),
            Rotation::Left => ((0, 0), (0, 1), (0, -1), (-1, 0)),
        },
        Shape::Z => match r {
            Rotation::Up | Rotation::Down => ((0, 0), (1, 0), (0, 1), (-1, 1)),
            Rotation::Right | Rotation::Left => ((0, 0), (0, -1), (1, 0), (1, 1)),
        },
    };
    proof {
        assert(offsets(s, r) =~= seq![
            (o.0.0 as int, o.0.1 as int),
            (o.1.0 as int, o.1.1 as int),
            (o.2.0 as int, o.2.1 as int),
            (o.3.0 as int, o.3.1 as int),
        ]);
    }
    o
}

/// Whether the cell `tar_loc` is part of the footprint of shape `s` rotated
/// to `direction` with its anchor at `self_loc`.  Pure and stateless; this
/// is the single dispatch behind the per-shape predicates.
pub fn occupies(s: Shape, direction: Rotation, self_loc: Pos, tar_loc: Pos) -> (b: bool)
    ensures
        b == occupies_spec(
            s,
            direction,
            self_loc.x as int,
            self_loc.y as int,
            tar_loc.x as int,
            tar_loc.y as int,
        ),
{
    let o = offsets4(s, direction);
    let ax = self_loc.x as i64;
    let ay = self_loc.y as i64;
    let x = tar_loc.x as i64;
    let y = tar_loc.y as i64;
    let b = (x == ax + o.0.0 as i64 && y == ay + o.0.1 as i64) || (x == ax + o.1.0 as i64 && y
        == ay + o.1.1 as i64) || (x == ax + o.2.0 as i64 && y == ay + o.2.1 as i64) || (x == ax
        + o.3.0 as i64 && y == ay + o.3.1 as i64);
    proof {
        let fp = footprint(s, direction, self_loc.x as int, self_loc.y as int);
        lemma_contains_of_four(fp, (tar_loc.x as int, tar_loc.y as int));
    }
    b
}

/// Whether `tar_loc` is covered by the Z piece anchored at `self_loc`.
pub fn shape_z_match(self_loc: Pos, tar_loc: Pos, direction: Rotation) -> (b: bool)
    ensures
        b == occupies_spec(
            Shape::Z,
            direction,
            self_loc.x as int,
            self_loc.y as int,
            tar_loc.x as int,
            tar_loc.y as int,
        ),
{
    occupies(Shape::Z, direction, self_loc, tar_loc)
}

/// Whether `tar_loc` is covered by the S piece anchored at `self_loc`.
pub fn shape_s_match(self_loc: Pos, tar_loc: Pos, direction: Rotation) -> (b: bool)
    ensures
        b == occupies_spec(
            Shape::S,
            direction,
            self_loc.x as int,
            self_loc.y as int,
            tar_loc.x as int,
            tar_loc.y as int,
        ),
{
    occupies(Shape::S, direction, self_loc, tar_loc)
}

/// Whether `tar_loc` is covered by the L piece anchored at `self_loc`.
pub fn shape_l_match(self_loc: Pos, tar_loc: Pos, direction: Rotation) -> (b: bool)
    ensures
        b == occupies_spec(
            Shape::L,
            direction,
            self_loc.x as int,
            self_loc.y as int,
            tar_loc.x as int,
            tar_loc.y as int,
        ),
{
    occupies(Shape::L, direction, self_loc, tar_loc)
}

/// Whether `tar_loc` is covered by the J piece anchored at `self_loc`.
pub fn shape_j_match(self_loc: Pos, tar_loc: Pos, direction: Rotation) -> (b: bool)
    ensures
        b == occupies_spec(
            Shape::J,
            direction,
            self_loc.x as int,
            self_loc.y as int,
            tar_loc.x as int,
            tar_loc.y as int,
        ),
{
    occupies(Shape::J, direction, self_loc, tar_loc)
}

/// Whether `tar_loc` is covered by the I piece anchored at `self_loc`.
pub fn shape_i_match(self_loc: Pos, tar_loc: Pos, direction: Rotation) -> (b: bool)
    ensures
        b == occupies_spec(
            Shape::I,
            direction,
            self_loc.x as int,
            self_loc.y as int,
            tar_loc.x as int,
            tar_loc.y as int,
        ),
{
    occupies(Shape::I, direction, self_loc, tar_loc)
}

/// Whether `tar_loc` is covered by the O piece anchored at `self_loc`.
/// The O piece looks the same in every rotation, so none is passed.
pub fn shape_o_match(self_loc: Pos, tar_loc: Pos) -> (b: bool)
    ensures
        forall|direction: Rotation|
            b == occupies_spec(
                Shape::O,
                direction,
                self_loc.x as int,
                self_loc.y as int,
                tar_loc.x as int,
                tar_loc.y as int,
            ),
{
    occupies(Shape::O, Rotation::Up, self_loc, tar_loc)
}

/// Whether `tar_loc` is covered by the T piece anchored at `self_loc`.
pub fn shape_t_match(self_loc: Pos, tar_loc: Pos, direction: Rotation) -> (b: bool)
    ensures
        b == occupies_spec(
            Shape::T,
            direction,
            self_loc.x as int,
            self_loc.y as int,
            tar_loc.x as int,
            tar_loc.y as int,
        ),
{
    occupies(Shape::T, direction, self_loc, tar_loc)
}

} // verus!

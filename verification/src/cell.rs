//! Cells of the bounded grid, and the projection of the lattice onto it.

use vstd::prelude::*;
use vstd::arithmetic::div_mod::lemma_mod_multiples_vanish;
use crate::pos_iter::PosIter;
use crate::path::all_in_lattice;
use crate::position::{in_lattice, point, Pos};

verus! {

/// A cell `(col, row)` of the grid, or the size `(width, height)` of a grid.
pub type Cell = (u16, u16);

/// Named access to the two parts of a cell.
pub trait Cellular {
    /// The column, counted from the left edge.
    spec fn col_spec(&self) -> u16;

    /// The row, counted from the top edge.
    spec fn row_spec(&self) -> u16;

    /// The column, counted from the left edge.
    fn col(&self) -> (c: u16)
        ensures
            c == self.col_spec(),
    ;

    /// The row, counted from the top edge.
    fn row(&self) -> (r: u16)
        ensures
            r == self.row_spec(),
    ;
}

impl Cellular for Cell {
    open spec fn col_spec(&self) -> u16 {
        self.0
    }

    open spec fn row_spec(&self) -> u16 {
        self.1
    }

    #[inline]
    fn col(&self) -> (c: u16) {
        self.0
    }

    #[inline]
    fn row(&self) -> (r: u16) {
        self.1
    }
}

/// True when a grid of this size has at least one cell.
pub open spec fn is_grid(bound: Cell) -> bool {
    bound.0 > 0 && bound.1 > 0
}

/// The cell on which the lattice point `p` falls in a grid of size `bound`.
/// The origin falls on the middle of the grid, a step to the right is two
/// columns wide, a step up is one row up, and both axes wrap around.
pub open spec fn projected(p: (int, int), bound: Cell) -> Cell {
    (
        ((bound.0 as int / 2 + p.0 * 2) % (bound.0 as int)) as u16,
        ((bound.1 as int / 2 - p.1) % (bound.1 as int)) as u16,
    )
}

/// The cells on which the lattice points `ps` fall, in the same order.
pub open spec fn projected_all(ps: Seq<(int, int)>, bound: Cell) -> Seq<Cell> {
    ps.map_values(|p: (int, int)| projected(p, bound))
}

/// Every lattice point falls inside the grid: its column is less than the
/// width and its row is less than the height, and they are the Euclidean
/// remainders that the projection asks for.
pub proof fn projected_in_grid(p: (int, int), bound: Cell)
    requires
        is_grid(bound),
    ensures
        0 <= projected(p, bound).0 < bound.0,
        0 <= projected(p, bound).1 < bound.1,
        projected(p, bound).0 == (bound.0 as int / 2 + p.0 * 2) % (bound.0 as int),
        projected(p, bound).1 == (bound.1 as int / 2 - p.1) % (bound.1 as int),
{
}

/// The grid is a torus: a lattice point that lies a whole number of grid
/// widths and grid heights away from another falls on the same cell.
pub proof fn projection_wraps(p: (int, int), bound: Cell, across: int, along: int)
    requires
        is_grid(bound),
    ensures
        projected((p.0 + across * bound.0, p.1 + along * bound.1), bound) == projected(p, bound),
{
    let w = bound.0 as int;
    let h = bound.1 as int;
    assert(w / 2 + (p.0 + across * w) * 2 == w * (2 * across) + (w / 2 + p.0 * 2))
        by (nonlinear_arith);
    lemma_mod_multiples_vanish(2 * across, w / 2 + p.0 * 2, w);
    assert(h / 2 - (p.1 + along * h) == h * (-along) + (h / 2 - p.1)) by (nonlinear_arith);
    lemma_mod_multiples_vanish(-along, h / 2 - p.1, h);
}

/// Projects a lattice point onto a grid of size `bound`.
pub fn project(p: Pos, bound: Cell) -> (c: Cell)
    requires
        is_grid(bound),
    ensures
        c == projected(point(p), bound),
        c.0 < bound.0,
        c.1 < bound.1,
{
    let width: i128 = bound.0 as i128;
    let height: i128 = bound.1 as i128;
    let x: i128 = p.0 as i128;
    let y: i128 = p.1 as i128;
    let col: Option<i128> = ((bound.0 / 2) as i128 + x * 2).checked_rem_euclid(width);
    let row: Option<i128> = ((bound.1 / 2) as i128 - y).checked_rem_euclid(height);
    match (col, row) {
        (Some(c), Some(r)) => (c as u16, r as u16),
        _ => (0, 0),
    }
}

/// A pass over the cells of a body as they fall on a grid. It hands out one
/// grid cell for each lattice cell of the pass it is made from, in the same
/// order.
pub struct CellIter<'a> {
    pos_itr: PosIter<'a>,
    bound: Cell,
}

impl<'a> CellIter<'a> {
    /// The size of the grid.
    pub closed spec fn bound(&self) -> Cell {
        self.bound
    }

    /// The pass over the lattice cells.
    pub closed spec fn inner(&self) -> PosIter<'a> {
        self.pos_itr
    }

    /// The grid cells that the pass has yet to hand out, in order.
    pub open spec fn remaining(&self) -> Seq<Cell> {
        projected_all(self.inner().remaining(), self.bound())
    }

    /// The pass can be run to its end: its lattice cells can be represented,
    /// and the grid has a cell for each of them to fall on.
    pub open spec fn ready(&self) -> bool {
        &&& self.inner().fits()
        &&& self.remaining().len() > 0 ==> is_grid(self.bound())
    }

    /// The pass can take its next step: if a cell is left, it can be
    /// represented and the grid has a cell for it to fall on.
    pub open spec fn can_next(&self) -> bool {
        self.remaining().len() > 0 ==> is_grid(self.bound()) && in_lattice(
            self.inner().remaining()[0],
        )
    }

    /// The pass that projects the cells of `pos_itr` onto a grid of size
    /// `bound`.
    pub fn new(pos_itr: PosIter<'a>, bound: Cell) -> (it: CellIter<'a>)
        ensures
            it.inner() == pos_itr,
            it.bound() == bound,
    {
        CellIter { pos_itr, bound }
    }

    /// Hands out the next grid cell and moves on, or `None` when no cell is
    /// left. A pass that could be run to its end before the call still can
    /// after it.
    pub fn next(&mut self) -> (r: Option<Cell>)
        requires
            old(self).can_next(),
        ensures
            old(self).ready() ==> final(self).ready(),
            final(self).bound() == old(self).bound(),
            match r {
                Some(c) => {
                    &&& old(self).remaining().len() > 0
                    &&& c == old(self).remaining()[0]
                    &&& final(self).remaining() == old(self).remaining().drop_first()
                },
                None => {
                    &&& old(self).remaining().len() == 0
                    &&& final(self).remaining() == old(self).remaining()
                },
            },
    {
        let ghost before = self.pos_itr.remaining();
        match self.pos_itr.next() {
            Some(p) => {
                proof {
                    assert(final(self).remaining() =~= old(self).remaining().drop_first());
                    assert forall|i: int|
                        0 <= i < self.pos_itr.remaining().len() && all_in_lattice(
                            before,
                        ) implies in_lattice(#[trigger] self.pos_itr.remaining()[i]) by {
                        assert(self.pos_itr.remaining()[i] == before[i + 1]);
                    }
                }
                Some(project(p, self.bound))
            },
            None => None,
        }
    }

    /// Runs the pass to its end and gathers the grid cells.
    pub fn collect(self) -> (v: Vec<Cell>)
        requires
            self.ready(),
        ensures
            v@ == self.remaining(),
    {
        let mut it = self;
        let mut v: Vec<Cell> = Vec::new();
        loop
            invariant
                it.ready(),
                v@ + it.remaining() == self.remaining(),
            decreases it.remaining().len(),
        {
            match it.next() {
                Some(c) => {
                    v.push(c);
                },
                None => {
                    return v;
                },
            }
        }
    }
}

impl<'a> PosIter<'a> {
    /// Turns the pass over lattice cells into a pass over the grid cells on
    /// which they fall in a grid of size `bnd`.
    pub fn within_bound(self, bnd: Cell) -> (it: CellIter<'a>)
        ensures
            it.inner() == self,
            it.bound() == bnd,
    {
        CellIter::new(self, bnd)
    }
}

} // verus!

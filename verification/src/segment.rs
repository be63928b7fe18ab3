//! Straight stretches of the body, stored as a direction and a run length.

use vstd::prelude::*;
use crate::direction::Direction;

verus! {

/// A straight stretch of the body: the direction in which the head moved
/// while it laid the stretch down, and the number of cells in it.
pub type Seg = (Direction, usize);

/// Named access to the two parts of a segment.
pub trait Segment {
    /// The direction of travel that created the stretch.
    spec fn dir_spec(&self) -> Direction;

    /// The number of cells in the stretch.
    spec fn len_spec(&self) -> usize;

    /// The direction of travel that created the stretch.
    fn dir(&self) -> (d: Direction)
        ensures
            d == self.dir_spec(),
    ;

    /// The number of cells in the stretch.
    fn len(&self) -> (n: usize)
        ensures
            n == self.len_spec(),
    ;
}

impl Segment for Seg {
    open spec fn dir_spec(&self) -> Direction {
        self.0
    }

    open spec fn len_spec(&self) -> usize {
        self.1
    }

    #[inline]
    fn dir(&self) -> (d: Direction) {
        self.0
    }

    #[inline]
    fn len(&self) -> (n: usize) {
        self.1
    }
}

/// Lengthening and shortening by one cell.
pub trait IncDec: Sized {
    /// The run length that `inc` and `dec` change.
    spec fn count(&self) -> usize;

    /// The value with its run length replaced by `n`.
    spec fn with_count(&self, n: usize) -> Self;

    /// Lengthens the run by one cell.
    fn inc(&mut self)
        requires
            old(self).count() < usize::MAX,
        ensures
            *final(self) == old(self).with_count((old(self).count() + 1) as usize),
    ;

    /// Shortens the run by one cell.
    fn dec(&mut self)
        requires
            old(self).count() > 0,
        ensures
            *final(self) == old(self).with_count((old(self).count() - 1) as usize),
    ;
}

impl IncDec for Seg {
    open spec fn count(&self) -> usize {
        self.1
    }

    open spec fn with_count(&self, n: usize) -> Seg {
        (self.0, n)
    }

    #[inline]
    fn inc(&mut self) {
        self.1 = self.1 + 1;
    }

    #[inline]
    fn dec(&mut self) {
        self.1 = self.1 - 1;
    }
}

} // verus!

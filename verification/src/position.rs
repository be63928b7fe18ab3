//! Points of the unbounded lattice and the unit step between them.

use vstd::prelude::*;
use crate::direction::Direction;

verus! {

/// A lattice point `(x, y)`: `x` grows to the right, `y` grows upwards.
pub type Pos = (isize, isize);

/// The lattice point `k` steps away from `p` in direction `d`, over the
/// unbounded integers.
pub open spec fn walk(p: (int, int), d: Direction, k: int) -> (int, int) {
    match d {
        Direction::Up => (p.0, p.1 + k),
        Direction::Down => (p.0, p.1 - k),
        Direction::Left => (p.0 - k, p.1),
        Direction::Right => (p.0 + k, p.1),
    }
}

/// True when both coordinates of `p` can be held in a `Pos`.
pub open spec fn in_lattice(p: (int, int)) -> bool {
    isize::MIN <= p.0 <= isize::MAX && isize::MIN <= p.1 <= isize::MAX
}

/// The coordinates of a `Pos` as unbounded integers.
pub open spec fn point(p: Pos) -> (int, int) {
    (p.0 as int, p.1 as int)
}

/// Named access to the coordinates of a lattice point.
pub trait Position {
    /// The horizontal coordinate.
    spec fn x_spec(&self) -> isize;

    /// The vertical coordinate.
    spec fn y_spec(&self) -> isize;

    /// The horizontal coordinate.
    fn x(&self) -> (r: isize)
        ensures
            r == self.x_spec(),
    ;

    /// The vertical coordinate.
    fn y(&self) -> (r: isize)
        ensures
            r == self.y_spec(),
    ;
}

impl Position for Pos {
    open spec fn x_spec(&self) -> isize {
        self.0
    }

    open spec fn y_spec(&self) -> isize {
        self.1
    }

    #[inline]
    fn x(&self) -> (r: isize) {
        self.0
    }

    #[inline]
    fn y(&self) -> (r: isize) {
        self.1
    }
}

/// The unit step from a lattice point to its neighbour.
pub trait NextPos<P: Position> {
    /// True when the neighbour in direction `dir` can be represented.
    spec fn can_step(&self, dir: Direction) -> bool;

    /// The neighbour in direction `dir`.
    spec fn stepped(&self, dir: Direction) -> P;

    /// Steps to the neighbour in direction `dir`: up and down change `y`
    /// by one, left and right change `x` by one.
    fn next_pos(self, dir: Direction) -> (r: P)
        requires
            self.can_step(dir),
        ensures
            r == self.stepped(dir),
    ;

    /// Tells whether the neighbour in direction `dir` can be represented.
    fn has_next(&self, dir: Direction) -> (b: bool)
        ensures
            b == self.can_step(dir),
    ;
}

impl NextPos<Pos> for Pos {
    open spec fn can_step(&self, dir: Direction) -> bool {
        in_lattice(walk(point(*self), dir, 1))
    }

    open spec fn stepped(&self, dir: Direction) -> Pos {
        match dir {
            Direction::Up => (self.0, (self.1 + 1) as isize),
            Direction::Down => (self.0, (self.1 - 1) as isize),
            Direction::Left => ((self.0 - 1) as isize, self.1),
            Direction::Right => ((self.0 + 1) as isize, self.1),
        }
    }

    fn next_pos(self, dir: Direction) -> (r: Pos) {
        match dir {
            Direction::Up => (self.0, self.1 + 1),
            Direction::Down => (self.0, self.1 - 1),
            Direction::Left => (self.0 - 1, self.1),
            Direction::Right => (self.0 + 1, self.1),
        }
    }

    fn has_next(&self, dir: Direction) -> (b: bool) {
        match dir {
            Direction::Up => self.1 < isize::MAX,
            Direction::Down => self.1 > isize::MIN,
            Direction::Left => self.0 > isize::MIN,
            Direction::Right => self.0 < isize::MAX,
        }
    }
}

/// A step lands on the point one further along the walk.
pub proof fn step_is_walk(p: Pos, dir: Direction)
    requires
        p.can_step(dir),
    ensures
        point(p.stepped(dir)) == walk(point(p), dir, 1),
{
}

} // verus!

//! The four compass directions.

use vstd::prelude::*;

verus! {

/// One of the four directions in which the head can move.
#[derive(Copy, Clone, PartialEq, Eq, Debug, Structural)]
pub enum Direction {
    Up,
    Down,
    Left,
    Right,
}

impl Direction {
    /// The direction that points the other way: `Up` and `Down` swap, and so
    /// do `Left` and `Right`.
    pub open spec fn reversed(self) -> Direction {
        match self {
            Direction::Up => Direction::Down,
            Direction::Down => Direction::Up,
            Direction::Left => Direction::Right,
            Direction::Right => Direction::Left,
        }
    }

    /// Where this direction stands in a glyph table: `Up`, `Down`, `Left`,
    /// `Right` are 0, 1, 2, 3.
    pub open spec fn ordinal(self) -> int {
        match self {
            Direction::Up => 0,
            Direction::Down => 1,
            Direction::Left => 2,
            Direction::Right => 3,
        }
    }

    /// Turns the direction around.
    pub fn opposite(self) -> (r: Direction)
        ensures
            r == self.reversed(),
    {
        match self {
            Direction::Up => Direction::Down,
            Direction::Down => Direction::Up,
            Direction::Left => Direction::Right,
            Direction::Right => Direction::Left,
        }
    }

    /// The index of this direction in a glyph table.
    pub fn index(self) -> (i: usize)
        ensures
            i == self.ordinal(),
    {
        match self {
            Direction::Up => 0,
            Direction::Down => 1,
            Direction::Left => 2,
            Direction::Right => 3,
        }
    }

    /// Turning around twice gives the direction one started with.
    pub proof fn opposite_is_involution(d: Direction)
        ensures
            d.reversed().reversed() == d,
    {
    }

    /// A direction and its opposite are never the same.
    pub proof fn opposite_differs(d: Direction)
        ensures
            d.reversed() != d,
    {
    }
}

} // verus!

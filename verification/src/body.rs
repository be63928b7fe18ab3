//! The state of a snake as a mathematical value, and what one tick does to it.

use vstd::prelude::*;
use crate::direction::Direction;
use crate::path::{fits, positions, total_len};
use crate::position::{point, NextPos, Pos};
use crate::segment::Seg;

verus! {

/// A head and the stretches of the body behind it, from the stretch at the
/// head to the stretch at the tail.
pub struct Body {
    pub head: Pos,
    pub segs: Seq<Seg>,
}

impl Body {
    /// The cells that the body covers, head first.
    pub open spec fn cells(self) -> Seq<(int, int)> {
        positions(self.segs, point(self.head))
    }

    /// The number of cells in the body.
    pub open spec fn length(self) -> nat {
        total_len(self.segs)
    }

    /// True when every cell of the body can be represented.
    pub open spec fn fits(self) -> bool {
        fits(self.segs, point(self.head))
    }

    /// True when the body has a stretch and every stretch has a cell: the
    /// shape that a snake has between two ticks.
    pub open spec fn alive(self) -> bool {
        &&& self.segs.len() > 0
        &&& forall|i: int| 0 <= i < self.segs.len() ==> (#[trigger] self.segs[i]).1 >= 1
    }

    /// True when `new_dir` asks for a turn that the snake can make: it names
    /// a direction that is neither the one the head moves in nor its
    /// opposite.
    pub open spec fn turns(self, new_dir: Option<Direction>) -> bool {
        &&& self.segs.len() > 0
        &&& new_dir matches Some(d)
        &&& self.segs[0].0 != d
        &&& self.segs[0].0 != d.reversed()
    }

    /// The body after the request `new_dir` was taken in: a turn puts an
    /// empty stretch in the new direction before the others, anything else
    /// leaves the body as it is.
    pub open spec fn turned(self, new_dir: Option<Direction>) -> Body {
        if self.turns(new_dir) {
            Body { head: self.head, segs: seq![(new_dir->0, 0usize)] + self.segs }
        } else {
            self
        }
    }

    /// The body after the head moved one step in the direction of the first
    /// stretch, which grows by the cell that the head left.
    pub open spec fn stepped(self) -> Body {
        if self.segs.len() > 0 {
            Body {
                head: self.head.stepped(self.segs[0].0),
                segs: self.segs.update(0, (self.segs[0].0, (self.segs[0].1 + 1) as usize)),
            }
        } else {
            self
        }
    }

    /// The body after the tail drew in by one cell: the last stretch loses a
    /// cell, and leaves the body when it had no more than one.
    pub open spec fn retracted(self) -> Body {
        if self.segs.len() > 0 {
            let last = self.segs.last();
            if last.1 > 1 {
                Body {
                    head: self.head,
                    segs: self.segs.update(self.segs.len() - 1, (last.0, (last.1 - 1) as usize)),
                }
            } else {
                Body { head: self.head, segs: self.segs.drop_last() }
            }
        } else {
            self
        }
    }

    /// The body after one tick with the request `new_dir`: turn, step, draw
    /// the tail in.
    pub open spec fn advanced(self, new_dir: Option<Direction>) -> Body {
        self.turned(new_dir).stepped().retracted()
    }

    /// True when a tick with the request `new_dir` stays within what the
    /// machine can count: the head has a neighbour to move to and the first
    /// stretch can take one more cell.
    pub open spec fn can_advance(self, new_dir: Option<Direction>) -> bool {
        let t = self.turned(new_dir);
        t.segs.len() > 0 ==> t.head.can_step(t.segs[0].0) && t.segs[0].1 < usize::MAX
    }

    /// The body with one more cell in its last stretch.
    pub open spec fn grown(self) -> Body {
        if self.segs.len() > 0 {
            let last = self.segs.last();
            Body {
                head: self.head,
                segs: self.segs.update(self.segs.len() - 1, (last.0, (last.1 + 1) as usize)),
            }
        } else {
            self
        }
    }

    /// True when the last stretch can take one more cell.
    pub open spec fn can_grow(self) -> bool {
        self.segs.len() > 0 ==> self.segs.last().1 < usize::MAX
    }

    /// True when a cell of the body other than the first lies where the head
    /// is.
    pub open spec fn collides(self) -> bool {
        exists|i: int| 1 <= i < self.cells().len() && #[trigger] self.cells()[i] == point(self.head)
    }

    /// The body of a new snake: one stretch of `len` cells that hangs down
    /// from `start`.
    pub open spec fn straight(start: Pos, len: usize) -> Body {
        Body { head: start, segs: seq![(Direction::Up, len)] }
    }
}

} // verus!

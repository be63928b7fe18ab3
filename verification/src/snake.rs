//! The snake: a head, a deque of stretches, and the tick that moves them.

use vstd::prelude::*;
use std::collections::VecDeque;
use crate::body::Body;
use crate::direction::Direction;
use crate::laws::{
    advance_keeps_alive, advance_keeps_fit, advance_keeps_length, grow_adds_tail_cell,
    grow_keeps_alive, straight_is_clear,
};
use crate::pos_iter::{PosIter, PosIterBuilder};
use crate::path::all_in_lattice;
use crate::position::{in_lattice, point, walk, NextPos, Pos};
use crate::segment::{IncDec, Seg, Segment};

verus! {

/// A snake on the lattice.
pub struct Snaker {
    head: Pos,
    segs: VecDeque<Seg>,
}

/// The snake of the game.
pub type Snake = Snaker;

impl View for Snaker {
    type V = Body;

    closed spec fn view(&self) -> Body {
        Body { head: self.head, segs: self.segs@ }
    }
}

impl Clone for Snaker {
    /// A second snake with the same head and the same stretches.
    fn clone(&self) -> (s: Snaker)
        ensures
            s@ == self@,
    {
        let mut segs: VecDeque<Seg> = VecDeque::new();
        let mut i: usize = 0;
        while i < self.segs.len()
            invariant
                i <= self.segs@.len(),
                segs@ == self.segs@.take(i as int),
            decreases self.segs@.len() - i,
        {
            segs.push_back(self.segs[i]);
            i = i + 1;
        }
        proof {
            assert(segs@ =~= self.segs@);
        }
        Snaker { head: self.head, segs }
    }
}

impl Snaker {
    /// A snake of `len` cells whose head is at `start` and whose body hangs
    /// straight down from it, ready to move up.
    pub fn new(start: Pos, len: usize) -> (s: Snaker)
        ensures
            s@ == Body::straight(start, len),
            s@.length() == len,
            len >= 1 ==> s@.alive(),
            !s@.collides(),
            s@.fits() == (len > 0 ==> in_lattice(walk(point(start), Direction::Down, len - 1))),
    {
        let mut segs: VecDeque<Seg> = VecDeque::new();
        segs.push_back((Direction::Up, len));
        let s = Snaker { head: start, segs };
        proof {
            assert(s@.segs =~= seq![(Direction::Up, len)]);
            straight_is_clear(start, len);
        }
        s
    }

    /// One tick. A request for a turn is taken in unless it names the
    /// direction of travel or its opposite; then the head moves one step and
    /// the tail draws in by one cell.
    pub fn snaking(&mut self, new_dir: Option<Direction>)
        requires
            old(self)@.can_advance(new_dir),
        ensures
            final(self)@ == old(self)@.advanced(new_dir),
            old(self)@.alive() ==> final(self)@.alive(),
            old(self)@.alive() ==> final(self)@.length() == old(self)@.length(),
            old(self)@.fits() ==> final(self)@.fits(),
    {
        proof {
            if old(self)@.alive() {
                advance_keeps_alive(old(self)@, new_dir);
                advance_keeps_length(old(self)@, new_dir);
            }
            if old(self)@.fits() {
                advance_keeps_fit(old(self)@, new_dir);
            }
        }
        if let Some(d) = new_dir {
            if self.segs.len() > 0 {
                let top_seg: Seg = self.segs[0];
                if top_seg.dir() != d && top_seg.dir() != d.opposite() {
                    self.segs.push_front((d, 0));
                }
            }
        }
        proof {
            assert(self@.segs =~= old(self)@.turned(new_dir).segs);
        }
        if let Some(top_seg) = self.segs.pop_front() {
            let mut top_seg: Seg = top_seg;
            self.head = self.head.next_pos(top_seg.dir());
            top_seg.inc();
            self.segs.push_front(top_seg);
        }
        proof {
            assert(self@.segs =~= old(self)@.turned(new_dir).stepped().segs);
        }
        if let Some(lst_seg) = self.segs.pop_back() {
            let mut lst_seg: Seg = lst_seg;
            if lst_seg.len() > 1 {
                lst_seg.dec();
                self.segs.push_back(lst_seg);
            }
        }
        proof {
            assert(self@.segs =~= old(self)@.advanced(new_dir).segs);
        }
    }

    /// Tells whether the head lies on another cell of the body.
    pub fn is_collide(&self) -> (b: bool)
        requires
            self@.fits(),
        ensures
            b == self@.collides(),
    {
        let mut it = (&self.segs).iter_from_start(self.head);
        let ghost cells = self@.cells();
        let first: Option<Pos> = it.next();
        if first.is_none() {
            return false;
        }
        let ghost mut seen: int = 1;
        loop
            invariant
                all_in_lattice(cells),
                cells == self@.cells(),
                1 <= seen <= cells.len(),
                it.remaining() == cells.skip(seen),
                forall|i: int| 1 <= i < seen ==> cells[i] != point(self.head),
            decreases cells.len() - seen,
        {
            match it.next() {
                Some(p) => {
                    proof {
                        assert(cells.skip(seen)[0] == cells[seen]);
                        assert(cells.skip(seen).drop_first() =~= cells.skip(seen + 1));
                    }
                    if p.0 == self.head.0 && p.1 == self.head.1 {
                        return true;
                    }
                    proof {
                        seen = seen + 1;
                    }
                },
                None => {
                    return false;
                },
            }
        }
    }

    /// Lengthens the last stretch by one cell.
    pub fn grow(&mut self)
        requires
            old(self)@.can_grow(),
        ensures
            final(self)@ == old(self)@.grown(),
            old(self)@.alive() ==> final(self)@.alive(),
            old(self)@.alive() ==> final(self)@.length() == old(self)@.length() + 1,
    {
        proof {
            if old(self)@.alive() {
                grow_keeps_alive(old(self)@);
                grow_adds_tail_cell(old(self)@);
            }
        }
        if let Some(lst_seg) = self.segs.pop_back() {
            let mut lst_seg: Seg = lst_seg;
            lst_seg.inc();
            self.segs.push_back(lst_seg);
        }
        proof {
            assert(self@.segs =~= old(self)@.grown().segs);
        }
    }

    /// The direction of travel: that of the stretch at the head, or `None`
    /// when the snake has no stretch.
    pub fn direction(&self) -> (d: Option<Direction>)
        ensures
            d == if self@.segs.len() > 0 {
                Some(self@.segs[0].0)
            } else {
                None
            },
    {
        if self.segs.len() > 0 {
            let top_seg: Seg = self.segs[0];
            Some(top_seg.dir())
        } else {
            None
        }
    }

    /// Tells whether a tick with the request `new_dir` stays within what
    /// the machine can count.
    pub fn can_snake(&self, new_dir: Option<Direction>) -> (b: bool)
        ensures
            b == self@.can_advance(new_dir),
    {
        if self.segs.len() == 0 {
            return true;
        }
        let top_seg: Seg = self.segs[0];
        let mut ahead: Seg = top_seg;
        if let Some(d) = new_dir {
            if top_seg.dir() != d && top_seg.dir() != d.opposite() {
                ahead = (d, 0);
            }
        }
        proof {
            assert(self@.turned(new_dir).segs[0] == ahead);
        }
        self.head.has_next(ahead.dir()) && ahead.len() < usize::MAX
    }

    /// Tells whether the last stretch can take one more cell.
    pub fn can_grow(&self) -> (b: bool)
        ensures
            b == self@.can_grow(),
    {
        let n: usize = self.segs.len();
        if n == 0 {
            return true;
        }
        let lst_seg: Seg = self.segs[n - 1];
        lst_seg.len() < usize::MAX
    }

    /// Tells whether every cell of the body can be represented.
    pub fn is_fit(&self) -> (b: bool)
        ensures
            b == self@.fits(),
    {
        self.iter().is_fit()
    }

    /// The stretches of the body, from the head to the tail.
    pub fn segments(&self) -> (v: Vec<Seg>)
        ensures
            v@ == self@.segs,
    {
        let mut v: Vec<Seg> = Vec::new();
        let mut i: usize = 0;
        while i < self.segs.len()
            invariant
                i <= self.segs@.len(),
                v@ == self.segs@.take(i as int),
            decreases self.segs@.len() - i,
        {
            v.push(self.segs[i]);
            i = i + 1;
        }
        proof {
            assert(v@ =~= self.segs@);
        }
        v
    }

    /// The head.
    pub fn head(&self) -> (p: Pos)
        ensures
            p == self@.head,
    {
        self.head
    }

    /// A pass over the cells of the body, head first.
    pub fn iter(&self) -> (it: PosIter<'_>)
        ensures
            it.remaining() == self@.cells(),
            it.remaining().len() > 0 ==> it.remaining()[0] == point(self@.head),
    {
        (&self.segs).iter_from_start(self.head)
    }
}

} // verus!

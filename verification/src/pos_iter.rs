//! A single pass over the cells of a body, from the head to the tail.

use vstd::prelude::*;
use std::collections::VecDeque;
use crate::direction::Direction;
use crate::path::{
    all_in_lattice, fits, fits_by_stretch, positions, positions_first, positions_len, run,
    run_in_lattice, total_len,
};
use crate::position::{in_lattice, point, walk, NextPos, Pos};
use crate::segment::{Seg, Segment};

verus! {

/// Where the stretches of a pass are read from.
enum Source<'a> {
    Deque(&'a VecDeque<Seg>),
    Slice(&'a [Seg]),
}

impl<'a> Source<'a> {
    spec fn view(&self) -> Seq<Seg> {
        match self {
            Source::Deque(d) => d@,
            Source::Slice(s) => s@,
        }
    }

    fn len(&self) -> (n: usize)
        ensures
            n == self@.len(),
    {
        match self {
            Source::Deque(d) => d.len(),
            Source::Slice(s) => s.len(),
        }
    }

    fn get(&self, i: usize) -> (s: Seg)
        requires
            i < self@.len(),
        ensures
            s == self@[i as int],
    {
        match self {
            Source::Deque(d) => d[i],
            Source::Slice(s) => s[i],
        }
    }
}

/// A pass over the cells of a body. It is used up as it goes: each call of
/// `next` hands out one cell, and after the last cell it hands out `None`.
pub struct PosIter<'a> {
    segs: Source<'a>,
    taken: usize,
    seg: Option<Seg>,
    pos: Pos,
    idx: usize,
    due: Option<Direction>,
}

impl<'a> PosIter<'a> {
    /// The bookkeeping of a pass is consistent.
    #[verifier::type_invariant]
    spec fn wf(&self) -> bool {
        &&& self.taken <= self.segs@.len()
        &&& match self.seg {
            Some(s) => self.idx <= s.1,
            None => self.idx == 0,
        }
    }

    /// The stretches that the pass has not begun yet.
    closed spec fn ahead(&self) -> Seq<Seg> {
        self.segs@.skip(self.taken as int)
    }

    /// The cells left in the stretch that the pass is in.
    closed spec fn left(&self) -> int {
        match self.seg {
            Some(s) => s.1 - self.idx,
            None => 0,
        }
    }

    /// The direction in which the pass moves through its stretch.
    closed spec fn heading(&self) -> Direction {
        match self.seg {
            Some(s) => s.0.reversed(),
            None => Direction::Up,
        }
    }

    /// The running coordinate: where the next cell lies, if there is one.
    /// The pass keeps the cell that it handed out last and the step that is
    /// due from there.
    closed spec fn cursor(&self) -> (int, int) {
        match self.due {
            Some(d) => walk(point(self.pos), d, 1),
            None => point(self.pos),
        }
    }

    /// The cells that the pass has yet to hand out, in order.
    pub closed spec fn remaining(&self) -> Seq<(int, int)> {
        run(self.cursor(), self.heading(), self.left() as nat) + positions(
            self.ahead(),
            walk(self.cursor(), self.heading(), self.left()),
        )
    }

    /// True when every cell that the pass has yet to hand out can be
    /// represented.
    pub open spec fn fits(&self) -> bool {
        all_in_lattice(self.remaining())
    }

    /// A pass that has handed out nothing yet.
    fn fresh(segs: Source<'a>, start: Pos) -> (it: PosIter<'a>)
        ensures
            it.remaining() == positions(segs@, point(start)),
            it.remaining().len() > 0 ==> it.remaining()[0] == point(start),
    {
        proof {
            positions_len(segs@, point(start));
            if total_len(segs@) > 0 {
                positions_first(segs@, point(start));
            }
        }
        let it = PosIter { segs, taken: 0, seg: None, pos: start, idx: 0, due: None };
        proof {
            assert(it.ahead() =~= segs@);
            assert(run(point(start), Direction::Up, 0) =~= Seq::empty());
            assert(it.remaining() =~= positions(segs@, point(start)));
        }
        it
    }

    /// A pass over the body with the stretches `segs` and the head `start`.
    pub fn new(segs: &'a VecDeque<Seg>, start: Pos) -> (it: PosIter<'a>)
        ensures
            it.remaining() == positions(segs@, point(start)),
            it.remaining().len() > 0 ==> it.remaining()[0] == point(start),
    {
        PosIter::fresh(Source::Deque(segs), start)
    }

    /// A pass over the body whose stretches lie in a slice.
    pub fn over(segs: &'a [Seg], start: Pos) -> (it: PosIter<'a>)
        ensures
            it.remaining() == positions(segs@, point(start)),
            it.remaining().len() > 0 ==> it.remaining()[0] == point(start),
    {
        PosIter::fresh(Source::Slice(segs), start)
    }

    /// Hands out the next cell and moves on, or `None` when no cell is left.
    /// The cell that is handed out has to be one that can be represented.
    pub fn next(&mut self) -> (r: Option<Pos>)
        requires
            old(self).remaining().len() > 0 ==> in_lattice(old(self).remaining()[0]),
        ensures
            match r {
                Some(p) => {
                    &&& old(self).remaining().len() > 0
                    &&& point(p) == old(self).remaining()[0]
                    &&& final(self).remaining() == old(self).remaining().drop_first()
                },
                None => {
                    &&& old(self).remaining().len() == 0
                    &&& final(self).remaining() == old(self).remaining()
                },
            },
    {
        proof {
            use_type_invariant(&*self);
        }
        loop
            invariant
                self.wf(),
                self.remaining() == old(self).remaining(),
                self.remaining().len() > 0 ==> in_lattice(self.remaining()[0]),
            decreases 2 * (self.segs@.len() - self.taken) + (if self.seg is Some { 1int } else { 0 }),
        {
            match self.seg {
                None => {
                    if self.taken < self.segs.len() {
                        let ghost before = *self;
                        let s: Seg = self.segs.get(self.taken);
                        self.seg = Some(s);
                        self.taken = self.taken + 1;
                        proof {
                            assert(before.ahead().drop_first() =~= self.ahead());
                            assert(before.ahead()[0] == s);
                            assert(run(self.cursor(), Direction::Up, 0) =~= Seq::empty());
                            assert(walk(self.cursor(), Direction::Up, 0) == self.cursor());
                            assert(self.remaining() =~= before.remaining());
                        }
                    } else {
                        proof {
                            assert(self.ahead() =~= Seq::empty());
                            assert(self.remaining() =~= Seq::empty());
                        }
                        return None;
                    }
                },
                Some(s) => {
                    if self.idx >= s.len() {
                        let ghost before = *self;
                        self.idx = 0;
                        self.seg = None;
                        proof {
                            assert(walk(self.cursor(), before.heading(), 0) == self.cursor());
                            assert(walk(self.cursor(), Direction::Up, 0) == self.cursor());
                            assert(self.remaining() =~= before.remaining());
                        }
                    } else {
                        let ghost before = *self;
                        let back: Direction = s.dir().opposite();
                        proof {
                            assert(before.remaining()[0] == before.cursor());
                        }
                        if let Some(d) = self.due {
                            self.pos = self.pos.next_pos(d);
                        }
                        self.due = Some(back);
                        self.idx = self.idx + 1;
                        proof {
                            assert(point(self.pos) == before.cursor());
                            assert(self.cursor() == walk(before.cursor(), back, 1));
                            assert(walk(self.cursor(), back, self.left()) == walk(
                                before.cursor(),
                                back,
                                before.left(),
                            ));
                            assert(run(before.cursor(), back, before.left() as nat).drop_first()
                                =~= run(self.cursor(), back, self.left() as nat));
                            assert(before.remaining().drop_first() =~= self.remaining());
                        }
                        return Some(self.pos);
                    }
                },
            }
        }
    }

    /// Runs the pass to its end and gathers the cells.
    pub fn collect(self) -> (v: Vec<Pos>)
        requires
            self.fits(),
        ensures
            points(v@) == self.remaining(),
    {
        let mut it = self;
        let mut v: Vec<Pos> = Vec::new();
        loop
            invariant
                it.fits(),
                points(v@) + it.remaining() == self.remaining(),
            decreases it.remaining().len(),
        {
            let ghost before = it.remaining();
            let ghost got = v@;
            match it.next() {
                Some(p) => {
                    v.push(p);
                    proof {
                        assert(points(v@) =~= points(got).push(point(p)));
                        assert(points(v@) + it.remaining() =~= points(got) + before);
                        assert forall|i: int| 0 <= i < it.remaining().len() implies in_lattice(
                            #[trigger] it.remaining()[i],
                        ) by {
                            assert(it.remaining()[i] == before[i + 1]);
                        }
                    }
                },
                None => {
                    proof {
                        assert(points(v@) + it.remaining() =~= points(v@));
                    }
                    return v;
                },
            }
        }
    }

    /// Tells whether every cell that the pass has yet to hand out can be
    /// represented. The pass itself is left as it is.
    pub fn is_fit(&self) -> (b: bool)
        ensures
            b == self.fits(),
    {
        proof {
            use_type_invariant(self);
        }
        let (back, left): (Direction, usize) = match self.seg {
            Some(s) => (s.0.opposite(), s.1 - self.idx),
            None => (Direction::Up, 0),
        };
        let mut at: (i128, i128) = (self.pos.0 as i128, self.pos.1 as i128);
        if let Some(d) = self.due {
            at = stride(at, d, 1);
        }
        proof {
            let rest = positions(self.ahead(), walk(self.cursor(), back, left as int));
            split_in_lattice(run(self.cursor(), back, left as nat), rest);
            run_in_lattice(self.cursor(), back, left as nat);
        }
        if left > 0 {
            if !within(at) || !within(stride(at, back, left - 1)) {
                return false;
            }
        }
        at = stride(at, back, left);
        let mut i: usize = self.taken;
        while i < self.segs.len()
            invariant
                self.taken <= i <= self.segs@.len(),
                self.fits() == fits(self.segs@.skip(i as int), (at.0 as int, at.1 as int)),
                isize::MIN - 1 <= at.0 <= isize::MAX + 1,
                isize::MIN - 1 <= at.1 <= isize::MAX + 1,
            decreases self.segs@.len() - i,
        {
            let s: Seg = self.segs.get(i);
            let d: Direction = s.0.opposite();
            proof {
                let rest = self.segs@.skip(i as int);
                assert(rest.drop_first() =~= self.segs@.skip(i + 1));
                assert(rest[0] == s);
                fits_by_stretch(rest, (at.0 as int, at.1 as int));
                run_in_lattice((at.0 as int, at.1 as int), d, s.1 as nat);
            }
            if s.1 > 0 {
                if !within(at) || !within(stride(at, d, s.1 - 1)) {
                    return false;
                }
            }
            at = stride(at, d, s.1);
            i = i + 1;
        }
        proof {
            assert(positions(self.segs@.skip(i as int), (at.0 as int, at.1 as int)) =~= Seq::empty());
        }
        true
    }
}

/// Two rows of cells can be represented when each of them can.
proof fn split_in_lattice(a: Seq<(int, int)>, b: Seq<(int, int)>)
    ensures
        all_in_lattice(a + b) == (all_in_lattice(a) && all_in_lattice(b)),
{
    let c = a + b;
    if all_in_lattice(c) {
        assert forall|i: int| 0 <= i < a.len() implies in_lattice(#[trigger] a[i]) by {
            assert(a[i] == c[i]);
        }
        assert forall|i: int| 0 <= i < b.len() implies in_lattice(#[trigger] b[i]) by {
            assert(b[i] == c[a.len() + i]);
        }
    }
    if all_in_lattice(a) && all_in_lattice(b) {
        assert forall|i: int| 0 <= i < c.len() implies in_lattice(#[trigger] c[i]) by {
            if i < a.len() {
                assert(c[i] == a[i]);
            } else {
                assert(c[i] == b[i - a.len()]);
            }
        }
    }
}

/// The coordinates of the cells of `v` as unbounded integers.
pub open spec fn points(v: Seq<Pos>) -> Seq<(int, int)> {
    v.map_values(|p: Pos| point(p))
}

/// The point `n` steps from `p` in direction `d`, in arithmetic wide enough
/// for any walk that begins in the lattice or next to it.
fn stride(p: (i128, i128), d: Direction, n: usize) -> (q: (i128, i128))
    requires
        isize::MIN - 1 <= p.0 <= isize::MAX + 1,
        isize::MIN - 1 <= p.1 <= isize::MAX + 1,
    ensures
        (q.0 as int, q.1 as int) == walk((p.0 as int, p.1 as int), d, n as int),
{
    let k: i128 = n as i128;
    match d {
        Direction::Up => (p.0, p.1 + k),
        Direction::Down => (p.0, p.1 - k),
        Direction::Left => (p.0 - k, p.1),
        Direction::Right => (p.0 + k, p.1),
    }
}

/// Tells whether both coordinates of `p` can be held in a `Pos`.
fn within(p: (i128, i128)) -> (b: bool)
    ensures
        b == in_lattice((p.0 as int, p.1 as int)),
{
    isize::MIN as i128 <= p.0 && p.0 <= isize::MAX as i128 && isize::MIN as i128 <= p.1 && p.1
        <= isize::MAX as i128
}

/// What a pass over the cells can be started from.
pub trait PosIterBuilder<'a>: Sized {
    /// The stretches of the body, from the head to the tail.
    spec fn stretches(&self) -> Seq<Seg>;

    /// Starts a pass over the cells of the body whose head is `pos`.
    fn iter_from_start(self, pos: Pos) -> (it: PosIter<'a>)
        ensures
            it.remaining() == positions(self.stretches(), point(pos)),
            it.remaining().len() > 0 ==> it.remaining()[0] == point(pos),
    ;
}

impl<'a> PosIterBuilder<'a> for &'a VecDeque<Seg> {
    open spec fn stretches(&self) -> Seq<Seg> {
        self@
    }

    fn iter_from_start(self, pos: Pos) -> (it: PosIter<'a>) {
        PosIter::new(self, pos)
    }
}

impl<'a> PosIterBuilder<'a> for &'a [Seg] {
    open spec fn stretches(&self) -> Seq<Seg> {
        self@
    }

    fn iter_from_start(self, pos: Pos) -> (it: PosIter<'a>) {
        PosIter::over(self, pos)
    }
}

} // verus!

//! The cells that a run-length body covers, stated over unbounded integers.

use vstd::prelude::*;
use crate::direction::Direction;
use crate::position::{in_lattice, walk};
use crate::segment::Seg;

verus! {

/// `n` cells in a row: the first is `start`, each next one lies one step
/// further in direction `d`.
pub open spec fn run(start: (int, int), d: Direction, n: nat) -> Seq<(int, int)> {
    Seq::new(n, |k: int| walk(start, d, k))
}

/// The cells of a body, head first. `segs` lists the stretches from the head
/// to the tail and `start` is the head. A stretch records the direction in
/// which the head travelled, so its cells follow each other in the opposite
/// direction; a stretch of length 0 has no cell.
pub open spec fn positions(segs: Seq<Seg>, start: (int, int)) -> Seq<(int, int)>
    decreases segs.len(),
{
    if segs.len() == 0 {
        Seq::empty()
    } else {
        let back = segs[0].0.reversed();
        run(start, back, segs[0].1 as nat) + positions(
            segs.drop_first(),
            walk(start, back, segs[0].1 as int),
        )
    }
}

/// The sum of the run lengths: the number of cells in the body.
pub open spec fn total_len(segs: Seq<Seg>) -> nat
    decreases segs.len(),
{
    if segs.len() == 0 {
        0
    } else {
        segs[0].1 as nat + total_len(segs.drop_first())
    }
}

/// The lattice point behind the last cell: where the walk from `start`
/// along all stretches comes to rest.
pub open spec fn walk_end(segs: Seq<Seg>, start: (int, int)) -> (int, int)
    decreases segs.len(),
{
    if segs.len() == 0 {
        start
    } else {
        walk_end(segs.drop_first(), walk(start, segs[0].0.reversed(), segs[0].1 as int))
    }
}

/// True when every one of `cells` can be represented.
pub open spec fn all_in_lattice(cells: Seq<(int, int)>) -> bool {
    forall|i: int| 0 <= i < cells.len() ==> in_lattice(#[trigger] cells[i])
}

/// True when every cell of the body can be represented.
pub open spec fn fits(segs: Seq<Seg>, start: (int, int)) -> bool {
    all_in_lattice(positions(segs, start))
}

/// A run of cells can be represented when its two ends can.
pub proof fn run_in_lattice(start: (int, int), d: Direction, n: nat)
    ensures
        all_in_lattice(run(start, d, n)) == (n > 0 ==> in_lattice(start) && in_lattice(
            walk(start, d, n - 1),
        )),
{
    let cells = run(start, d, n);
    if n > 0 {
        if all_in_lattice(cells) {
            assert(cells[0] == start);
            assert(cells[n - 1] == walk(start, d, n - 1));
        }
        if in_lattice(start) && in_lattice(walk(start, d, n - 1)) {
            assert forall|i: int| 0 <= i < cells.len() implies in_lattice(#[trigger] cells[i]) by {
                assert(cells[i] == walk(start, d, i));
            }
        }
    }
}

/// A body can be represented when its first stretch can and the rest of
/// it can.
pub proof fn fits_by_stretch(segs: Seq<Seg>, start: (int, int))
    requires
        segs.len() > 0,
    ensures
        fits(segs, start) == (all_in_lattice(run(start, segs[0].0.reversed(), segs[0].1 as nat))
            && fits(segs.drop_first(), walk(start, segs[0].0.reversed(), segs[0].1 as int))),
{
    let first = run(start, segs[0].0.reversed(), segs[0].1 as nat);
    let rest = positions(
        segs.drop_first(),
        walk(start, segs[0].0.reversed(), segs[0].1 as int),
    );
    let cells = positions(segs, start);
    assert(cells == first + rest);
    if all_in_lattice(cells) {
        assert forall|i: int| 0 <= i < first.len() implies in_lattice(#[trigger] first[i]) by {
            assert(first[i] == cells[i]);
        }
        assert forall|i: int| 0 <= i < rest.len() implies in_lattice(#[trigger] rest[i]) by {
            assert(rest[i] == cells[first.len() + i]);
        }
    }
    if all_in_lattice(first) && all_in_lattice(rest) {
        assert forall|i: int| 0 <= i < cells.len() implies in_lattice(#[trigger] cells[i]) by {
            if i < first.len() {
                assert(cells[i] == first[i]);
            } else {
                assert(cells[i] == rest[i - first.len()]);
            }
        }
    }
}

/// A body has as many cells as its run lengths add up to.
pub proof fn positions_len(segs: Seq<Seg>, start: (int, int))
    ensures
        positions(segs, start).len() == total_len(segs),
    decreases segs.len(),
{
    if segs.len() > 0 {
        positions_len(segs.drop_first(), walk(start, segs[0].0.reversed(), segs[0].1 as int));
    }
}

/// A stretch of length 0 is passed over: the body has the same cells with
/// it and without it.
pub proof fn empty_stretch_is_skipped(segs: Seq<Seg>, i: int, start: (int, int))
    requires
        0 <= i < segs.len(),
        segs[i].1 == 0,
    ensures
        positions(segs.remove(i), start) == positions(segs, start),
        total_len(segs.remove(i)) == total_len(segs),
        walk_end(segs.remove(i), start) == walk_end(segs, start),
        fits(segs.remove(i), start) == fits(segs, start),
    decreases segs.len(),
{
    let back = segs[0].0.reversed();
    let end = walk(start, back, segs[0].1 as int);
    let rest = segs.drop_first();
    if i == 0 {
        assert(segs.remove(0) =~= rest);
        assert(end == start);
        assert(run(start, back, 0) =~= Seq::<(int, int)>::empty());
        assert(positions(segs, start) =~= positions(rest, start));
    } else {
        let without = segs.remove(i);
        assert(without[0] == segs[0]);
        assert(without.drop_first() =~= rest.remove(i - 1));
        empty_stretch_is_skipped(rest, i - 1, end);
    }
}

/// The first cell of a body that has any cell is the head.
pub proof fn positions_first(segs: Seq<Seg>, start: (int, int))
    requires
        total_len(segs) > 0,
    ensures
        positions(segs, start).len() > 0,
        positions(segs, start)[0] == start,
    decreases segs.len(),
{
    positions_len(segs, start);
    if segs[0].1 == 0 {
        assert(walk(start, segs[0].0.reversed(), 0) == start);
        positions_first(segs.drop_first(), start);
        assert(run(start, segs[0].0.reversed(), 0).len() == 0);
        assert(positions(segs, start) =~= positions(segs.drop_first(), start));
    } else {
        assert(run(start, segs[0].0.reversed(), segs[0].1 as nat)[0] == start);
    }
}

/// True when one step leads from `p` to `q`.
pub open spec fn adjacent(p: (int, int), q: (int, int)) -> bool {
    exists|d: Direction| walk(p, d, 1) == q
}

/// The body is one path: from each cell one step leads to the next, also
/// where a stretch ends and another begins.
pub proof fn body_is_connected(segs: Seq<Seg>, start: (int, int), i: int)
    requires
        0 < i < positions(segs, start).len(),
    ensures
        adjacent(positions(segs, start)[i - 1], positions(segs, start)[i]),
    decreases segs.len(),
{
    let back = segs[0].0.reversed();
    let n = segs[0].1 as int;
    let end = walk(start, back, n);
    let rest = positions(segs.drop_first(), end);
    let cells = positions(segs, start);
    assert(cells == run(start, back, n as nat) + rest);
    if i < n {
        assert(walk(cells[i - 1], back, 1) == cells[i]);
    } else if i == n {
        positions_len(segs.drop_first(), end);
        positions_first(segs.drop_first(), end);
        assert(cells[i] == rest[0]);
        assert(walk(cells[i - 1], back, 1) == cells[i]);
    } else {
        assert(cells[i - 1] == rest[i - 1 - n]);
        assert(cells[i] == rest[i - n]);
        body_is_connected(segs.drop_first(), end, i - n);
    }
}

} // verus!

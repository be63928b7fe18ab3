//! What holds of every snake: how a tick and a growth change the cells.

use vstd::prelude::*;
use crate::body::Body;
use crate::cell::projected;
use crate::direction::Direction;
use crate::food::Food;
use crate::path::{
    empty_stretch_is_skipped, positions, positions_first, positions_len, run, run_in_lattice,
    total_len, walk_end,
};
use crate::position::{in_lattice, point, walk, NextPos, Pos};
use crate::segment::Seg;

verus! {

/// The stretches `segs` after the tail drew in by one cell.
spec fn drawn_in(segs: Seq<Seg>) -> Seq<Seg> {
    (Body { head: (0, 0), segs }).retracted().segs
}

/// A body of one stretch is one run of cells.
proof fn one_stretch(segs: Seq<Seg>, start: (int, int))
    requires
        segs.len() == 1,
    ensures
        positions(segs, start) == run(start, segs[0].0.reversed(), segs[0].1 as nat),
        walk_end(segs, start) == walk(start, segs[0].0.reversed(), segs[0].1 as int),
        total_len(segs) == segs[0].1,
{
    let rest = segs.drop_first();
    let end = walk(start, segs[0].0.reversed(), segs[0].1 as int);
    assert(rest.len() == 0);
    assert(positions(rest, end) =~= Seq::<(int, int)>::empty());
    assert(walk_end(rest, end) == end);
    assert(total_len(rest) == 0);
    assert(positions(segs, start) =~= run(start, segs[0].0.reversed(), segs[0].1 as nat));
}

/// Drawing the tail in takes the last cell away, when the last stretch has
/// one.
proof fn positions_drawn_in(segs: Seq<Seg>, start: (int, int))
    requires
        segs.len() > 0,
        segs.last().1 >= 1,
    ensures
        positions(segs, start).len() > 0,
        positions(drawn_in(segs), start) == positions(segs, start).drop_last(),
    decreases segs.len(),
{
    let back = segs[0].0.reversed();
    let n = segs[0].1;
    let end = walk(start, back, n as int);
    let rest = segs.drop_first();
    if segs.len() == 1 {
        one_stretch(segs, start);
        if n > 1 {
            let kept = segs.update(0, (segs[0].0, (n - 1) as usize));
            assert(drawn_in(segs) =~= kept);
            one_stretch(kept, start);
            assert(positions(kept, start) =~= positions(segs, start).drop_last());
        } else {
            assert(drawn_in(segs) =~= Seq::<Seg>::empty());
            assert(positions(drawn_in(segs), start) =~= positions(segs, start).drop_last());
        }
    } else {
        assert(rest.last() == segs.last());
        positions_drawn_in(rest, end);
        let shorter = drawn_in(segs);
        assert(shorter.len() > 0);
        assert(shorter[0] == segs[0]);
        assert(shorter.drop_first() =~= drawn_in(rest));
        assert(positions(shorter, start) =~= run(start, back, n as nat) + positions(
            drawn_in(rest),
            end,
        ));
        assert(positions(shorter, start) =~= positions(segs, start).drop_last());
    }
}

/// Lengthening the last stretch puts one cell behind the tail.
proof fn positions_grown(segs: Seq<Seg>, start: (int, int))
    requires
        segs.len() > 0,
        segs.last().1 < usize::MAX,
    ensures
        positions((Body { head: (0, 0), segs }).grown().segs, start) == positions(
            segs,
            start,
        ).push(walk_end(segs, start)),
    decreases segs.len(),
{
    let back = segs[0].0.reversed();
    let n = segs[0].1;
    let end = walk(start, back, n as int);
    let rest = segs.drop_first();
    let longer = (Body { head: (0, 0), segs }).grown().segs;
    if segs.len() == 1 {
        one_stretch(segs, start);
        one_stretch(longer, start);
        assert(run(start, back, (n + 1) as nat) =~= run(start, back, n as nat).push(end));
    } else {
        assert(rest.last() == segs.last());
        positions_grown(rest, end);
        assert(longer[0] == segs[0]);
        assert(longer.drop_first() =~= (Body { head: (0, 0), segs: rest }).grown().segs);
        assert(positions(longer, start) =~= positions(segs, start).push(walk_end(segs, start)));
    }
}

/// The head is the first cell of a body that has any cell.
pub proof fn head_is_first_cell(b: Body)
    requires
        b.length() > 0,
    ensures
        b.cells().len() > 0,
        b.cells()[0] == point(b.head),
{
    positions_first(b.segs, point(b.head));
}

/// A body has as many cells as its run lengths add up to.
pub proof fn cells_are_counted(b: Body)
    ensures
        b.cells().len() == b.length(),
{
    positions_len(b.segs, point(b.head));
}

/// After the turn and the step, and before the tail draws in, the body is
/// the new head followed by the cells it had.
proof fn step_puts_head_first(b: Body, new_dir: Option<Direction>)
    requires
        b.segs.len() > 0,
        b.can_advance(new_dir),
    ensures
        point(b.turned(new_dir).stepped().head) == walk(
            point(b.head),
            b.turned(new_dir).segs[0].0,
            1,
        ),
        b.turned(new_dir).stepped().cells() == seq![point(b.turned(new_dir).stepped().head)]
            + b.cells(),
{
    let t = b.turned(new_dir);
    let s = t.stepped();
    let d = t.segs[0].0;
    let h = point(b.head);
    let h1 = point(s.head);
    let back = d.reversed();
    let n = t.segs[0].1;
    assert(h1 == walk(h, d, 1));
    assert(s.segs.drop_first() =~= t.segs.drop_first());
    assert(walk(h1, back, n + 1) == walk(h, back, n as int));
    assert(run(h1, back, (n + 1) as nat) =~= seq![h1] + run(h, back, n as nat));
    if b.turns(new_dir) {
        assert(t.segs.drop_first() =~= b.segs);
        assert(run(h, back, 0) =~= Seq::<(int, int)>::empty());
    }
    assert(s.cells() =~= seq![h1] + b.cells());
}

/// A tick moves the body as a snake moves: the head goes one step in the
/// direction of travel, every other cell takes the place of the cell before
/// it, and the last cell is given up.
pub proof fn advance_shifts_cells(b: Body, new_dir: Option<Direction>)
    requires
        b.segs.len() > 0,
        b.segs.last().1 >= 1,
        b.can_advance(new_dir),
    ensures
        point(b.advanced(new_dir).head) == walk(point(b.head), b.turned(new_dir).segs[0].0, 1),
        b.cells().len() > 0,
        b.advanced(new_dir).cells() == seq![point(b.advanced(new_dir).head)] + b.cells().drop_last(),
{
    let s = b.turned(new_dir).stepped();
    let h1 = point(s.head);
    step_puts_head_first(b, new_dir);
    assert(s.segs.len() > 0);
    assert(s.segs.last().1 >= 1);
    positions_drawn_in(s.segs, h1);
    assert(drawn_in(s.segs) == s.retracted().segs);
    assert(b.advanced(new_dir).cells() =~= seq![h1] + b.cells().drop_last());
}

/// A tick makes the snake collide exactly when its head steps on a cell
/// that the body held before the tick and still holds after it: any cell
/// but the last, which the tail gives up.
pub proof fn advance_collides_on_kept_cell(b: Body, new_dir: Option<Direction>)
    requires
        b.segs.len() > 0,
        b.segs.last().1 >= 1,
        b.can_advance(new_dir),
    ensures
        b.advanced(new_dir).collides() <==> exists|j: int|
            0 <= j < b.cells().len() - 1 && #[trigger] b.cells()[j] == point(
                b.advanced(new_dir).head,
            ),
{
    advance_shifts_cells(b, new_dir);
    let a = b.advanced(new_dir);
    let h1 = point(a.head);
    if a.collides() {
        let i = choose|i: int| 1 <= i < a.cells().len() && #[trigger] a.cells()[i] == h1;
        assert(a.cells()[i] == b.cells().drop_last()[i - 1]);
        assert(b.cells()[i - 1] == h1);
    }
    if exists|j: int| 0 <= j < b.cells().len() - 1 && #[trigger] b.cells()[j] == h1 {
        let j = choose|j: int| 0 <= j < b.cells().len() - 1 && #[trigger] b.cells()[j] == h1;
        assert(a.cells()[j + 1] == b.cells().drop_last()[j]);
        assert(a.cells()[j + 1] == h1);
    }
}

/// A tick leaves the number of cells as it is: the head gains the cell that
/// the tail gives up.
pub proof fn advance_keeps_length(b: Body, new_dir: Option<Direction>)
    requires
        b.segs.len() > 0,
        b.segs.last().1 >= 1,
        b.can_advance(new_dir),
    ensures
        b.advanced(new_dir).length() == b.length(),
{
    advance_shifts_cells(b, new_dir);
    cells_are_counted(b);
    cells_are_counted(b.advanced(new_dir));
}

/// A snake that is in shape before a tick is in shape after it: it has a
/// stretch, and every stretch has a cell.
pub proof fn advance_keeps_alive(b: Body, new_dir: Option<Direction>)
    requires
        b.alive(),
        b.can_advance(new_dir),
    ensures
        b.advanced(new_dir).alive(),
{
    let t = b.turned(new_dir);
    let s = t.stepped();
    assert forall|i: int| 0 <= i < s.segs.len() implies (#[trigger] s.segs[i]).1 >= 1 by {
        if i > 0 {
            if b.turns(new_dir) {
                assert(s.segs[i] == b.segs[i - 1]);
            } else {
                assert(s.segs[i] == b.segs[i]);
            }
        }
    }
    let a = s.retracted();
    assert(a == b.advanced(new_dir));
    if s.segs.last().1 > 1 {
        assert forall|i: int| 0 <= i < a.segs.len() implies (#[trigger] a.segs[i]).1 >= 1 by {
            if i < a.segs.len() - 1 {
                assert(a.segs[i] == s.segs[i]);
            }
        }
    } else {
        // The last stretch has one cell, so it is not the one at the head: that one
        // either had a cell and gained one, or it is new and another follows it.
        assert(s.segs[0].1 >= 2 || s.segs.len() >= 2) by {
            if !b.turns(new_dir) {
                assert(b.segs[0].1 >= 1);
            }
        }
        assert forall|i: int| 0 <= i < a.segs.len() implies (#[trigger] a.segs[i]).1 >= 1 by {
            assert(a.segs[i] == s.segs[i]);
        }
    }
}

/// A tick keeps the body where coordinates can be represented, when the
/// head has a neighbour to move to.
pub proof fn advance_keeps_fit(b: Body, new_dir: Option<Direction>)
    requires
        b.fits(),
        b.can_advance(new_dir),
    ensures
        b.advanced(new_dir).fits(),
{
    if b.segs.len() > 0 {
        let s = b.turned(new_dir).stepped();
        let a = b.advanced(new_dir);
        let h1 = point(s.head);
        step_puts_head_first(b, new_dir);
        assert forall|i: int| 0 <= i < s.cells().len() implies in_lattice(
            #[trigger] s.cells()[i],
        ) by {
            if i > 0 {
                assert(s.cells()[i] == b.cells()[i - 1]);
            }
        }
        assert(drawn_in(s.segs) == a.segs);
        if s.segs.last().1 >= 1 {
            positions_drawn_in(s.segs, h1);
            assert forall|i: int| 0 <= i < a.cells().len() implies in_lattice(
                #[trigger] a.cells()[i],
            ) by {
                assert(a.cells()[i] == s.cells()[i]);
            }
        } else {
            assert(s.segs.drop_last() =~= s.segs.remove(s.segs.len() - 1));
            empty_stretch_is_skipped(s.segs, s.segs.len() - 1, h1);
        }
    }
}

/// Growing puts one cell behind the tail and leaves every other cell where
/// it is.
pub proof fn grow_adds_tail_cell(b: Body)
    requires
        b.segs.len() > 0,
        b.can_grow(),
    ensures
        b.grown().cells() == b.cells().push(walk_end(b.segs, point(b.head))),
        b.grown().length() == b.length() + 1,
        b.grown().fits() == (b.fits() && in_lattice(walk_end(b.segs, point(b.head)))),
{
    positions_grown(b.segs, point(b.head));
    cells_are_counted(b);
    cells_are_counted(b.grown());
    let cells = b.cells();
    let more = b.grown().cells();
    if b.grown().fits() {
        assert(more[cells.len() as int] == walk_end(b.segs, point(b.head)));
        assert forall|i: int| 0 <= i < cells.len() implies in_lattice(#[trigger] cells[i]) by {
            assert(cells[i] == more[i]);
        }
    }
}

/// A snake that is in shape before it grows is in shape after it.
pub proof fn grow_keeps_alive(b: Body)
    requires
        b.alive(),
        b.can_grow(),
    ensures
        b.grown().alive(),
{
    let g = b.grown();
    assert forall|i: int| 0 <= i < g.segs.len() implies (#[trigger] g.segs[i]).1 >= 1 by {
        if i < g.segs.len() - 1 {
            assert(g.segs[i] == b.segs[i]);
        } else {
            assert(b.segs[i].1 >= 1);
        }
    }
}

/// Growth lasts. One growth and then one tick leave the body one cell
/// longer than it was, while a tick alone leaves it as long as it was: the
/// tick draws the tail in by one cell whether or not the snake has grown.
pub proof fn grow_then_advance_adds_one(b: Body, new_dir: Option<Direction>)
    requires
        b.segs.len() > 0,
        b.segs.last().1 >= 1,
        b.can_grow(),
        b.can_advance(new_dir),
        b.grown().can_advance(new_dir),
    ensures
        b.grown().advanced(new_dir).length() == b.length() + 1,
        b.advanced(new_dir).length() == b.length(),
        b.grown().advanced(new_dir).length() == b.advanced(new_dir).length() + 1,
{
    grow_adds_tail_cell(b);
    advance_keeps_length(b, new_dir);
    advance_keeps_length(b.grown(), new_dir);
}

/// A request to turn right around is dropped, and so is a request for the
/// direction of travel: the tick goes as if nothing had been asked, and no
/// stretch is added.
pub proof fn reversal_is_ignored(b: Body, d: Direction)
    requires
        b.segs.len() > 0,
        d == b.segs[0].0.reversed() || d == b.segs[0].0,
    ensures
        b.turned(Some(d)) == b,
        b.advanced(Some(d)) == b.advanced(None),
        b.can_advance(Some(d)) == b.can_advance(None),
{
}

/// Whether food is eaten is a matter of the head alone: the snake has a
/// cell, and its head falls on the food.
pub proof fn eating_is_up_to_the_head(food: Food, b: Body)
    ensures
        food.eaten_by(b) == (b.length() > 0 && projected(point(b.head), food.bound())
            == food.cell()),
{
    cells_are_counted(b);
    if b.length() > 0 {
        head_is_first_cell(b);
    }
}

/// A new snake does not touch itself, whatever its length. It has as many
/// cells as it was asked to have, it is in shape when it has a cell at all,
/// and it can be represented when its last cell can.
pub proof fn straight_is_clear(start: Pos, len: usize)
    ensures
        !Body::straight(start, len).collides(),
        len >= 1 ==> Body::straight(start, len).alive(),
        Body::straight(start, len).length() == len,
        Body::straight(start, len).fits() == (len > 0 ==> in_lattice(
            walk(point(start), Direction::Down, len - 1),
        )),
{
    run_in_lattice(point(start), Direction::Down, len as nat);
    let b = Body::straight(start, len);
    let h = point(start);
    one_stretch(b.segs, h);
    assert forall|i: int| 1 <= i < b.cells().len() implies #[trigger] b.cells()[i] != h by {
        assert(b.cells()[i] == walk(h, Direction::Down, i));
    }
}

} // verus!

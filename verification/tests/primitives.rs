use rs_snake::Direction;
use rs_snake::{IncDec, NextPos, Pos, Position, Seg, Segment};

#[test]
fn opposite_swaps_the_axes_ends() {
    assert_eq!(Direction::Up.opposite(), Direction::Down);
    assert_eq!(Direction::Down.opposite(), Direction::Up);
    assert_eq!(Direction::Left.opposite(), Direction::Right);
    assert_eq!(Direction::Right.opposite(), Direction::Left);
}

#[test]
fn opposite_of_opposite_is_the_direction() {
    for d in [Direction::Up, Direction::Down, Direction::Left, Direction::Right] {
        assert_eq!(d.opposite().opposite(), d);
        assert_ne!(d.opposite(), d);
    }
}

#[test]
fn directions_index_the_glyph_table() {
    assert_eq!(Direction::Up.index(), 0);
    assert_eq!(Direction::Down.index(), 1);
    assert_eq!(Direction::Left.index(), 2);
    assert_eq!(Direction::Right.index(), 3);
}

#[test]
fn step_moves_one_unit_on_one_axis() {
    let p: Pos = (3, -7);
    assert_eq!(p.next_pos(Direction::Up), (3, -6));
    assert_eq!(p.next_pos(Direction::Down), (3, -8));
    assert_eq!(p.next_pos(Direction::Left), (2, -7));
    assert_eq!(p.next_pos(Direction::Right), (4, -7));
}

#[test]
fn step_and_step_back_cancel() {
    let p: Pos = (0, 0);
    for d in [Direction::Up, Direction::Down, Direction::Left, Direction::Right] {
        assert_eq!(p.next_pos(d).next_pos(d.opposite()), p);
    }
}

#[test]
fn edge_of_the_lattice_has_no_neighbour_beyond() {
    let corner: Pos = (isize::MAX, isize::MIN);
    assert!(!corner.has_next(Direction::Right));
    assert!(!corner.has_next(Direction::Down));
    assert!(corner.has_next(Direction::Left));
    assert!(corner.has_next(Direction::Up));
    assert_eq!(corner.next_pos(Direction::Left), (isize::MAX - 1, isize::MIN));
    assert_eq!(corner.next_pos(Direction::Up), (isize::MAX, isize::MIN + 1));
    let other: Pos = (isize::MIN, isize::MAX);
    assert!(!other.has_next(Direction::Left));
    assert!(!other.has_next(Direction::Up));
    assert!(other.has_next(Direction::Right));
    assert!(other.has_next(Direction::Down));
}

#[test]
fn position_parts_have_names() {
    let p: Pos = (-2, 9);
    assert_eq!(p.x(), -2);
    assert_eq!(p.y(), 9);
}

#[test]
fn segment_parts_have_names() {
    let s: Seg = (Direction::Left, 4);
    assert_eq!(s.dir(), Direction::Left);
    assert_eq!(s.len(), 4);
}

#[test]
fn inc_and_dec_change_the_run_by_one() {
    let mut s: Seg = (Direction::Down, 0);
    s.inc();
    assert_eq!(s, (Direction::Down, 1));
    s.inc();
    assert_eq!(s, (Direction::Down, 2));
    s.dec();
    assert_eq!(s, (Direction::Down, 1));
    s.dec();
    assert_eq!(s, (Direction::Down, 0));
}

//! Drawing directives for a terminal: where to put the cursor and which
//! glyph to print there.

use vstd::prelude::*;
use crate::body::Body;
use crate::cell::{is_grid, projected_all, Cell, CellIter, Cellular};
use crate::snake::Snaker;

verus! {

/// What is taken on trust of `String::push` of the standard library: it
/// adds `ch` at the end of the string and changes nothing else.
pub assume_specification[ String::push ](s: &mut String, ch: char)
    ensures
        final(s)@ == old(s)@.push(ch),
;

/// The character that stands for the digit `d`.
pub open spec fn digit(d: int) -> char {
    if d == 0 {
        '0'
    } else if d == 1 {
        '1'
    } else if d == 2 {
        '2'
    } else if d == 3 {
        '3'
    } else if d == 4 {
        '4'
    } else if d == 5 {
        '5'
    } else if d == 6 {
        '6'
    } else if d == 7 {
        '7'
    } else if d == 8 {
        '8'
    } else {
        '9'
    }
}

/// The number `n` written in decimal digits, without leading zeros.
pub open spec fn decimal(n: nat) -> Seq<char>
    decreases n,
{
    if n < 10 {
        seq![digit(n as int)]
    } else {
        decimal(n / 10).push(digit((n % 10) as int))
    }
}

/// The directive that prints `glyph` on the cell in the given row and
/// column: the escape character, `[`, the row, `;`, the column, `H`, and
/// the glyph. A terminal counts rows and columns from 1 and a cell counts
/// them from 0, so each number written is one more than the cell's.
pub open spec fn directive(row: u16, col: u16, glyph: char) -> Seq<char> {
    seq!['\x1b', '['] + decimal((row + 1) as nat) + seq![';'] + decimal((col + 1) as nat)
        + seq!['H', glyph]
}

/// The directives that print `glyph` on each of `cells`, in their order.
pub open spec fn trail(cells: Seq<Cell>, glyph: char) -> Seq<char>
    decreases cells.len(),
{
    if cells.len() == 0 {
        Seq::empty()
    } else {
        trail(cells.drop_last(), glyph) + directive(cells.last().1, cells.last().0, glyph)
    }
}

/// The glyph for the head of `b`: the one of the direction of travel, or the
/// body glyph when the snake has no stretch at all.
pub open spec fn head_glyph(b: Body, glyphs: Seq<char>) -> char {
    if b.segs.len() > 0 {
        glyphs[b.segs[0].0.ordinal()]
    } else {
        glyphs[4]
    }
}

/// The picture of the body `b` on a grid of size `bound`: a directive for
/// the head with its glyph, then one for every other cell with the body
/// glyph, head to tail. A body without cells gives no text.
pub open spec fn rendered(b: Body, bound: Cell, glyphs: Seq<char>) -> Seq<char> {
    let cells = projected_all(b.cells(), bound);
    if cells.len() == 0 {
        Seq::empty()
    } else {
        directive(cells[0].1, cells[0].0, head_glyph(b, glyphs)) + trail(
            cells.drop_first(),
            glyphs[4],
        )
    }
}

/// Writes `n` in decimal digits behind `out`.
fn push_decimal(out: &mut String, n: u32)
    ensures
        final(out)@ == old(out)@ + decimal(n as nat),
    decreases n,
{
    if n >= 10 {
        push_decimal(out, n / 10);
    }
    let d: u32 = n % 10;
    let ch: char = if d == 0 {
        '0'
    } else if d == 1 {
        '1'
    } else if d == 2 {
        '2'
    } else if d == 3 {
        '3'
    } else if d == 4 {
        '4'
    } else if d == 5 {
        '5'
    } else if d == 6 {
        '6'
    } else if d == 7 {
        '7'
    } else if d == 8 {
        '8'
    } else {
        '9'
    };
    out.push(ch);
    proof {
        assert(final(out)@ =~= old(out)@ + decimal(n as nat));
    }
}

/// Writes the directive that prints `glyph` on the cell in the given row
/// and column behind `out`.
pub(crate) fn push_directive(out: &mut String, row: u16, col: u16, glyph: char)
    ensures
        final(out)@ == old(out)@ + directive(row, col, glyph),
{
    out.push('\x1b');
    out.push('[');
    push_decimal(out, row as u32 + 1);
    out.push(';');
    push_decimal(out, col as u32 + 1);
    out.push('H');
    out.push(glyph);
    proof {
        assert(final(out)@ =~= old(out)@ + directive(row, col, glyph));
    }
}

/// A snake together with the grid and the glyphs to draw it with. The
/// glyphs are those of a head that moves up, down, left and right, and the
/// glyph of the body, in this order.
pub struct SnakeFormatter<'a> {
    snk: &'a Snaker,
    bnd: Cell,
    lms: [char; 5],
}

impl<'a> SnakeFormatter<'a> {
    /// The snake that is drawn.
    pub closed spec fn snake(&self) -> Body {
        self.snk@
    }

    /// The size of the grid.
    pub closed spec fn bound(&self) -> Cell {
        self.bnd
    }

    /// The five glyphs.
    pub closed spec fn glyphs(&self) -> Seq<char> {
        self.lms@
    }

    /// The picture of the snake as text for the terminal.
    pub fn to_string(&self) -> (s: String)
        requires
            self.snake().fits(),
            self.snake().cells().len() > 0 ==> is_grid(self.bound()),
        ensures
            s@ == rendered(self.snake(), self.bound(), self.glyphs()),
    {
        let head_char: char = match self.snk.direction() {
            Some(head_dir) => self.lms[head_dir.index()],
            None => self.lms[4],
        };
        let mut cell_itr: CellIter<'_> = self.snk.iter().within_bound(self.bnd);
        let ghost cells = cell_itr.remaining();
        let mut out = String::new();
        match cell_itr.next() {
            Some(head_cell) => {
                push_directive(&mut out, head_cell.row(), head_cell.col(), head_char);
                let ghost first = out@;
                let ghost mut done: Seq<Cell> = Seq::empty();
                loop
                    invariant
                        cell_itr.ready(),
                        done + cell_itr.remaining() == cells.drop_first(),
                        out@ == first + trail(done, self.lms[4]),
                        first == directive(
                            cells[0].1,
                            cells[0].0,
                            head_glyph(self.snake(), self.glyphs()),
                        ),
                        cells == projected_all(self.snake().cells(), self.bound()),
                        cells.len() > 0,
                        self.glyphs() == self.lms@,
                    decreases cell_itr.remaining().len(),
                {
                    match cell_itr.next() {
                        Some(body_cell) => {
                            push_directive(&mut out, body_cell.row(), body_cell.col(), self.lms[4]);
                            proof {
                                let more = done.push(body_cell);
                                assert(more.drop_last() =~= done);
                                assert(more + cell_itr.remaining() =~= cells.drop_first());
                                assert(out@ =~= first + trail(more, self.lms[4]));
                                done = more;
                            }
                        },
                        None => {
                            proof {
                                assert(done =~= cells.drop_first());
                            }
                            return out;
                        },
                    }
                }
            },
            None => out,
        }
    }
}

impl Snaker {
    /// The snake made ready to be drawn on a grid of size `bound` with the
    /// glyphs `elems`.
    pub fn formatter(&self, bound: Cell, elems: [char; 5]) -> (f: SnakeFormatter<'_>)
        ensures
            f.snake() == self@,
            f.bound() == bound,
            f.glyphs() == elems@,
    {
        SnakeFormatter { snk: self, bnd: bound, lms: elems }
    }
}

} // verus!

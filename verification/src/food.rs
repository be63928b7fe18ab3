//! The food: a cell of the grid, laid down at random.

use vstd::prelude::*;
use rand::{RngCore, SeedableRng};
use rand_xorshift::XorShiftRng;
use crate::body::Body;
use crate::cell::{is_grid, projected, Cell};
use crate::render::{directive, push_directive};
use crate::snake::Snaker;

verus! {

/// The generator `XorShiftRng` of `rand_xorshift`, carried through as it
/// is: nothing is known of its state.
#[verifier::external_type_specification]
#[verifier::external_body]
pub struct ExXorShiftRng(XorShiftRng);

/// Calls `SeedableRng::from_entropy` for `XorShiftRng`: a generator seeded
/// from what the operating system supplies. Nothing is claimed of the
/// generator that comes back, and nothing is proved of the call. It does
/// not return where the system has no entropy to give.
#[verifier::external_body]
fn seeded() -> (rng: XorShiftRng) {
    XorShiftRng::from_entropy()
}

/// Calls `RngCore::next_u32` on the generator. Nothing is claimed of the
/// number that comes back, and nothing is proved of the call: any `u32`
/// may come.
#[verifier::external_body]
fn draw(rng: &mut XorShiftRng) -> (n: u32) {
    rng.next_u32()
}

/// The cell that the two drawn numbers `a` and `b` pick in a grid of size
/// `bound`. The column is taken from an odd number, so that in a grid of
/// even width it is odd; the row is taken from `b` as it is.
pub open spec fn picked(bound: Cell, a: u32, b: u32) -> Cell {
    (((a / 3 * 2 + 1) % (bound.0 as int)) as u16, (b as int % (bound.1 as int)) as u16)
}

/// A piece of food: the cell it lies on and the size of the grid it was
/// laid on. It is never changed, only replaced.
#[derive(Clone, Copy, PartialEq)]
pub struct Food {
    pos: Cell,
    bnd: Cell,
}

impl Food {
    #[verifier::type_invariant]
    spec fn inv(self) -> bool {
        is_grid(self.bnd) && self.pos.0 < self.bnd.0 && self.pos.1 < self.bnd.1
    }

    /// The cell on which the food lies.
    pub closed spec fn cell(self) -> Cell {
        self.pos
    }

    /// The size of the grid on which the food was laid.
    pub closed spec fn bound(self) -> Cell {
        self.bnd
    }

    /// True when the head of `b` falls on the food. Only the first cell of
    /// the body is looked at.
    pub open spec fn eaten_by(self, b: Body) -> bool {
        b.cells().len() > 0 && projected(b.cells()[0], self.bound()) == self.cell()
    }

    /// The food that the drawn numbers `a` and `b` pick in a grid of size
    /// `bound`.
    pub fn from_draws(bound: Cell, a: u32, b: u32) -> (food: Food)
        requires
            is_grid(bound),
        ensures
            food.bound() == bound,
            food.cell() == picked(bound, a, b),
            food.cell().0 < bound.0,
            food.cell().1 < bound.1,
            bound.0 % 2 == 0 ==> food.cell().0 % 2 == 1,
    {
        let odd: u32 = a / 3 * 2 + 1;
        let col: u32 = odd % (bound.0 as u32);
        let row: u32 = b % (bound.1 as u32);
        proof {
            if bound.0 % 2 == 0 {
                odd_over_even(odd as int, bound.0 as int);
            }
        }
        Food { pos: (col as u16, row as u16), bnd: bound }
    }

    /// Food on a cell of a grid of size `bound`, picked with two numbers
    /// drawn from a generator that is seeded anew.
    pub fn somewhere_within(bound: Cell) -> (food: Food)
        requires
            is_grid(bound),
        ensures
            food.bound() == bound,
            exists|a: u32, b: u32| food.cell() == picked(bound, a, b),
            food.cell().0 < bound.0,
            food.cell().1 < bound.1,
            bound.0 % 2 == 0 ==> food.cell().0 % 2 == 1,
    {
        let mut rng = seeded();
        let a: u32 = draw(&mut rng);
        let b: u32 = draw(&mut rng);
        Food::from_draws(bound, a, b)
    }

    /// Tells whether the head of the snake falls on the food.
    pub fn is_eaten_by(&self, snake: &Snaker) -> (b: bool)
        ensures
            b == self.eaten_by(snake@),
    {
        proof {
            use_type_invariant(self);
        }
        let mut it = snake.iter().within_bound(self.bnd);
        match it.next() {
            Some(head_cell) => head_cell.0 == self.pos.0 && head_cell.1 == self.pos.1,
            None => false,
        }
    }

    /// The directive that draws the food: `@` on the cell on which it lies.
    pub fn to_string(&self) -> (s: String)
        ensures
            s@ == directive(self.cell().1, self.cell().0, '@'),
    {
        let mut out = String::new();
        push_directive(&mut out, self.pos.1, self.pos.0, '@');
        out
    }

    /// The cell on which the food lies.
    pub fn position(&self) -> (c: Cell)
        ensures
            c == self.cell(),
            c.0 < self.bound().0,
            c.1 < self.bound().1,
    {
        proof {
            use_type_invariant(self);
        }
        self.pos
    }

    /// The size of the grid on which the food was laid.
    pub fn grid(&self) -> (c: Cell)
        ensures
            c == self.bound(),
            is_grid(c),
    {
        proof {
            use_type_invariant(self);
        }
        self.bnd
    }
}

/// An odd number leaves an odd remainder when it is divided by an even
/// number.
proof fn odd_over_even(n: int, m: int)
    requires
        n % 2 == 1,
        m > 0,
        m % 2 == 0,
    ensures
        (n % m) % 2 == 1,
{
    let q = n / m;
    let h = m / 2;
    assert(n == m * q + n % m) by (nonlinear_arith)
        requires
            m > 0,
            q == n / m,
    ;
    assert(m * q == 2 * (h * q)) by (nonlinear_arith)
        requires
            m == 2 * h,
    ;
}

} // verus!

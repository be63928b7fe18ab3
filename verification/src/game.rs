//! The game: a snake and a piece of food on one grid, moved tick by tick.

use vstd::prelude::*;
use crate::body::Body;
use crate::cell::{is_grid, Cell};
use crate::direction::Direction;
use crate::food::{picked, Food};
use crate::render::{directive, push_directive, rendered};
use crate::screen::{is_quit, quits, Key, Scene, Screen};
use crate::snake::Snake;

verus! {

/// What the player asks for in one tick.
#[derive(Clone, Copy, PartialEq, Eq, Debug)]
pub enum Command {
    /// Leave the game.
    Quit,
    /// Go on, turning towards the direction if there is one.
    Steer(Option<Direction>),
}

/// What the key of a tick asks for, `None` being a tick without a key.
/// Escape and `q` leave the game, an arrow steers, any other key is passed
/// over.
pub open spec fn asked(key: Option<Key>) -> Command {
    match key {
        Some(k) => if is_quit(k) {
            Command::Quit
        } else {
            Command::Steer(
                match k {
                    Key::Up => Some(Direction::Up),
                    Key::Down => Some(Direction::Down),
                    Key::Left => Some(Direction::Left),
                    Key::Right => Some(Direction::Right),
                    _ => None,
                },
            )
        },
        None => Command::Steer(None),
    }
}

/// Reads the key of a tick.
pub fn command(key: Option<Key>) -> (c: Command)
    ensures
        c == asked(key),
{
    match key {
        Some(k) => {
            if quits(k) {
                Command::Quit
            } else {
                Command::Steer(
                    match k {
                        Key::Up => Some(Direction::Up),
                        Key::Down => Some(Direction::Down),
                        Key::Left => Some(Direction::Left),
                        Key::Right => Some(Direction::Right),
                        _ => None,
                    },
                )
            }
        },
        None => Command::Steer(None),
    }
}

/// The state of a game as a mathematical value.
pub struct Board {
    pub snake: Body,
    pub food: Food,
    pub bound: Cell,
}

impl Board {
    /// The game is in order: the grid has cells, the food was laid on this
    /// grid, and the snake is in shape and lies where coordinates can be
    /// represented.
    pub open spec fn wf(self) -> bool {
        &&& is_grid(self.bound)
        &&& self.food.bound() == self.bound
        &&& self.snake.alive()
        &&& self.snake.fits()
    }

    /// True when the tick with this key stays within what the machine can
    /// count: the snake can take its step, and where it then eats, it can
    /// grow and still be represented.
    pub open spec fn can_tick(self, key: Option<Key>) -> bool {
        match asked(key) {
            Command::Quit => true,
            Command::Steer(new_dir) => {
                let moved = self.snake.advanced(new_dir);
                &&& self.snake.can_advance(new_dir)
                &&& !moved.collides() && self.food.eaten_by(moved) ==> moved.can_grow()
                    && moved.grown().fits()
            },
        }
    }
}

/// A game in progress.
pub struct Game {
    snake: Snake,
    food: Food,
    bound: Cell,
}

impl View for Game {
    type V = Board;

    closed spec fn view(&self) -> Board {
        Board { snake: self.snake@, food: self.food, bound: self.bound }
    }
}

impl Game {
    /// A new game on a grid of size `bound`: a snake of ten cells with its
    /// head on the origin, and food laid at random.
    pub fn new(bound: Cell) -> (game: Game)
        requires
            is_grid(bound),
        ensures
            game@.wf(),
            game@.bound == bound,
            game@.snake == Body::straight((0, 0), 10),
            exists|a: u32, b: u32| game@.food.cell() == picked(bound, a, b),
    {
        let snake = Snake::new((0, 0), 10);
        let food = Food::somewhere_within(bound);
        Game { snake, food, bound }
    }

    /// Tells whether the tick with this key stays within what the machine
    /// can count.
    pub fn can_tick(&self, key: Option<Key>) -> (b: bool)
        requires
            self@.wf(),
        ensures
            b == self@.can_tick(key),
    {
        match command(key) {
            Command::Quit => true,
            Command::Steer(new_dir) => {
                if !self.snake.can_snake(new_dir) {
                    return false;
                }
                let mut probe = self.snake.clone();
                probe.snaking(new_dir);
                if probe.is_collide() {
                    return true;
                }
                if !self.food.is_eaten_by(&probe) {
                    return true;
                }
                if !probe.can_grow() {
                    return false;
                }
                probe.grow();
                probe.is_fit()
            },
        }
    }

    /// One tick of the game. A key that asks to leave ends the game and
    /// changes nothing. Otherwise the snake takes its step; if its head then
    /// lies on its body, the game is over and the end of the snake is shown
    /// next; if not and the head lies on the food, the snake grows by a cell
    /// and new food is laid at random. `None` says that the game goes on.
    pub fn tick(&mut self, key: Option<Key>) -> (r: Option<Screen>)
        requires
            old(self)@.wf(),
            old(self)@.can_tick(key),
        ensures
            final(self)@.wf(),
            final(self)@.bound == old(self)@.bound,
            match asked(key) {
                Command::Quit => {
                    &&& r == Some(Screen::Exit)
                    &&& final(self)@ == old(self)@
                },
                Command::Steer(new_dir) => {
                    let moved = old(self)@.snake.advanced(new_dir);
                    if moved.collides() {
                        &&& r == Some(Screen::Next(Scene::Death))
                        &&& final(self)@.snake == moved
                        &&& final(self)@.snake.length() == old(self)@.snake.length()
                        &&& final(self)@.food == old(self)@.food
                    } else if old(self)@.food.eaten_by(moved) {
                        &&& r == None::<Screen>
                        &&& final(self)@.snake == moved.grown()
                        &&& final(self)@.snake.length() == old(self)@.snake.length() + 1
                        &&& exists|a: u32, b: u32|
                            final(self)@.food.cell() == picked(old(self)@.bound, a, b)
                    } else {
                        &&& r == None::<Screen>
                        &&& final(self)@.snake == moved
                        &&& final(self)@.snake.length() == old(self)@.snake.length()
                        &&& final(self)@.food == old(self)@.food
                    }
                },
            },
    {
        match command(key) {
            Command::Quit => Some(Screen::Exit),
            Command::Steer(new_dir) => {
                self.snake.snaking(new_dir);
                if self.snake.is_collide() {
                    return Some(Screen::Next(Scene::Death));
                }
                if self.food.is_eaten_by(&self.snake) {
                    self.snake.grow();
                    self.food = Food::somewhere_within(self.bound);
                }
                None
            },
        }
    }

    /// The picture of the game as text for the terminal: the snake, drawn
    /// with the glyphs `elems`, and then the food.
    pub fn to_string(&self, elems: [char; 5]) -> (s: String)
        requires
            self@.wf(),
        ensures
            s@ == rendered(self@.snake, self@.bound, elems@) + directive(
                self@.food.cell().1,
                self@.food.cell().0,
                '@',
            ),
    {
        let mut out = self.snake.formatter(self.bound, elems).to_string();
        let at: Cell = self.food.position();
        push_directive(&mut out, at.1, at.0, '@');
        out
    }

    /// The snake.
    pub fn snake(&self) -> (s: &Snake)
        ensures
            s@ == self@.snake,
    {
        &self.snake
    }

    /// The food.
    pub fn food(&self) -> (f: Food)
        ensures
            f == self@.food,
    {
        self.food
    }

    /// The size of the grid.
    pub fn bound(&self) -> (c: Cell)
        ensures
            c == self@.bound,
    {
        self.bound
    }
}

} // verus!

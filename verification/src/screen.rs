//! The scenes of the program and the order in which they are shown. The
//! functions here decide; drawing and reading keys is left to the caller.

use vstd::prelude::*;
use crate::cell::Cell;

verus! {

/// A key press, as far as the program tells keys apart.
#[derive(Clone, Copy, PartialEq, Eq, Debug)]
pub enum Key {
    Esc,
    Enter,
    Up,
    Down,
    Left,
    Right,
    Char(char),
    Other,
}

/// The three scenes: the title, the game, and the end of the snake.
#[derive(Clone, Copy, PartialEq, Eq, Debug, Structural)]
pub enum Scene {
    Splash,
    Game,
    Death,
}

/// What a scene asks for when it ends.
#[derive(Clone, Copy, PartialEq, Eq, Debug, Structural)]
pub enum Screen {
    /// Show this scene next.
    Next(Scene),
    /// Leave the program.
    Exit,
}

/// What has just happened on the way through a session on the blank screen.
/// `E` is the error of the terminal.
pub enum Report<E> {
    /// The blank screen was entered, or could not be.
    Entered(Result<(), E>),
    /// A scene has ended, or has failed.
    Shown(Result<Screen, E>),
    /// The blank screen was left, or could not be. `after` is the result
    /// that the session had come to when it began to leave.
    Left { left: Result<(), E>, after: Result<(), E> },
}

/// What to do next in a session on the blank screen.
pub enum Action<E> {
    /// Show this scene and report how it ended.
    Show(Scene),
    /// Leave the blank screen, keep this result, and report both.
    Leave(Result<(), E>),
    /// The session is over with this result.
    Finish(Result<(), E>),
}

/// True when the key asks to leave the program: escape, or `q`.
pub open spec fn is_quit(key: Key) -> bool {
    key == Key::Esc || key == Key::Char('q')
}

/// Tells whether the key asks to leave the program.
pub fn quits(key: Key) -> (b: bool)
    ensures
        b == is_quit(key),
{
    match key {
        Key::Esc => true,
        Key::Char(c) => c == 'q',
        _ => false,
    }
}

/// One step of a session that runs scenes on the blank screen, from `start`
/// on. Once the screen is entered the scenes are shown one after another,
/// each naming the next. When a scene asks to exit or fails, the screen is
/// left, and the session ends with the scene's result, unless leaving fails:
/// then with that failure. When the screen cannot be entered the session
/// ends at once and nothing is left.
pub fn with_blank_screen<E>(start: Scene, report: Report<E>) -> (action: Action<E>)
    ensures
        action == match report {
            Report::Entered(Ok(_)) => Action::Show(start),
            Report::Entered(Err(err)) => Action::Finish(Err(err)),
            Report::Shown(Ok(Screen::Next(next_screen))) => Action::Show(next_screen),
            Report::Shown(Ok(Screen::Exit)) => Action::Leave(Ok(())),
            Report::Shown(Err(err)) => Action::Leave(Err(err)),
            Report::Left { left: Ok(_), after } => Action::Finish(after),
            Report::Left { left: Err(err), after } => Action::Finish(Err(err)),
        },
{
    match report {
        Report::Entered(entered) => match entered {
            Ok(_) => Action::Show(start),
            Err(err) => Action::Finish(Err(err)),
        },
        Report::Shown(shown) => match shown {
            Err(err) => Action::Leave(Err(err)),
            Ok(state) => match state {
                Screen::Next(next_screen) => Action::Show(next_screen),
                Screen::Exit => Action::Leave(Ok(())),
            },
        },
        Report::Left { left, after } => match left {
            Ok(_) => Action::Finish(after),
            Err(err) => Action::Finish(Err(err)),
        },
    }
}

/// What a key does on the title: escape and `q` leave the program, enter
/// starts the game, any other key is waited out.
pub fn splash_key(key: Key) -> (r: Option<Screen>)
    ensures
        r == if is_quit(key) {
            Some(Screen::Exit)
        } else if key == Key::Enter {
            Some(Screen::Next(Scene::Game))
        } else {
            None
        },
{
    if quits(key) {
        Some(Screen::Exit)
    } else {
        match key {
            Key::Enter => Some(Screen::Next(Scene::Game)),
            _ => None,
        }
    }
}

/// What a key does once the snake is dead: enter leaves the program, any
/// other key is waited out.
pub fn death_key(key: Key) -> (r: Option<Screen>)
    ensures
        r == if key == Key::Enter {
            Some(Screen::Exit)
        } else {
            None
        },
{
    match key {
        Key::Enter => Some(Screen::Exit),
        _ => None,
    }
}

/// The cell at which a text begins that is to stand `left` columns to the
/// left of the middle of a terminal of size `size`, and `up` rows above it.
pub fn anchor(size: Cell, left: u16, up: u16) -> (at: Cell)
    requires
        left <= size.0 / 2,
        up <= size.1 / 2,
    ensures
        at.0 == size.0 / 2 - left,
        at.1 == size.1 / 2 - up,
{
    (size.0 / 2 - left, size.1 / 2 - up)
}

} // verus!

//! A snake on a torus: the body is kept as run-length segments, and the grid
//! cells it covers are derived from them on demand.

pub mod body;
pub mod cell;
pub mod direction;
pub mod food;
pub mod game;
pub mod laws;
pub mod path;
pub mod pos_iter;
pub mod position;
pub mod render;
pub mod screen;
pub mod segment;
pub mod snake;

pub use cell::{Cell, CellIter, Cellular};
pub use direction::Direction;
pub use food::Food;
pub use game::{Command, Game};
pub use pos_iter::{PosIter, PosIterBuilder};
pub use position::{NextPos, Pos, Position};
pub use render::SnakeFormatter;
pub use screen::{with_blank_screen, Action, Key, Report, Scene, Screen};
pub use segment::{IncDec, Seg, Segment};
pub use snake::{Snake, Snaker};

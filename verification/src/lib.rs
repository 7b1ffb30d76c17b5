//! The engine of a snake game on a fixed character grid.
//!
//! The crate holds the simulation only: the snake's body, the food, the score
//! and the rule that takes one state to the next on every tick. Reading the
//! keyboard and painting the screen are left to the program around it.

pub mod direction;
pub mod game;
pub mod grid;
pub mod input;
pub mod invariants;
pub mod model;
pub mod render;

pub use direction::Direction;
pub use game::GameState;
pub use grid::{Position, BLOCK_SIZE, COLS, MAX_SNAKE_LENGTH, ROWS};
pub use input::{DecodedKey, KeyCode};
pub use model::{Collision, Status, INITIAL_LENGTH};
pub use render::{Color, Glyph};

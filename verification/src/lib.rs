//! A terminal snake game: the board geometry, the snake's movement and
//! growth, food placement, and the menu / playing / game-over state machine.
//! Terminal input and output live outside this library; it hands out plain
//! values (draw strokes, banner lines, replies to keys) for a front end to show.

pub mod geometry;
pub mod random;
pub mod snake;
pub mod game;

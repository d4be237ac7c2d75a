//! The snake game: a snake that grows by eating, on a grid with walls.

pub mod food;
pub mod gameboard;
pub mod pos;
pub mod snake;

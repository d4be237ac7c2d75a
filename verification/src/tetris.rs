//! The falling-block puzzle: cells, pieces and the board that owns them.

pub mod board;
pub mod board_laws;
pub mod input;
pub mod cells;
pub mod kind;
pub mod laws;
pub mod pos;
pub mod shape;
pub mod tetris;

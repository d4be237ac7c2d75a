//! Engines for two grid games: a falling-block puzzle and a snake.
//!
//! Both engines are synchronous state machines over integer cells. They know
//! nothing of rendering, timers or input devices: a driver calls one mutating
//! operation at a time and then reads the cells back.

mod chance;
pub mod digits;
pub mod snake;
pub mod state;
pub mod text;
pub mod tetris;

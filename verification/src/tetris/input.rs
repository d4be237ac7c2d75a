//! What a key press asks of the puzzle.

use vstd::prelude::*;
use crate::text::same_text;
use crate::tetris::board::Direction;
use crate::tetris::kind::Kind;
use crate::tetris::shape::Shape;
use crate::tetris::tetris::Tetris;

verus! {

/// The actions a key can stand for.
#[derive(Debug, Clone, Copy, PartialEq, Eq, Structural)]
pub enum Action {
    ShiftLeft,
    ShiftRight,
    Rotate,
    SoftDrop,
    Unrecognized,
}

impl Action {
    /// The action that the key with the given code stands for: the arrows
    /// to the left and to the right push the piece, the arrow up turns it,
    /// the arrow down makes it fall a row; any other key stands for nothing.
    pub open spec fn of_code(code: Seq<char>) -> Action {
        if code == "ArrowLeft"@ {
            Action::ShiftLeft
        } else if code == "ArrowRight"@ {
            Action::ShiftRight
        } else if code == "ArrowUp"@ {
            Action::Rotate
        } else if code == "ArrowDown"@ {
            Action::SoftDrop
        } else {
            Action::Unrecognized
        }
    }

    /// The action that the key with the given code stands for.
    pub fn from_key_code(code: &str) -> (action: Action)
        ensures
            action == Action::of_code(code@),
    {
        if same_text(code, "ArrowLeft") {
            Action::ShiftLeft
        } else if same_text(code, "ArrowRight") {
            Action::ShiftRight
        } else if same_text(code, "ArrowUp") {
            Action::Rotate
        } else if same_text(code, "ArrowDown") {
            Action::SoftDrop
        } else {
            Action::Unrecognized
        }
    }
}

impl Tetris {
    /// Carries out an action: a push, a turn, or a tick for a soft drop.
    /// An action that is not recognized leaves the game alone.
    pub fn perform(&mut self, action: Action) -> (prev: Option<Shape>)
        requires
            old(self).wf(),
        ensures
            final(self).wf(),
            match action {
                Action::ShiftLeft => final(self)@ == old(self)@.shift(Direction::Left),
                Action::ShiftRight => final(self)@ == old(self)@.shift(Direction::Right),
                Action::Rotate => final(self)@ == old(self)@.rotate(),
                Action::SoftDrop => exists|next: Kind|
                    final(self)@ == #[trigger] old(self)@.tick(next),
                Action::Unrecognized => *final(self) == *old(self) && prev is None,
            },
            prev matches Some(shape) ==> shape == old(self).current_shape,
    {
        match action {
            Action::ShiftLeft => self.shift(Direction::Left),
            Action::ShiftRight => self.shift(Direction::Right),
            Action::Rotate => self.rotate(),
            Action::SoftDrop => self.tick(),
            Action::Unrecognized => None,
        }
    }
}

} // verus!

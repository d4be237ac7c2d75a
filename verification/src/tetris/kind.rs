//! The seven kinds of piece.

use vstd::prelude::*;
use crate::chance::random_below;

verus! {

/// The kind of a piece. It decides the piece's canonical cells and the glyph
/// a renderer shows for it; it never affects how a shape moves.
#[derive(Debug, Clone, Copy, Hash, PartialEq, Eq, Structural)]
pub enum Kind {
    I,
    O,
    T,
    J,
    L,
    S,
    Z,
}

impl Kind {
    /// The kind with the given index, in the order I, O, T, J, L, S, Z.
    pub open spec fn of_index(i: int) -> Kind {
        if i == 0 {
            Kind::I
        } else if i == 1 {
            Kind::O
        } else if i == 2 {
            Kind::T
        } else if i == 3 {
            Kind::J
        } else if i == 4 {
            Kind::L
        } else if i == 5 {
            Kind::S
        } else {
            Kind::Z
        }
    }

    /// The text of the glyph that stands for this kind.
    pub open spec fn glyph_text(self) -> Seq<char> {
        match self {
            Kind::I => "🟦"@,
            Kind::O => "🟨"@,
            Kind::T => "🟪"@,
            Kind::J => "⬛"@,
            Kind::L => "🟧"@,
            Kind::S => "🟩"@,
            Kind::Z => "🟥"@,
        }
    }

    /// The kind with index `i`, or nothing when `i` is not below seven.
    pub fn from_index(i: u8) -> (kind: Option<Kind>)
        ensures
            i < 7 ==> kind == Some(Kind::of_index(i as int)),
            i >= 7 ==> kind is None,
    {
        match i {
            0 => Some(Kind::I),
            1 => Some(Kind::O),
            2 => Some(Kind::T),
            3 => Some(Kind::J),
            4 => Some(Kind::L),
            5 => Some(Kind::S),
            6 => Some(Kind::Z),
            _ => None,
        }
    }

    /// A kind drawn uniformly among the seven.
    pub fn random() -> (kind: Kind) {
        let i: u32 = random_below(7);
        match Kind::from_index(i as u8) {
            Some(kind) => kind,
            None => Kind::Z,
        }
    }

    /// The glyph a renderer shows for a cell of this kind.
    pub fn glyph(&self) -> (g: &'static str)
        ensures
            g@ == self.glyph_text(),
    {
        match self {
            Kind::I => "🟦",
            Kind::O => "🟨",
            Kind::T => "🟪",
            Kind::J => "⬛",
            Kind::L => "🟧",
            Kind::S => "🟩",
            Kind::Z => "🟥",
        }
    }
}

} // verus!

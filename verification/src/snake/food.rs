//! What the snake eats.

use vstd::prelude::*;
use crate::chance::random_below;
use crate::snake::pos::Pos;

verus! {

/// The text of the colour with the given index, of the seven a food can
/// have.
pub open spec fn colour_text(i: int) -> Seq<char> {
    if i == 0 {
        "🟥"@
    } else if i == 1 {
        "🟧"@
    } else if i == 2 {
        "🟨"@
    } else if i == 3 {
        "🟩"@
    } else if i == 4 {
        "🟦"@
    } else if i == 5 {
        "🟪"@
    } else {
        "🟫"@
    }
}

/// A piece of food: the cell it lies on and the glyph that shows it.
#[derive(Debug, Clone, Copy)]
pub struct Food<'a> {
    pub pos: Pos,
    pub food_color: &'a str,
}

/// One coordinate of a cell drawn on a side of `side` cells: below `side`,
/// or 0 where the side has no cells.
fn random_coordinate(side: u32) -> (at: i32)
    requires
        side <= 0x8000_0000,
    ensures
        0 <= at,
        side > 0 ==> at < side,
        side == 0 ==> at == 0,
{
    if side == 0 {
        0
    } else {
        random_below(side) as i32
    }
}

impl Food<'static> {
    /// The food on the cell `pos` in the colour with index `colour`, the
    /// index taken modulo seven.
    pub fn coloured(pos: Pos, colour: u8) -> (food: Food<'static>)
        ensures
            food.pos == pos,
            food.food_color@ == colour_text(colour as int % 7),
    {
        let food_color: &'static str = match colour % 7 {
            0 => "🟥",
            1 => "🟧",
            2 => "🟨",
            3 => "🟩",
            4 => "🟦",
            5 => "🟪",
            _ => "🟫",
        };
        Food { pos, food_color }
    }

    /// A food on a cell drawn uniformly on a grid of the given size, in a
    /// colour drawn uniformly among the seven.
    pub fn random(width: u32, height: u32) -> (food: Food<'static>)
        requires
            width <= 0x8000_0000,
            height <= 0x8000_0000,
        ensures
            food.lies_on(width as int, height as int),
            exists|i: int| 0 <= i < 7 && food.food_color@ == #[trigger] colour_text(i),
    {
        let x: i32 = random_coordinate(width);
        let y: i32 = random_coordinate(height);
        let colour: u8 = random_below(7) as u8;
        let food = Food::coloured(Pos(x, y), colour);
        assert(food.food_color@ == colour_text(colour as int % 7));
        food
    }
}

impl<'a> Food<'a> {
    /// Whether the food lies where a draw on a grid of the given size can
    /// put it: on the grid, or in column 0 or row 0 where the grid has no
    /// cells that way.
    pub open spec fn lies_on(&self, width: int, height: int) -> bool {
        &&& 0 <= self.pos.0
        &&& 0 <= self.pos.1
        &&& width > 0 ==> self.pos.0 < width
        &&& height > 0 ==> self.pos.1 < height
        &&& width == 0 ==> self.pos.0 == 0
        &&& height == 0 ==> self.pos.1 == 0
    }
}

} // verus!

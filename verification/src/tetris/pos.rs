//! Cells of the puzzle grid.

use vstd::prelude::*;
use crate::digits::{append_decimal, decimal};

verus! {

/// A cell in the mathematical model: a column `x` and a row `y`, the row
/// growing downward.
pub type Cell = (int, int);

/// A cell of the grid, or a vector between two cells: `Pos(x, y)`.
#[derive(Debug, Clone, Copy, Hash, PartialEq, Eq, Structural)]
pub struct Pos(pub i8, pub i8);

impl View for Pos {
    type V = Cell;

    open spec fn view(&self) -> Cell {
        (self.0 as int, self.1 as int)
    }
}

impl Pos {
    /// The key of the cell for a renderer: the decimal text of `x` directly
    /// followed by that of `y`.
    pub fn key(&self) -> (res: String)
        ensures
            res@ == decimal(self.0 as int) + decimal(self.1 as int),
    {
        let mut res = String::new();
        append_decimal(&mut res, self.0 as i64);
        append_decimal(&mut res, self.1 as i64);
        res
    }
}

} // verus!

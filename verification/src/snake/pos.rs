//! Cells of the snake's grid.

use vstd::prelude::*;
use vstd::std_specs::ops::AddSpecImpl;
use crate::digits::{append_decimal, decimal};

verus! {

/// A cell in the mathematical model: a column `x` and a row `y`, the row
/// growing downward.
pub type Cell = (int, int);

/// Whether `n` fits a coordinate of a [`Pos`].
pub open spec fn in_i32(n: int) -> bool {
    -0x8000_0000 <= n <= 0x7fff_ffff
}

/// A cell of the grid, or a vector between two cells: `Pos(x, y)`.
#[derive(Debug, PartialEq, Eq, Clone, Copy, Structural)]
pub struct Pos(pub i32, pub i32);

impl View for Pos {
    type V = Cell;

    open spec fn view(&self) -> Cell {
        (self.0 as int, self.1 as int)
    }
}

impl core::ops::Add for &Pos {
    type Output = Pos;

    /// The sum of two vectors, coordinate by coordinate.
    fn add(self, rhs: &Pos) -> (sum: Pos) {
        Pos(self.0 + rhs.0, self.1 + rhs.1)
    }
}

impl AddSpecImpl for &Pos {
    open spec fn obeys_add_spec() -> bool {
        true
    }

    open spec fn add_req(self, rhs: &Pos) -> bool {
        in_i32(self.0 + rhs.0) && in_i32(self.1 + rhs.1)
    }

    open spec fn add_spec(self, rhs: &Pos) -> Pos {
        Pos((self.0 + rhs.0) as i32, (self.1 + rhs.1) as i32)
    }
}

impl Pos {
    /// The key of the cell for a renderer: the decimal text of `x` directly
    /// followed by that of `y`.
    pub fn key(&self) -> (res: String)
        ensures
            res@ == decimal(self.0 as int) + decimal(self.1 as int),
    {
        let mut res = String::new();
        append_decimal(&mut res, self.0 as i64);
        append_decimal(&mut res, self.1 as i64);
        res
    }

    /// The sum of two vectors, or nothing where a coordinate of the sum
    /// would leave the range of a [`Pos`].
    pub fn checked_plus(&self, rhs: &Pos) -> (sum: Option<Pos>)
        ensures
            sum is Some <==> in_i32(self.0 + rhs.0) && in_i32(self.1 + rhs.1),
            sum matches Some(p) ==> p@ == (self.0 + rhs.0, self.1 + rhs.1),
    {
        let x: i64 = self.0 as i64 + rhs.0 as i64;
        let y: i64 = self.1 as i64 + rhs.1 as i64;
        if -0x8000_0000 <= x && x <= 0x7fff_ffff && -0x8000_0000 <= y && y <= 0x7fff_ffff {
            Some(Pos(x as i32, y as i32))
        } else {
            None
        }
    }
}

} // verus!

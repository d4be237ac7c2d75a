//! The puzzle as a state machine over sets of cells.
//!
//! [`BoardView`] is what a [`crate::tetris::tetris::Tetris`] stands for, and
//! its functions say what each operation of the engine does.

use vstd::prelude::*;
use crate::tetris::cells::{in_i8, in_row};
use crate::tetris::kind::Kind;
use crate::tetris::pos::Cell;
use crate::tetris::shape::ShapeView;

verus! {

/// The two ways a player can push the falling piece.
#[derive(Debug, Clone, Copy, PartialEq, Eq, Structural)]
pub enum Direction {
    Left,
    Right,
}

impl Direction {
    /// The vector of one push: one column to the left or to the right.
    pub open spec fn vector(self) -> Cell {
        match self {
            Direction::Left => (-1, 0),
            Direction::Right => (1, 0),
        }
    }
}

/// The number of cells in row `y`, summed over the shapes of `fixed`. A cell
/// that two shapes occupy counts twice.
pub open spec fn cells_in_row(fixed: Seq<ShapeView>, y: int) -> nat
    decreases fixed.len(),
{
    if fixed.len() == 0 {
        0
    } else {
        cells_in_row(fixed.drop_last(), y) + in_row(fixed.last().cells, y).len()
    }
}

/// The count over the first `n + 1` shapes is the count over the first `n`
/// and the cells of the next shape in the row.
pub proof fn lemma_cells_in_row_step(fixed: Seq<ShapeView>, n: int, y: int)
    requires
        0 <= n < fixed.len(),
    ensures
        cells_in_row(fixed.take(n + 1), y) == cells_in_row(fixed.take(n), y) + in_row(
            fixed[n].cells,
            y,
        ).len(),
{
    assert(fixed.take(n + 1).drop_last() =~= fixed.take(n));
}

/// The count over the first `n` shapes is no more than the count over all.
pub proof fn lemma_cells_in_row_prefix(fixed: Seq<ShapeView>, n: int, y: int)
    requires
        0 <= n <= fixed.len(),
    ensures
        cells_in_row(fixed.take(n), y) <= cells_in_row(fixed, y),
    decreases fixed.len() - n,
{
    if n == fixed.len() {
        assert(fixed.take(n) =~= fixed);
    } else {
        lemma_cells_in_row_step(fixed, n, y);
        lemma_cells_in_row_prefix(fixed, n + 1, y);
    }
}

/// A shape that turns about one of its own cells and cannot be held in
/// positions lies off every grid of a valid size.
pub proof fn lemma_unfit_is_out_of_bounds(board: BoardView, shape: ShapeView)
    requires
        board.width <= 128,
        board.height <= 128,
        shape.cells.contains(shape.anchor),
        !shape.fits(),
    ensures
        board.out_of_bounds(shape),
{
    if in_i8(shape.anchor.0) && in_i8(shape.anchor.1) {
        let c = choose|c: Cell| #[trigger] shape.cells.contains(c) && !(in_i8(c.0) && in_i8(c.1));
        assert(shape.cells.contains(c) && !board.on_grid(c));
    } else {
        assert(shape.cells.contains(shape.anchor) && !board.on_grid(shape.anchor));
    }
}

/// Every shape of `fixed` with row `y` taken out.
pub open spec fn each_without_row(fixed: Seq<ShapeView>, y: int) -> Seq<ShapeView> {
    fixed.map_values(|s: ShapeView| s.remove_row(y))
}

/// The cell at which the anchor of a new piece is put on a grid of the given
/// width: in the top row, just left of the middle.
pub open spec fn spawn_cell(width: int) -> Cell {
    (width / 2 - 1, 0)
}

/// A new piece of the given kind on a grid of the given width: the piece as
/// it is defined, moved so that its anchor sits at [`spawn_cell`].
pub open spec fn spawned_on(width: int, kind: Kind) -> ShapeView {
    let piece = ShapeView::canonical(kind);
    piece.translate((spawn_cell(width).0 - piece.anchor.0, spawn_cell(width).1 - piece.anchor.1))
}

/// The state of a game: the grid's size, the falling piece, the pieces that
/// have landed, in the order in which they landed, and whether the game is
/// over.
pub struct BoardView {
    pub width: int,
    pub height: int,
    pub current: ShapeView,
    pub fixed: Seq<ShapeView>,
    pub failed: bool,
}

impl BoardView {
    /// Whether the cell `c` lies on the grid.
    pub open spec fn on_grid(self, c: Cell) -> bool {
        0 <= c.0 < self.width && 0 <= c.1 < self.height
    }

    /// Whether some cell of `shape` lies off the grid.
    pub open spec fn out_of_bounds(self, shape: ShapeView) -> bool {
        exists|c: Cell| #[trigger] shape.cells.contains(c) && !self.on_grid(c)
    }

    /// Whether `shape` shares a cell with a landed piece.
    pub open spec fn colliding(self, shape: ShapeView) -> bool {
        exists|i: int, c: Cell|
            0 <= i < self.fixed.len() && #[trigger] self.fixed[i].cells.contains(c)
                && shape.cells.contains(c)
    }

    /// Whether the falling piece may become `shape`: it must lie on the grid
    /// and clear of every landed piece.
    pub open spec fn could_move(self, shape: ShapeView) -> bool {
        !self.out_of_bounds(shape) && !self.colliding(shape)
    }

    /// The cell at which the anchor of a new piece is put.
    pub open spec fn spawn_anchor(self) -> Cell {
        spawn_cell(self.width)
    }

    /// A new piece of the given kind, its anchor at
    /// [`BoardView::spawn_anchor`].
    pub open spec fn spawned(self, kind: Kind) -> ShapeView {
        spawned_on(self.width, kind)
    }

    /// A new game on a grid of the given size, with a first piece of the
    /// given kind: nothing has landed and the game is not over.
    pub open spec fn start(width: int, height: int, first: Kind) -> BoardView {
        BoardView {
            width,
            height,
            current: spawned_on(width, first),
            fixed: Seq::empty(),
            failed: false,
        }
    }

    /// The state with `shape` as the falling piece.
    pub open spec fn with_current(self, shape: ShapeView) -> BoardView {
        BoardView { current: shape, ..self }
    }

    /// Whether an attempt to make `shape` the falling piece succeeds: the
    /// game must not be over and [`BoardView::could_move`] must allow it.
    pub open spec fn accepts(self, shape: ShapeView) -> bool {
        !self.failed && self.could_move(shape)
    }

    /// The state after an attempt to make `candidate` the falling piece:
    /// taken where it is accepted, else nothing changes.
    pub open spec fn attempt(self, candidate: ShapeView) -> BoardView {
        if self.accepts(candidate) {
            self.with_current(candidate)
        } else {
            self
        }
    }

    /// The falling piece one column to the side.
    pub open spec fn pushed(self, direction: Direction) -> ShapeView {
        self.current.translate(direction.vector())
    }

    /// The falling piece one row further down.
    pub open spec fn descended(self) -> ShapeView {
        self.current.translate((0, 1))
    }

    /// The state after a push to the side.
    pub open spec fn shift(self, direction: Direction) -> BoardView {
        self.attempt(self.pushed(direction))
    }

    /// The state after an attempt to turn the falling piece.
    pub open spec fn rotate(self) -> BoardView {
        self.attempt(self.current.rotate())
    }

    /// Whether row `y` is full: the landed pieces hold as many cells in it
    /// as the grid is wide.
    pub open spec fn row_full(self, y: int) -> bool {
        cells_in_row(self.fixed, y) == self.width
    }

    /// The state with row `y` taken out of every landed piece.
    pub open spec fn clear_row(self, y: int) -> BoardView {
        BoardView { fixed: each_without_row(self.fixed, y), ..self }
    }

    /// The state after the rows from `y` to the last have been looked at in
    /// turn, each one cleared if it is full when its turn comes.
    pub open spec fn clear_rows_from(self, y: int) -> BoardView
        decreases self.height - y,
    {
        if y >= self.height {
            self
        } else if self.row_full(y) {
            self.clear_row(y).clear_rows_from(y + 1)
        } else {
            self.clear_rows_from(y + 1)
        }
    }

    /// The state after the line-clear pass over all rows, from the top.
    pub open spec fn clear_full_rows(self) -> BoardView {
        self.clear_rows_from(0)
    }

    /// The state once the falling piece has come to rest, before the check
    /// of the new piece: the old piece is the last of the landed ones, a new
    /// piece of kind `next` falls, and the full rows are cleared.
    pub open spec fn settled(self, next: Kind) -> BoardView {
        BoardView {
            current: self.spawned(next),
            fixed: self.fixed.push(self.current),
            ..self
        }.clear_full_rows()
    }

    /// The state after the falling piece has landed: as
    /// [`BoardView::settled`], and the game is over if the new piece shares
    /// a cell with a landed one.
    pub open spec fn land(self, next: Kind) -> BoardView {
        let settled = self.settled(next);
        BoardView { failed: self.failed || settled.colliding(settled.current), ..settled }
    }

    /// Whether a tick moves the falling piece down.
    pub open spec fn can_fall(self) -> bool {
        self.accepts(self.descended())
    }

    /// The state after one tick, where `next` is the kind of the piece that
    /// falls next if this one lands. Nothing happens once the game is over.
    pub open spec fn tick(self, next: Kind) -> BoardView {
        if self.failed {
            self
        } else if self.can_fall() {
            self.with_current(self.descended())
        } else {
            self.land(next)
        }
    }

    /// Every cell of the grid, row by row from the top, each row from the
    /// left.
    pub open spec fn all_cells(self) -> Seq<Cell> {
        Seq::new((self.width * self.height) as nat, |k: int| (k % self.width, k / self.width))
    }

    /// The index of the earliest landed piece that occupies `c`, where there
    /// is one.
    pub open spec fn first_fixed_at(self, c: Cell) -> int {
        choose|i: int|
            0 <= i < self.fixed.len() && #[trigger] self.fixed[i].cells.contains(c) && forall|
                j: int,
            |
                0 <= j < i ==> !#[trigger] self.fixed[j].cells.contains(c)
    }

    /// The kind shown at the cell `c`: that of the falling piece if it
    /// occupies `c`, else that of the earliest landed piece that does, else
    /// none.
    pub open spec fn kind_at(self, c: Cell) -> Option<Kind> {
        if self.current.cells.contains(c) {
            Some(self.current.kind)
        } else if exists|i: int| 0 <= i < self.fixed.len() && #[trigger] self.fixed[i].cells.contains(c) {
            Some(self.fixed[self.first_fixed_at(c)].kind)
        } else {
            None
        }
    }

    /// The text shown at the cell `c`: the glyph of [`BoardView::kind_at`],
    /// or the empty text where no piece is.
    pub open spec fn label_at(self, c: Cell) -> Seq<char> {
        match self.kind_at(c) {
            Some(kind) => kind.glyph_text(),
            None => Seq::empty(),
        }
    }
}

} // verus!

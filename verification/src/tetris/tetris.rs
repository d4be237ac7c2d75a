//! The engine of the puzzle.

use vstd::arithmetic::div_mod::lemma_fundamental_div_mod_converse;
use vstd::prelude::*;
use crate::tetris::board::{
    cells_in_row, each_without_row, lemma_cells_in_row_prefix, lemma_cells_in_row_step,
    lemma_unfit_is_out_of_bounds, spawned_on, BoardView, Direction,
};
use crate::tetris::cells::{in_i8, lemma_cells_contains, lemma_shifted_contains};
use crate::tetris::kind::Kind;
use crate::tetris::pos::{Cell, Pos};
use crate::tetris::shape::{
    lemma_canonical_cells, lemma_rotate_keeps_anchor, lemma_translate_keeps_anchor, Shape,
    ShapeView,
};

verus! {

/// The width of the grid of a game made by default, in cells.
pub const DEFAULT_WIDTH: u8 = 10;

/// The height of the grid of a game made by default, in cells.
pub const DEFAULT_HEIGHT: u8 = 25;

/// The time between two ticks that a driver is expected to keep, in
/// milliseconds.
pub const TICK_INTERVAL_MS: i32 = 1000;

/// The views of a list of shapes.
pub open spec fn views_of(shapes: Seq<Shape>) -> Seq<ShapeView> {
    shapes.map_values(|s: Shape| s@)
}

/// A game: the falling piece, the landed pieces in the order in which they
/// landed, the size of the grid, and whether the game is over.
///
/// The engine is not reentrant: a driver makes one mutating call at a time
/// and reads the cells back between calls.
#[derive(Debug, Clone)]
pub struct Tetris {
    pub current_shape: Shape,
    pub fixed_shapes: Vec<Shape>,
    pub width: u8,
    pub height: u8,
    pub failed: bool,
}

/// Why a game cannot be made: a side of its grid has no cells, or more than
/// a [`Pos`] can number.
#[derive(Debug, Clone, Copy, PartialEq, Eq, Structural)]
pub enum ConfigError {
    /// The width is 0 or above 127.
    Width,
    /// The width is in order, and the height is 0 or above 127.
    Height,
}

impl ConfigError {
    /// The error that a grid of a size that is not valid is refused with.
    pub open spec fn of_size(width: int, height: int) -> ConfigError {
        if 1 <= width <= 127 {
            ConfigError::Height
        } else {
            ConfigError::Width
        }
    }
}

impl View for Tetris {
    type V = BoardView;

    open spec fn view(&self) -> BoardView {
        BoardView {
            width: self.width as int,
            height: self.height as int,
            current: self.current_shape@,
            fixed: views_of(self.fixed_shapes@),
            failed: self.failed,
        }
    }
}

impl Default for Tetris {
    /// A new game on a grid ten cells wide and twenty-five high, with a
    /// first piece of a kind drawn uniformly among the seven.
    fn default() -> (game: Tetris)
        ensures
            game.wf(),
            exists|first: Kind|
                game@ == #[trigger] BoardView::start(
                    DEFAULT_WIDTH as int,
                    DEFAULT_HEIGHT as int,
                    first,
                ),
    {
        let first = Kind::random();
        let game = Tetris {
            current_shape: Tetris::spawn_piece(DEFAULT_WIDTH, first),
            fixed_shapes: Vec::new(),
            width: DEFAULT_WIDTH,
            height: DEFAULT_HEIGHT,
            failed: false,
        };
        assert(game@.fixed =~= Seq::<ShapeView>::empty());
        assert(game@ == BoardView::start(DEFAULT_WIDTH as int, DEFAULT_HEIGHT as int, first));
        game
    }
}

impl Tetris {
    /// Whether a grid can have the given size: each side has at least one
    /// cell, and no more than a [`Pos`] can number.
    pub open spec fn valid_size(width: int, height: int) -> bool {
        1 <= width <= 127 && 1 <= height <= 127
    }

    /// A game is well formed when its grid has a valid size, no piece lists
    /// a cell twice, and the falling piece turns about one of its own cells.
    ///
    /// The last two make sure that a piece which may move can be held in
    /// positions: the anchor moves with the cells, and a cell that no
    /// [`Pos`] can hold lies off every grid of a valid size.
    pub open spec fn wf(&self) -> bool {
        &&& Tetris::valid_size(self.width as int, self.height as int)
        &&& self.current_shape.wf()
        &&& self.current_shape@.cells.contains(self.current_shape@.anchor)
        &&& forall|i: int| 0 <= i < self.fixed_shapes.len() ==> (#[trigger] self.fixed_shapes[i]).wf()
    }

    /// A new piece of the given kind for a grid of the given width.
    fn spawn_piece(width: u8, kind: Kind) -> (piece: Shape)
        requires
            width <= 127,
        ensures
            piece.wf(),
            piece@ == spawned_on(width as int, kind),
            piece@.cells.contains(piece@.anchor),
    {
        let defined = Shape::of_kind(kind);
        let column: i8 = (width / 2) as i8 - 1;
        let v = Pos(column - defined.anchor.0, 0 - defined.anchor.1);
        proof {
            lemma_canonical_cells(kind);
            lemma_translate_keeps_anchor(defined@, v@);
            assert forall|c: Cell| #[trigger]
                defined@.translate(v@).cells.contains(c) implies in_i8(c.0) && in_i8(c.1) by {
                lemma_shifted_contains(defined@.cells, v@, c);
            }
        }
        defined.translate(v)
    }

    /// A new game on a grid of the given size, with a first piece of the
    /// given kind. A side of no cells, or of more than 127, is refused.
    pub fn with_piece(width: u8, height: u8, first: Kind) -> (made: Result<Tetris, ConfigError>)
        ensures
            made is Ok <==> Tetris::valid_size(width as int, height as int),
            made matches Ok(game) ==> game.wf() && game@ == BoardView::start(
                width as int,
                height as int,
                first,
            ),
            made matches Err(e) ==> e == ConfigError::of_size(width as int, height as int),
    {
        if width < 1 || width > 127 {
            return Err(ConfigError::Width);
        }
        if height < 1 || height > 127 {
            return Err(ConfigError::Height);
        }
        let game = Tetris {
            current_shape: Tetris::spawn_piece(width, first),
            fixed_shapes: Vec::new(),
            width,
            height,
            failed: false,
        };
        assert(game@.fixed =~= Seq::<ShapeView>::empty());
        Ok(game)
    }

    /// A new game on a grid of the given size, with a first piece of a kind
    /// drawn uniformly among the seven. A side of no cells, or of more than
    /// 127, is refused.
    pub fn new(width: u8, height: u8) -> (made: Result<Tetris, ConfigError>)
        ensures
            made is Ok <==> Tetris::valid_size(width as int, height as int),
            made matches Ok(game) ==> game.wf() && exists|first: Kind|
                game@ == #[trigger] BoardView::start(width as int, height as int, first),
            made matches Err(e) ==> e == ConfigError::of_size(width as int, height as int),
    {
        if width < 1 || width > 127 {
            return Err(ConfigError::Width);
        }
        if height < 1 || height > 127 {
            return Err(ConfigError::Height);
        }
        Tetris::with_piece(width, height, Kind::random())
    }

    /// Whether the game is well formed.
    pub fn is_well_formed(&self) -> (ok: bool)
        ensures
            ok == self.wf(),
    {
        if self.width < 1 || self.width > 127 || self.height < 1 || self.height > 127 {
            return false;
        }
        if !self.current_shape.is_well_formed() {
            return false;
        }
        if !self.current_shape.occupies(self.current_shape.anchor) {
            return false;
        }
        let n: usize = self.fixed_shapes.len();
        let mut i: usize = 0;
        while i < n
            invariant
                n == self.fixed_shapes.len(),
                i <= n,
                forall|j: int| 0 <= j < i ==> (#[trigger] self.fixed_shapes[j]).wf(),
            decreases n - i,
        {
            if !self.fixed_shapes[i].is_well_formed() {
                return false;
            }
            i += 1;
        }
        true
    }

    /// The kind shown at the cell `pos`: that of the falling piece if it
    /// occupies the cell, else that of the earliest landed piece that does,
    /// else none.
    pub fn kind_at(&self, pos: Pos) -> (kind: Option<Kind>)
        ensures
            kind == self@.kind_at(pos@),
    {
        if self.current_shape.occupies(pos) {
            return Some(self.current_shape.typ);
        }
        let n: usize = self.fixed_shapes.len();
        let mut i: usize = 0;
        while i < n
            invariant
                n == self.fixed_shapes.len(),
                i <= n,
                !self@.current.cells.contains(pos@),
                forall|j: int| 0 <= j < i ==> !(#[trigger] self@.fixed[j]).cells.contains(pos@),
            decreases n - i,
        {
            if self.fixed_shapes[i].occupies(pos) {
                proof {
                    assert(self@.fixed[i as int].cells.contains(pos@));
                    let first = self@.first_fixed_at(pos@);
                    assert(first == i) by {
                        if first < i {
                            assert(!self@.fixed[first].cells.contains(pos@));
                        }
                    }
                }
                return Some(self.fixed_shapes[i].typ);
            }
            i += 1;
        }
        None
    }

    /// The text shown at the cell `pos`: the glyph of the piece that
    /// [`Tetris::kind_at`] finds there, or the empty text where no piece is.
    #[allow(non_snake_case)]
    pub fn getPosition(&self, pos: Pos) -> (label: &'static str)
        ensures
            label@ == self@.label_at(pos@),
    {
        match self.kind_at(pos) {
            Some(kind) => kind.glyph(),
            None => {
                proof {
                    reveal_strlit("");
                }
                let label: &'static str = "";
                assert(label@ =~= Seq::<char>::empty());
                label
            },
        }
    }

    /// Every cell of the grid, row by row from the top, each row from the
    /// left.
    pub fn iter_positions(&self) -> (cells: Vec<Pos>)
        requires
            self.width <= 127,
            self.height <= 127,
        ensures
            cells.len() == self@.all_cells().len(),
            forall|k: int| 0 <= k < cells.len() ==> (#[trigger] cells[k])@ == self@.all_cells()[k],
    {
        let mut cells: Vec<Pos> = Vec::new();
        let mut y: u8 = 0;
        while y < self.height
            invariant
                self.width <= 127,
                self.height <= 127,
                y <= self.height,
                cells.len() == y * self.width,
                forall|k: int|
                    0 <= k < cells.len() ==> (#[trigger] cells[k])@ == (
                        k % (self.width as int),
                        k / (self.width as int),
                    ),
            decreases self.height - y,
        {
            let mut x: u8 = 0;
            while x < self.width
                invariant
                    self.width <= 127,
                    self.height <= 127,
                    y < self.height,
                    x <= self.width,
                    cells.len() == y * self.width + x,
                    forall|k: int|
                        0 <= k < cells.len() ==> (#[trigger] cells[k])@ == (
                            k % (self.width as int),
                            k / (self.width as int),
                        ),
                decreases self.width - x,
            {
                proof {
                    lemma_fundamental_div_mod_converse(
                        y * self.width + x,
                        self.width as int,
                        y as int,
                        x as int,
                    );
                }
                cells.push(Pos(x as i8, y as i8));
                x += 1;
            }
            assert(y * self.width + self.width == (y + 1) * self.width) by (nonlinear_arith);
            y += 1;
        }
        assert(self.height * self.width == self.width * self.height) by (nonlinear_arith);
        cells
    }

    /// Whether some cell of `shape` lies off the grid.
    pub fn is_out_of_bounds(&self, shape: &Shape) -> (out: bool)
        ensures
            out == self@.out_of_bounds(shape@),
    {
        let n: usize = shape.positions.len();
        let mut i: usize = 0;
        while i < n
            invariant
                n == shape.positions.len(),
                i <= n,
                forall|j: int| 0 <= j < i ==> self@.on_grid(#[trigger] shape.positions[j]@),
            decreases n - i,
        {
            let p: Pos = shape.positions[i];
            if !(p.0 >= 0 && (p.0 as u8) < self.width && p.1 >= 0 && (p.1 as u8) < self.height) {
                proof {
                    lemma_cells_contains(shape.positions@, p@);
                    assert(shape.positions[i as int]@ == p@);
                    assert(shape@.cells.contains(p@) && !self@.on_grid(p@));
                }
                return true;
            }
            i += 1;
        }
        proof {
            assert forall|c: Cell| #[trigger] shape@.cells.contains(c) implies self@.on_grid(c) by {
                lemma_cells_contains(shape.positions@, c);
            }
        }
        false
    }

    /// Whether `shape` shares a cell with a landed piece.
    pub fn is_colliding_with(&self, shape: &Shape) -> (hit: bool)
        ensures
            hit == self@.colliding(shape@),
    {
        let n: usize = self.fixed_shapes.len();
        let mut i: usize = 0;
        while i < n
            invariant
                n == self.fixed_shapes.len(),
                i <= n,
                forall|k: int, c: Cell|
                    0 <= k < i && #[trigger] self@.fixed[k].cells.contains(c)
                        ==> !shape@.cells.contains(c),
            decreases n - i,
        {
            let landed: &Shape = &self.fixed_shapes[i];
            let m: usize = landed.positions.len();
            let mut j: usize = 0;
            while j < m
                invariant
                    i < n,
                    n == self.fixed_shapes.len(),
                    landed == &self.fixed_shapes[i as int],
                    m == landed.positions.len(),
                    j <= m,
                    forall|l: int|
                        0 <= l < j ==> !shape@.cells.contains(#[trigger] landed.positions[l]@),
                decreases m - j,
            {
                if shape.occupies(landed.positions[j]) {
                    proof {
                        let c = landed.positions[j as int]@;
                        lemma_cells_contains(landed.positions@, c);
                        assert(self@.fixed[i as int].cells.contains(c));
                    }
                    return true;
                }
                j += 1;
            }
            proof {
                assert forall|c: Cell| #[trigger]
                    self@.fixed[i as int].cells.contains(c) implies !shape@.cells.contains(c) by {
                    lemma_cells_contains(landed.positions@, c);
                }
            }
            i += 1;
        }
        false
    }

    /// Whether row `y` is full: the landed pieces hold as many cells in it
    /// as the grid is wide.
    pub fn is_line_full(&self, y: i8) -> (full: bool)
        requires
            self.wf(),
        ensures
            full == self@.row_full(y as int),
    {
        let n: usize = self.fixed_shapes.len();
        let mut total: usize = 0;
        let mut i: usize = 0;
        assert(self@.fixed.take(0) =~= Seq::<ShapeView>::empty());
        while i < n
            invariant
                n == self.fixed_shapes.len(),
                i <= n,
                self.wf(),
                total <= self.width,
                total == cells_in_row(self@.fixed.take(i as int), y as int),
            decreases n - i,
        {
            let count: usize = self.fixed_shapes[i].row_len(y);
            proof {
                assert(self@.fixed[i as int] == self.fixed_shapes[i as int]@);
                lemma_cells_in_row_step(self@.fixed, i as int, y as int);
                lemma_cells_in_row_prefix(self@.fixed, i + 1, y as int);
            }
            if count > self.width as usize - total {
                return false;
            }
            total += count;
            i += 1;
        }
        assert(self@.fixed.take(n as int) =~= self@.fixed);
        total == self.width as usize
    }

    /// Takes row `y` out of every landed piece.
    fn clear_line(&mut self, y: i8)
        requires
            old(self).wf(),
        ensures
            final(self).wf(),
            final(self)@ == old(self)@.clear_row(y as int),
            final(self).current_shape == old(self).current_shape,
            final(self).failed == old(self).failed,
    {
        let n: usize = self.fixed_shapes.len();
        let mut i: usize = 0;
        while i < n
            invariant
                n == self.fixed_shapes.len(),
                n == old(self).fixed_shapes.len(),
                i <= n,
                self.wf(),
                self.current_shape == old(self).current_shape,
                self.width == old(self).width,
                self.height == old(self).height,
                self.failed == old(self).failed,
                forall|j: int|
                    0 <= j < i ==> (#[trigger] self.fixed_shapes[j])@ == old(
                        self,
                    ).fixed_shapes[j]@.remove_row(y as int),
                forall|j: int|
                    i <= j < n ==> (#[trigger] self.fixed_shapes[j]) == old(self).fixed_shapes[j],
            decreases n - i,
        {
            self.fixed_shapes[i].remove(y);
            i += 1;
        }
        assert(self@.fixed =~= each_without_row(old(self)@.fixed, y as int));
    }

    /// The line-clear pass: looks at the rows from the top to the bottom and
    /// clears each one that is full when its turn comes, so that one pass
    /// may clear several rows.
    pub fn remove_full_lines(&mut self)
        requires
            old(self).wf(),
        ensures
            final(self).wf(),
            final(self)@ == old(self)@.clear_full_rows(),
            final(self).current_shape == old(self).current_shape,
            final(self).failed == old(self).failed,
    {
        let mut y: u8 = 0;
        while y < self.height
            invariant
                y <= self.height,
                self.wf(),
                self.current_shape == old(self).current_shape,
                self.failed == old(self).failed,
                self@.clear_rows_from(y as int) == old(self)@.clear_full_rows(),
            decreases self.height - y,
        {
            if self.is_line_full(y as i8) {
                self.clear_line(y as i8);
            }
            y += 1;
        }
    }

    /// Makes `candidate` the falling piece where the game is not over and
    /// the piece may move there, and hands back the piece as it was.
    fn attempt(&mut self, candidate: Option<Shape>) -> (prev: Option<Shape>)
        requires
            old(self).wf(),
            candidate matches Some(c) ==> c.wf() && c@.cells.contains(c@.anchor),
        ensures
            final(self).wf(),
            match candidate {
                Some(c) if old(self)@.accepts(c@) => {
                    &&& prev == Some(old(self).current_shape)
                    &&& final(self)@ == old(self)@.with_current(c@)
                },
                _ => {
                    &&& prev is None
                    &&& *final(self) == *old(self)
                },
            },
    {
        if self.failed {
            return None;
        }
        match candidate {
            Some(shape) => {
                if self.could_move(&shape) {
                    let mut shape = shape;
                    core::mem::swap(&mut self.current_shape, &mut shape);
                    Some(shape)
                } else {
                    None
                }
            },
            None => None,
        }
    }

    /// Pushes the falling piece one column to the side if it may move
    /// there, and hands back the piece as it was. Where it may not, or the
    /// game is over, nothing changes and nothing is handed back.
    pub fn shift(&mut self, direction: Direction) -> (prev: Option<Shape>)
        requires
            old(self).wf(),
        ensures
            final(self).wf(),
            final(self)@ == old(self)@.shift(direction),
            prev == if old(self)@.accepts(old(self)@.pushed(direction)) {
                Some(old(self).current_shape)
            } else {
                None::<Shape>
            },
            !old(self)@.accepts(old(self)@.pushed(direction)) ==> *final(self) == *old(self),
    {
        let v = match direction {
            Direction::Left => Pos(-1, 0),
            Direction::Right => Pos(1, 0),
        };
        let candidate = self.current_shape.try_translate(v);
        proof {
            lemma_translate_keeps_anchor(self.current_shape@, v@);
            if candidate is None {
                lemma_unfit_is_out_of_bounds(self@, self@.pushed(direction));
            }
        }
        self.attempt(candidate)
    }

    /// Turns the falling piece by a quarter about its anchor if it may lie
    /// there, and hands back the piece as it was. Where it may not, or the
    /// game is over, nothing changes and nothing is handed back.
    pub fn rotate(&mut self) -> (prev: Option<Shape>)
        requires
            old(self).wf(),
        ensures
            final(self).wf(),
            final(self)@ == old(self)@.rotate(),
            prev == if old(self)@.accepts(old(self)@.current.rotate()) {
                Some(old(self).current_shape)
            } else {
                None::<Shape>
            },
            !old(self)@.accepts(old(self)@.current.rotate()) ==> *final(self) == *old(self),
    {
        let candidate = self.current_shape.try_rotate();
        proof {
            lemma_rotate_keeps_anchor(self.current_shape@);
            if candidate is None {
                lemma_unfit_is_out_of_bounds(self@, self@.current.rotate());
            }
        }
        self.attempt(candidate)
    }

    /// Lets the falling piece come to rest: it becomes the last of the
    /// landed pieces, a new piece of kind `next` falls, the full rows are
    /// cleared, and the game is over if the new piece shares a cell with a
    /// landed one.
    fn land(&mut self, next: Kind)
        requires
            old(self).wf(),
        ensures
            final(self).wf(),
            final(self)@ == old(self)@.land(next),
    {
        let mut piece = Tetris::spawn_piece(self.width, next);
        core::mem::swap(&mut self.current_shape, &mut piece);
        self.fixed_shapes.push(piece);
        assert(self@.fixed =~= old(self)@.fixed.push(old(self)@.current));
        self.remove_full_lines();
        if self.is_colliding_with(&self.current_shape) {
            self.failed = true;
        }
    }

    /// One step of gravity, where `next` is the kind of the piece that falls
    /// next if this one lands.
    ///
    /// Where the falling piece may move one row down, it does, and the piece
    /// as it was is handed back. Else it lands, as [`BoardView::land`] says,
    /// and nothing is handed back. Once the game is over nothing changes.
    pub fn tick_with(&mut self, next: Kind) -> (prev: Option<Shape>)
        requires
            old(self).wf(),
        ensures
            final(self).wf(),
            final(self)@ == old(self)@.tick(next),
            prev == if old(self)@.can_fall() {
                Some(old(self).current_shape)
            } else {
                None::<Shape>
            },
    {
        if self.failed {
            return None;
        }
        let candidate = self.current_shape.try_translate(Pos(0, 1));
        proof {
            lemma_translate_keeps_anchor(self.current_shape@, (0, 1));
            if candidate is None {
                lemma_unfit_is_out_of_bounds(self@, self@.descended());
            }
        }
        let prev = self.attempt(candidate);
        if prev.is_none() {
            self.land(next);
        }
        prev
    }

    /// One step of gravity. As [`Tetris::tick_with`], the kind of the next
    /// piece being drawn uniformly among the seven when the falling piece
    /// lands.
    pub fn tick(&mut self) -> (prev: Option<Shape>)
        requires
            old(self).wf(),
        ensures
            final(self).wf(),
            exists|next: Kind| final(self)@ == #[trigger] old(self)@.tick(next),
            prev == if old(self)@.can_fall() {
                Some(old(self).current_shape)
            } else {
                None::<Shape>
            },
    {
        if self.failed {
            assert(self@ == old(self)@.tick(Kind::I));
            return None;
        }
        let candidate = self.current_shape.try_translate(Pos(0, 1));
        proof {
            lemma_translate_keeps_anchor(self.current_shape@, (0, 1));
            if candidate is None {
                lemma_unfit_is_out_of_bounds(self@, self@.descended());
            }
        }
        let prev = self.attempt(candidate);
        if prev.is_none() {
            let next = Kind::random();
            self.land(next);
            assert(self@ == old(self)@.tick(next));
        } else {
            assert(self@ == old(self)@.tick(Kind::I));
        }
        prev
    }

    /// Whether the falling piece may become `shape`: it must lie on the grid
    /// and clear of every landed piece.
    pub fn could_move(&self, shape: &Shape) -> (free: bool)
        ensures
            free == self@.could_move(shape@),
    {
        !self.is_out_of_bounds(shape) && !self.is_colliding_with(shape)
    }
}

} // verus!

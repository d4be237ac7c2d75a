//! Pieces: a set of cells, a pivot to turn about, and a kind.

use vstd::pervasive::unreached;
use vstd::prelude::*;
use vstd::std_specs::ops::AddSpecImpl;
use crate::tetris::cells::{
    cells_of, in_i8, in_row, lemma_cells_contains, lemma_cells_finite, lemma_cells_mapped,
    lemma_cells_mapped_distinct, lemma_cells_push, lemma_in_row_insert, lemma_shifted_contains, lemma_turned_contains, lemma_without_row_contains,
    shift_cell, shifted, turn_cell, turned, without_row,
};
use crate::tetris::kind::Kind;
use crate::tetris::pos::{Cell, Pos};

verus! {

/// What a [`Shape`] stands for: the cells it occupies on the grid, the pivot
/// it turns about, and its kind.
pub struct ShapeView {
    pub cells: Set<Cell>,
    pub anchor: Cell,
    pub kind: Kind,
}

impl ShapeView {
    /// The shape moved by `v`: cells and pivot move alike.
    pub open spec fn translate(self, v: Cell) -> ShapeView {
        ShapeView {
            cells: shifted(self.cells, v),
            anchor: shift_cell(self.anchor, v),
            kind: self.kind,
        }
    }

    /// The shape turned by a quarter about its pivot, which stays in place.
    pub open spec fn rotate(self) -> ShapeView {
        ShapeView { cells: turned(self.cells, self.anchor), anchor: self.anchor, kind: self.kind }
    }

    /// The shape after row `y` was cleared: its cells in that row are gone
    /// and its cells above that row lie one row further down.
    pub open spec fn remove_row(self, y: int) -> ShapeView {
        ShapeView { cells: without_row(self.cells, y), anchor: self.anchor, kind: self.kind }
    }

    /// The piece of the given kind as it is defined, near the origin:
    ///
    /// | kind | anchor | cells |
    /// |------|--------|-------|
    /// | I | (1,0) | (0,0) (1,0) (2,0) (3,0) |
    /// | O | (1,0) | (0,0) (1,0) (0,1) (1,1) |
    /// | T | (1,0) | (0,0) (1,0) (2,0) (1,1) |
    /// | J | (1,1) | (0,2) (1,0) (1,1) (1,2) |
    /// | L | (0,1) | (0,0) (0,1) (0,2) (1,2) |
    /// | S | (1,0) | (1,0) (2,0) (0,1) (1,1) |
    /// | Z | (1,0) | (0,0) (1,0) (1,1) (2,1) |
    pub open spec fn canonical(kind: Kind) -> ShapeView {
        match kind {
            Kind::I => ShapeView {
                cells: set![(0int, 0int), (1int, 0int), (2int, 0int), (3int, 0int)],
                anchor: (1, 0),
                kind,
            },
            Kind::O => ShapeView {
                cells: set![(0int, 0int), (1int, 0int), (0int, 1int), (1int, 1int)],
                anchor: (1, 0),
                kind,
            },
            Kind::T => ShapeView {
                cells: set![(0int, 0int), (1int, 0int), (2int, 0int), (1int, 1int)],
                anchor: (1, 0),
                kind,
            },
            Kind::J => ShapeView {
                cells: set![(0int, 2int), (1int, 0int), (1int, 1int), (1int, 2int)],
                anchor: (1, 1),
                kind,
            },
            Kind::L => ShapeView {
                cells: set![(0int, 0int), (0int, 1int), (0int, 2int), (1int, 2int)],
                anchor: (0, 1),
                kind,
            },
            Kind::S => ShapeView {
                cells: set![(1int, 0int), (2int, 0int), (0int, 1int), (1int, 1int)],
                anchor: (1, 0),
                kind,
            },
            Kind::Z => ShapeView {
                cells: set![(0int, 0int), (1int, 0int), (1int, 1int), (2int, 1int)],
                anchor: (1, 0),
                kind,
            },
        }
    }

    /// Whether every coordinate of the shape can be held in a [`Pos`].
    pub open spec fn fits(self) -> bool {
        &&& in_i8(self.anchor.0)
        &&& in_i8(self.anchor.1)
        &&& forall|c: Cell| #[trigger] self.cells.contains(c) ==> in_i8(c.0) && in_i8(c.1)
    }
}

/// The cells of a piece as it is defined lie in the first four columns and
/// the first three rows, and its anchor is one of them.
pub proof fn lemma_canonical_cells(kind: Kind)
    ensures
        ShapeView::canonical(kind).cells.contains(ShapeView::canonical(kind).anchor),
        ShapeView::canonical(kind).kind == kind,
        forall|c: Cell| #[trigger]
            ShapeView::canonical(kind).cells.contains(c) ==> 0 <= c.0 <= 3 && 0 <= c.1 <= 2,
{
}

/// A shape that turns about one of its own cells still does so after it was
/// moved.
pub proof fn lemma_translate_keeps_anchor(shape: ShapeView, v: Cell)
    requires
        shape.cells.contains(shape.anchor),
    ensures
        shape.translate(v).cells.contains(shape.translate(v).anchor),
{
    lemma_shifted_contains(shape.cells, v, shift_cell(shape.anchor, v));
}

/// A shape that turns about one of its own cells still does so after it was
/// turned.
pub proof fn lemma_rotate_keeps_anchor(shape: ShapeView)
    requires
        shape.cells.contains(shape.anchor),
    ensures
        shape.rotate().cells.contains(shape.rotate().anchor),
{
    lemma_turned_contains(shape.cells, shape.anchor, shape.anchor);
}

/// A piece: the cells it occupies, the cell it turns about, and its kind.
///
/// `positions` lists each occupied cell once, in no particular order; see
/// [`Shape::wf`].
#[derive(Debug, Clone)]
pub struct Shape {
    pub positions: Vec<Pos>,
    pub anchor: Pos,
    pub typ: Kind,
}

impl View for Shape {
    type V = ShapeView;

    open spec fn view(&self) -> ShapeView {
        ShapeView { cells: cells_of(self.positions@), anchor: self.anchor@, kind: self.typ }
    }
}

impl core::ops::Add<Pos> for &Shape {
    type Output = Shape;

    /// The shape moved by `rhs`, as [`Shape::translate`] gives it.
    fn add(self, rhs: Pos) -> (moved: Shape)
        ensures
            moved@ == self@.translate(rhs@),
            moved.positions.len() == self.positions.len(),
            moved.typ == self.typ,
            self.wf() ==> moved.wf(),
    {
        self.translate(rhs)
    }
}

/// The sum of a shape and a vector is stated by the `ensures` of `add`
/// over views; no shape is named as the sum, so `obeys_add_spec` is false.
impl AddSpecImpl<Pos> for &Shape {
    open spec fn obeys_add_spec() -> bool {
        false
    }

    open spec fn add_req(self, rhs: Pos) -> bool {
        self@.translate(rhs@).fits()
    }

    open spec fn add_spec(self, rhs: Pos) -> Shape {
        *self
    }
}

/// `p` moved by `v`, where the result can be held in a [`Pos`].
fn shift_pos(p: Pos, v: Pos) -> (moved: Option<Pos>)
    ensures
        moved is Some <==> in_i8(p.0 + v.0) && in_i8(p.1 + v.1),
        moved matches Some(q) ==> q@ == shift_cell(p@, v@),
{
    let x: i16 = p.0 as i16 + v.0 as i16;
    let y: i16 = p.1 as i16 + v.1 as i16;
    if -128 <= x && x <= 127 && -128 <= y && y <= 127 {
        Some(Pos(x as i8, y as i8))
    } else {
        None
    }
}

/// `p` turned by a quarter about `pivot`, where the result can be held in a
/// [`Pos`].
fn turn_pos(p: Pos, pivot: Pos) -> (moved: Option<Pos>)
    ensures
        moved is Some <==> in_i8(turn_cell(p@, pivot@).0) && in_i8(turn_cell(p@, pivot@).1),
        moved matches Some(q) ==> q@ == turn_cell(p@, pivot@),
{
    let x: i16 = -(p.1 as i16) + pivot.0 as i16 + pivot.1 as i16;
    let y: i16 = pivot.1 as i16 + p.0 as i16 - pivot.0 as i16;
    if -128 <= x && x <= 127 && -128 <= y && y <= 127 {
        Some(Pos(x as i8, y as i8))
    } else {
        None
    }
}

/// The shape of four distinct cells.
fn four_cells(a: Pos, b: Pos, c: Pos, d: Pos, anchor: Pos, typ: Kind) -> (shape: Shape)
    requires
        a != b,
        a != c,
        a != d,
        b != c,
        b != d,
        c != d,
    ensures
        shape.wf(),
        shape@ == (ShapeView { cells: set![a@, b@, c@, d@], anchor: anchor@, kind: typ }),
{
    let mut positions: Vec<Pos> = Vec::new();
    positions.push(a);
    positions.push(b);
    positions.push(c);
    positions.push(d);
    let shape = Shape { positions, anchor, typ };
    proof {
        assert forall|cell: Cell| shape@.cells.contains(cell) <==> set![a@, b@, c@, d@].contains(
            cell,
        ) by {
            lemma_cells_contains(shape.positions@, cell);
            if cell == a@ {
                assert(shape.positions[0]@ == cell);
            }
            if cell == b@ {
                assert(shape.positions[1]@ == cell);
            }
            if cell == c@ {
                assert(shape.positions[2]@ == cell);
            }
            if cell == d@ {
                assert(shape.positions[3]@ == cell);
            }
        }
        assert(shape@.cells =~= set![a@, b@, c@, d@]);
    }
    shape
}

impl Shape {
    /// A shape is well formed when no cell is listed twice.
    pub open spec fn wf(&self) -> bool {
        self.positions@.no_duplicates()
    }

    /// Whether the shape occupies the cell `pos`.
    pub fn occupies(&self, pos: Pos) -> (found: bool)
        ensures
            found == self@.cells.contains(pos@),
    {
        let n: usize = self.positions.len();
        let mut i: usize = 0;
        while i < n
            invariant
                n == self.positions.len(),
                i <= n,
                forall|j: int| 0 <= j < i ==> self.positions[j]@ != pos@,
            decreases n - i,
        {
            let p: Pos = self.positions[i];
            if p.0 == pos.0 && p.1 == pos.1 {
                proof {
                    lemma_cells_contains(self.positions@, pos@);
                }
                return true;
            }
            i += 1;
        }
        proof {
            lemma_cells_contains(self.positions@, pos@);
        }
        false
    }

    /// Whether the shape is well formed.
    pub fn is_well_formed(&self) -> (ok: bool)
        ensures
            ok == self.wf(),
    {
        let n: usize = self.positions.len();
        let mut i: usize = 0;
        while i < n
            invariant
                n == self.positions.len(),
                i <= n,
                forall|j: int, k: int|
                    0 <= j < i && j < k < n ==> self.positions[j] != self.positions[k],
            decreases n - i,
        {
            let p: Pos = self.positions[i];
            let mut k: usize = i + 1;
            while k < n
                invariant
                    n == self.positions.len(),
                    i < k <= n,
                    p == self.positions[i as int],
                    forall|l: int| i < l < k ==> self.positions[i as int] != self.positions[l],
                decreases n - k,
            {
                let q: Pos = self.positions[k];
                if p.0 == q.0 && p.1 == q.1 {
                    return false;
                }
                k += 1;
            }
            i += 1;
        }
        true
    }

    /// The number of cells that the shape has in row `y`.
    pub fn row_len(&self, y: i8) -> (count: usize)
        requires
            self.wf(),
        ensures
            count == in_row(self@.cells, y as int).len(),
    {
        let n: usize = self.positions.len();
        let mut count: usize = 0;
        let mut i: usize = 0;
        proof {
            assert(self.positions@.take(0) =~= Seq::<Pos>::empty());
            assert(in_row(cells_of(Seq::<Pos>::empty()), y as int) =~= Set::<Cell>::empty());
        }
        while i < n
            invariant
                n == self.positions.len(),
                i <= n,
                self.wf(),
                count <= i,
                count == in_row(cells_of(self.positions@.take(i as int)), y as int).len(),
            decreases n - i,
        {
            let p: Pos = self.positions[i];
            proof {
                let seen = self.positions@.take(i as int);
                assert(self.positions@.take(i + 1) =~= seen.push(p));
                lemma_cells_push(seen, p);
                lemma_cells_finite(seen);
                lemma_cells_contains(seen, p@);
                if cells_of(seen).contains(p@) {
                    let j = choose|j: int| 0 <= j < seen.len() && (#[trigger] seen[j])@ == p@;
                    assert(self.positions[j] == self.positions[i as int]);
                }
                lemma_in_row_insert(cells_of(seen), p@, y as int);
            }
            if p.1 == y {
                count += 1;
            }
            i += 1;
        }
        assert(self.positions@.take(n as int) =~= self.positions@);
        count
    }

    /// The shape that occupies the cells listed in `positions`, each once
    /// however often it is listed.
    pub fn new(positions: Vec<Pos>, anchor: Pos, typ: Kind) -> (shape: Shape)
        ensures
            shape.wf(),
            shape@.cells == cells_of(positions@),
            shape.anchor == anchor,
            shape.typ == typ,
            positions@.no_duplicates() ==> shape.positions@ == positions@,
    {
        let mut shape = Shape { positions: Vec::new(), anchor, typ };
        let n: usize = positions.len();
        let mut i: usize = 0;
        assert(positions@.take(0) =~= Seq::<Pos>::empty());
        while i < n
            invariant
                n == positions.len(),
                i <= n,
                shape.wf(),
                shape.anchor == anchor,
                shape.typ == typ,
                shape@.cells == cells_of(positions@.take(i as int)),
                positions@.no_duplicates() ==> shape.positions@ == positions@.take(i as int),
            decreases n - i,
        {
            let p: Pos = positions[i];
            let ghost before = shape.positions@;
            proof {
                assert(positions@.take(i + 1) =~= positions@.take(i as int).push(p));
                lemma_cells_push(positions@.take(i as int), p);
                lemma_cells_contains(before, p@);
            }
            if !shape.occupies(p) {
                shape.positions.push(p);
                proof {
                    lemma_cells_push(before, p);
                }
            } else {
                proof {
                    assert(cells_of(before).insert(p@) =~= cells_of(before));
                    if positions@.no_duplicates() {
                        let j = choose|j: int| 0 <= j < before.len() && (#[trigger] before[j])@ == p@;
                        assert(positions[j] == positions[i as int]);
                    }
                }
            }
            i += 1;
        }
        assert(positions@.take(n as int) =~= positions@);
        shape
    }

    /// The I piece as it is defined.
    pub fn new_i() -> (shape: Shape)
        ensures
            shape.wf(),
            shape@ == ShapeView::canonical(Kind::I),
    {
        four_cells(Pos(0, 0), Pos(1, 0), Pos(2, 0), Pos(3, 0), Pos(1, 0), Kind::I)
    }

    /// The O piece as it is defined.
    pub fn new_o() -> (shape: Shape)
        ensures
            shape.wf(),
            shape@ == ShapeView::canonical(Kind::O),
    {
        four_cells(Pos(0, 0), Pos(1, 0), Pos(0, 1), Pos(1, 1), Pos(1, 0), Kind::O)
    }

    /// The T piece as it is defined.
    pub fn new_t() -> (shape: Shape)
        ensures
            shape.wf(),
            shape@ == ShapeView::canonical(Kind::T),
    {
        four_cells(Pos(0, 0), Pos(1, 0), Pos(2, 0), Pos(1, 1), Pos(1, 0), Kind::T)
    }

    /// The J piece as it is defined.
    pub fn new_j() -> (shape: Shape)
        ensures
            shape.wf(),
            shape@ == ShapeView::canonical(Kind::J),
    {
        four_cells(Pos(0, 2), Pos(1, 0), Pos(1, 1), Pos(1, 2), Pos(1, 1), Kind::J)
    }

    /// The L piece as it is defined.
    pub fn new_l() -> (shape: Shape)
        ensures
            shape.wf(),
            shape@ == ShapeView::canonical(Kind::L),
    {
        four_cells(Pos(0, 0), Pos(0, 1), Pos(0, 2), Pos(1, 2), Pos(0, 1), Kind::L)
    }

    /// The S piece as it is defined.
    pub fn new_s() -> (shape: Shape)
        ensures
            shape.wf(),
            shape@ == ShapeView::canonical(Kind::S),
    {
        four_cells(Pos(1, 0), Pos(2, 0), Pos(0, 1), Pos(1, 1), Pos(1, 0), Kind::S)
    }

    /// The Z piece as it is defined.
    pub fn new_z() -> (shape: Shape)
        ensures
            shape.wf(),
            shape@ == ShapeView::canonical(Kind::Z),
    {
        four_cells(Pos(0, 0), Pos(1, 0), Pos(1, 1), Pos(2, 1), Pos(1, 0), Kind::Z)
    }

    /// The piece of the given kind as it is defined.
    pub fn of_kind(kind: Kind) -> (shape: Shape)
        ensures
            shape.wf(),
            shape@ == ShapeView::canonical(kind),
    {
        match kind {
            Kind::I => Shape::new_i(),
            Kind::O => Shape::new_o(),
            Kind::T => Shape::new_t(),
            Kind::J => Shape::new_j(),
            Kind::L => Shape::new_l(),
            Kind::S => Shape::new_s(),
            Kind::Z => Shape::new_z(),
        }
    }

    /// A piece of a kind drawn uniformly among the seven, as it is defined.
    pub fn random_shape() -> (shape: Shape)
        ensures
            shape.wf(),
            shape@ == ShapeView::canonical(shape.typ),
    {
        Shape::of_kind(Kind::random())
    }

    /// The shape moved by `v`, or nothing where a coordinate of the result
    /// would leave the range of a [`Pos`].
    pub fn try_translate(&self, v: Pos) -> (moved: Option<Shape>)
        ensures
            moved is Some <==> self@.translate(v@).fits(),
            moved matches Some(s) ==> {
                &&& s@ == self@.translate(v@)
                &&& s.positions.len() == self.positions.len()
                &&& self.wf() ==> s.wf()
            },
    {
        let anchor: Pos = match shift_pos(self.anchor, v) {
            Some(a) => a,
            None => {
                return None;
            },
        };
        let n: usize = self.positions.len();
        let mut out: Vec<Pos> = Vec::new();
        let mut i: usize = 0;
        while i < n
            invariant
                n == self.positions.len(),
                i <= n,
                out.len() == i,
                forall|j: int| 0 <= j < i ==> (#[trigger] out[j])@ == shift_cell(self.positions[j]@, v@),
            decreases n - i,
        {
            match shift_pos(self.positions[i], v) {
                Some(q) => {
                    out.push(q);
                },
                None => {
                    proof {
                        let c = shift_cell(self.positions[i as int]@, v@);
                        lemma_cells_contains(self.positions@, self.positions[i as int]@);
                        lemma_shifted_contains(self@.cells, v@, c);
                        assert(self@.translate(v@).cells.contains(c));
                    }
                    return None;
                },
            }
            i += 1;
        }
        let moved = Shape { positions: out, anchor, typ: self.typ };
        proof {
            let f = |c: Cell| shift_cell(c, v@);
            lemma_cells_mapped(self.positions@, moved.positions@, f);
            assert(moved@.cells =~= shifted(self@.cells, v@));
            assert forall|c: Cell| #[trigger] moved@.cells.contains(c) implies in_i8(c.0) && in_i8(
                c.1,
            ) by {
                lemma_cells_contains(moved.positions@, c);
            }
            if self.wf() {
                lemma_cells_mapped_distinct(self.positions@, moved.positions@, f);
            }
        }
        Some(moved)
    }

    /// The shape moved by `v`: every cell and the anchor are offset by `v`,
    /// the kind stays.
    pub fn translate(&self, v: Pos) -> (moved: Shape)
        requires
            self@.translate(v@).fits(),
        ensures
            moved@ == self@.translate(v@),
            moved.positions.len() == self.positions.len(),
            moved.typ == self.typ,
            self.wf() ==> moved.wf(),
    {
        match self.try_translate(v) {
            Some(moved) => moved,
            None => unreached(),
        }
    }

    /// The shape turned by a quarter about its anchor, or nothing where a
    /// coordinate of the result would leave the range of a [`Pos`].
    pub fn try_rotate(&self) -> (moved: Option<Shape>)
        ensures
            moved is Some <==> self@.rotate().fits(),
            moved matches Some(s) ==> {
                &&& s@ == self@.rotate()
                &&& s.positions.len() == self.positions.len()
                &&& self.wf() ==> s.wf()
            },
    {
        let n: usize = self.positions.len();
        let mut out: Vec<Pos> = Vec::new();
        let mut i: usize = 0;
        while i < n
            invariant
                n == self.positions.len(),
                i <= n,
                out.len() == i,
                forall|j: int|
                    0 <= j < i ==> (#[trigger] out[j])@ == turn_cell(
                        self.positions[j]@,
                        self.anchor@,
                    ),
            decreases n - i,
        {
            match turn_pos(self.positions[i], self.anchor) {
                Some(q) => {
                    out.push(q);
                },
                None => {
                    proof {
                        let origin = self.positions[i as int]@;
                        let c = turn_cell(origin, self.anchor@);
                        lemma_cells_contains(self.positions@, origin);
                        lemma_turned_contains(self@.cells, self.anchor@, c);
                        assert(self@.rotate().cells.contains(c));
                    }
                    return None;
                },
            }
            i += 1;
        }
        let moved = Shape { positions: out, anchor: self.anchor, typ: self.typ };
        proof {
            let f = |c: Cell| turn_cell(c, self.anchor@);
            lemma_cells_mapped(self.positions@, moved.positions@, f);
            assert(moved@.cells =~= turned(self@.cells, self.anchor@));
            assert forall|c: Cell| #[trigger] moved@.cells.contains(c) implies in_i8(c.0) && in_i8(
                c.1,
            ) by {
                lemma_cells_contains(moved.positions@, c);
            }
            if self.wf() {
                lemma_cells_mapped_distinct(self.positions@, moved.positions@, f);
            }
        }
        Some(moved)
    }

    /// The shape turned by a quarter about its anchor: with the anchor at
    /// `(a, b)`, each cell `(x, y)` goes to `(-y + a + b, b + x - a)`. The
    /// anchor and the kind stay.
    pub fn rotate(&self) -> (moved: Shape)
        requires
            self@.rotate().fits(),
        ensures
            moved@ == self@.rotate(),
            moved.positions.len() == self.positions.len(),
            moved.anchor == self.anchor,
            moved.typ == self.typ,
            self.wf() ==> moved.wf(),
    {
        match self.try_rotate() {
            Some(moved) => moved,
            None => unreached(),
        }
    }

    /// Takes row `y` out of the shape: its cells in that row go, and its
    /// cells above that row move one row down. Cells below stay.
    pub fn remove(&mut self, y: i8)
        ensures
            final(self)@ == old(self)@.remove_row(y as int),
            final(self).anchor == old(self).anchor,
            final(self).typ == old(self).typ,
            old(self).wf() ==> final(self).wf(),
    {
        let n: usize = self.positions.len();
        let mut out: Vec<Pos> = Vec::new();
        let mut i: usize = 0;
        proof {
            assert(self.positions@.take(0) =~= Seq::<Pos>::empty());
            assert(cells_of(out@) =~= without_row(cells_of(self.positions@.take(0)), y as int)) by {
                assert forall|c: Cell| !without_row(
                    cells_of(Seq::<Pos>::empty()),
                    y as int,
                ).contains(c) by {
                    lemma_without_row_contains(cells_of(Seq::<Pos>::empty()), y as int, c);
                }
            }
        }
        while i < n
            invariant
                n == self.positions.len(),
                i <= n,
                *self == *old(self),
                cells_of(out@) == without_row(cells_of(self.positions@.take(i as int)), y as int),
                self.wf() ==> out@.no_duplicates(),
            decreases n - i,
        {
            let p: Pos = self.positions[i];
            let ghost seen = self.positions@.take(i as int);
            let ghost before = out@;
            proof {
                assert(self.positions@.take(i + 1) =~= seen.push(p));
                lemma_cells_push(seen, p);
            }
            if p.1 != y {
                let q: Pos = if p.1 < y {
                    Pos(p.0, p.1 + 1)
                } else {
                    p
                };
                out.push(q);
                proof {
                    lemma_cells_push(before, q);
                    assert forall|c: Cell|
                        cells_of(before).insert(q@).contains(c) <==> without_row(
                            cells_of(seen).insert(p@),
                            y as int,
                        ).contains(c) by {
                        lemma_without_row_contains(cells_of(seen), y as int, c);
                        lemma_without_row_contains(cells_of(seen).insert(p@), y as int, c);
                    }
                    assert(cells_of(out@) =~= without_row(cells_of(seen.push(p)), y as int));
                    if self.wf() {
                        lemma_cells_contains(before, q@);
                        lemma_cells_contains(seen, p@);
                        lemma_without_row_contains(cells_of(seen), y as int, q@);
                        assert(!cells_of(seen).contains(p@)) by {
                            if cells_of(seen).contains(p@) {
                                let j = choose|j: int|
                                    0 <= j < seen.len() && (#[trigger] seen[j])@ == p@;
                                assert(self.positions[j] == self.positions[i as int]);
                            }
                        }
                        assert(!cells_of(before).contains(q@));
                        assert forall|j: int| 0 <= j < before.len() implies before[j] != q by {
                            if before[j] == q {
                                assert(before[j]@ == q@);
                            }
                        }
                    }
                }
            } else {
                proof {
                    assert forall|c: Cell|
                        cells_of(before).contains(c) <==> without_row(
                            cells_of(seen).insert(p@),
                            y as int,
                        ).contains(c) by {
                        lemma_without_row_contains(cells_of(seen), y as int, c);
                        lemma_without_row_contains(cells_of(seen).insert(p@), y as int, c);
                    }
                    assert(cells_of(out@) =~= without_row(cells_of(seen.push(p)), y as int));
                }
            }
            i += 1;
        }
        assert(self.positions@.take(n as int) =~= self.positions@);
        self.positions = out;
    }
}

} // verus!

//! Sets of cells: the three transforms a piece can undergo, and the link
//! between a list of positions and the set of cells it stands for.

use vstd::prelude::*;
use vstd::seq_lib::seq_to_set_is_finite;
use crate::tetris::pos::{Cell, Pos};

verus! {

/// Whether `n` fits a coordinate of a [`Pos`].
pub open spec fn in_i8(n: int) -> bool {
    -128 <= n <= 127
}

/// The cell `c` moved by the vector `v`.
pub open spec fn shift_cell(c: Cell, v: Cell) -> Cell {
    (c.0 + v.0, c.1 + v.1)
}

/// The cell `c` turned by a quarter about `pivot`: with the pivot at
/// `(a, b)`, the cell `(x, y)` goes to `(-y + a + b, b + x - a)`.
pub open spec fn turn_cell(c: Cell, pivot: Cell) -> Cell {
    (-c.1 + pivot.0 + pivot.1, pivot.1 + c.0 - pivot.0)
}

/// Where the cell `c` lies once row `y` has been taken out from under it:
/// one row further down if it was above row `y`, else where it was.
pub open spec fn settle_cell(c: Cell, y: int) -> Cell {
    if c.1 < y {
        (c.0, c.1 + 1)
    } else {
        c
    }
}

/// Every cell of `cells` moved by `v`.
pub open spec fn shifted(cells: Set<Cell>, v: Cell) -> Set<Cell> {
    cells.map(|c: Cell| shift_cell(c, v))
}

/// Every cell of `cells` turned by a quarter about `pivot`.
pub open spec fn turned(cells: Set<Cell>, pivot: Cell) -> Set<Cell> {
    cells.map(|c: Cell| turn_cell(c, pivot))
}

/// The cells of `cells` that lie in row `y`.
pub open spec fn in_row(cells: Set<Cell>, y: int) -> Set<Cell> {
    cells.filter(|c: Cell| c.1 == y)
}

/// The cells of `cells` that lie in another row than `y`.
pub open spec fn off_row(cells: Set<Cell>, y: int) -> Set<Cell> {
    cells.filter(|c: Cell| c.1 != y)
}

/// `cells` without row `y`, the cells above that row moved one row down.
pub open spec fn without_row(cells: Set<Cell>, y: int) -> Set<Cell> {
    off_row(cells, y).map(|c: Cell| settle_cell(c, y))
}

/// The set of cells that a list of positions stands for.
pub open spec fn cells_of(ps: Seq<Pos>) -> Set<Cell> {
    ps.map_values(|p: Pos| p@).to_set()
}

/// A cell lies in a shifted set exactly when the cell it came from lies in
/// the set that was shifted.
pub proof fn lemma_shifted_contains(cells: Set<Cell>, v: Cell, c: Cell)
    ensures
        shifted(cells, v).contains(c) <==> cells.contains((c.0 - v.0, c.1 - v.1)),
{
    if cells.contains((c.0 - v.0, c.1 - v.1)) {
        assert(shift_cell((c.0 - v.0, c.1 - v.1), v) == c);
    }
}

/// A cell lies in a turned set exactly when the cell it came from lies in
/// the set that was turned.
pub proof fn lemma_turned_contains(cells: Set<Cell>, pivot: Cell, c: Cell)
    ensures
        turned(cells, pivot).contains(c) <==> cells.contains(
            (c.1 - pivot.1 + pivot.0, pivot.0 + pivot.1 - c.0),
        ),
{
    let origin = (c.1 - pivot.1 + pivot.0, pivot.0 + pivot.1 - c.0);
    if cells.contains(origin) {
        assert(turn_cell(origin, pivot) == c);
    }
}

/// What is left after row `y` is taken out: below that row every cell that
/// was there, in and above it every cell that was one row higher.
pub proof fn lemma_without_row_contains(cells: Set<Cell>, y: int, c: Cell)
    ensures
        without_row(cells, y).contains(c) <==> if c.1 > y {
            cells.contains(c)
        } else {
            cells.contains((c.0, c.1 - 1))
        },
{
    let kept = off_row(cells, y);
    if c.1 > y {
        if cells.contains(c) {
            assert(kept.contains(c));
            assert(settle_cell(c, y) == c);
        }
    } else {
        let above = (c.0, c.1 - 1);
        if cells.contains(above) {
            assert(kept.contains(above));
            assert(settle_cell(above, y) == c);
        }
    }
}

/// A cell belongs to the set of a list exactly when the list holds a position
/// with that view.
pub proof fn lemma_cells_contains(ps: Seq<Pos>, c: Cell)
    ensures
        cells_of(ps).contains(c) <==> exists|i: int| 0 <= i < ps.len() && (#[trigger] ps[i])@ == c,
{
    let views = ps.map_values(|p: Pos| p@);
    if cells_of(ps).contains(c) {
        let i = choose|i: int| 0 <= i < views.len() && views[i] == c;
        assert(ps[i]@ == c);
    }
    if exists|i: int| 0 <= i < ps.len() && (#[trigger] ps[i])@ == c {
        let i = choose|i: int| 0 <= i < ps.len() && (#[trigger] ps[i])@ == c;
        assert(views[i] == c);
        assert(views.contains(c));
    }
}

/// The set of a list of positions is finite.
pub proof fn lemma_cells_finite(ps: Seq<Pos>)
    ensures
        cells_of(ps).finite(),
{
    seq_to_set_is_finite(ps.map_values(|p: Pos| p@));
}

/// Appending a position adds its cell to the set.
pub proof fn lemma_cells_push(ps: Seq<Pos>, p: Pos)
    ensures
        cells_of(ps.push(p)) == cells_of(ps).insert(p@),
{
    let f = |p: Pos| p@;
    assert(ps.push(p).map_values(f) =~= ps.map_values(f).push(p@));
    ps.map_values(f).lemma_push_to_set_commute(p@);
}

/// A list without repeated positions has as many entries as its set has
/// cells.
pub proof fn lemma_cells_len(ps: Seq<Pos>)
    requires
        ps.no_duplicates(),
    ensures
        cells_of(ps).finite(),
        cells_of(ps).len() == ps.len(),
{
    let views = ps.map_values(|p: Pos| p@);
    assert forall|i: int, j: int| 0 <= i < views.len() && 0 <= j < views.len() && i != j implies views[i]
        != views[j] by {
        assert(ps[i] != ps[j]);
    }
    views.unique_seq_to_set();
    lemma_cells_finite(ps);
}

/// A new cell adds one to the count of its row and nothing to the count of
/// any other row.
pub proof fn lemma_in_row_insert(cells: Set<Cell>, a: Cell, y: int)
    requires
        cells.finite(),
        !cells.contains(a),
    ensures
        in_row(cells, y).finite(),
        in_row(cells.insert(a), y).finite(),
        in_row(cells.insert(a), y).len() == in_row(cells, y).len() + if a.1 == y {
            1nat
        } else {
            0nat
        },
{
    cells.lemma_len_filter(|c: Cell| c.1 == y);
    cells.insert(a).lemma_len_filter(|c: Cell| c.1 == y);
    if a.1 == y {
        assert(in_row(cells.insert(a), y) =~= in_row(cells, y).insert(a));
    } else {
        assert(in_row(cells.insert(a), y) =~= in_row(cells, y));
    }
}

/// Where a second list holds, entry by entry, the images of a first under
/// `f`, its set is the image of the first one's set.
pub proof fn lemma_cells_mapped(ps: Seq<Pos>, qs: Seq<Pos>, f: spec_fn(Cell) -> Cell)
    requires
        qs.len() == ps.len(),
        forall|j: int| 0 <= j < ps.len() ==> (#[trigger] qs[j])@ == f(ps[j]@),
    ensures
        cells_of(qs) == cells_of(ps).map(f),
{
    assert forall|c: Cell| cells_of(qs).contains(c) <==> cells_of(ps).map(f).contains(c) by {
        lemma_cells_contains(qs, c);
        if cells_of(qs).contains(c) {
            let j = choose|j: int| 0 <= j < qs.len() && (#[trigger] qs[j])@ == c;
            lemma_cells_contains(ps, ps[j]@);
            assert(cells_of(ps).contains(ps[j]@));
        }
        if cells_of(ps).map(f).contains(c) {
            let a = choose|a: Cell| cells_of(ps).contains(a) && c == f(a);
            lemma_cells_contains(ps, a);
            let j = choose|j: int| 0 <= j < ps.len() && (#[trigger] ps[j])@ == a;
            assert(qs[j]@ == c);
        }
    }
    assert(cells_of(qs) =~= cells_of(ps).map(f));
}

/// Where `f` sends distinct cells to distinct cells, the images of a list
/// without repeated positions hold no repeated position either.
pub proof fn lemma_cells_mapped_distinct(ps: Seq<Pos>, qs: Seq<Pos>, f: spec_fn(Cell) -> Cell)
    requires
        ps.no_duplicates(),
        qs.len() == ps.len(),
        forall|j: int| 0 <= j < ps.len() ==> (#[trigger] qs[j])@ == f(ps[j]@),
        forall|a: Cell, b: Cell| #[trigger] f(a) == #[trigger] f(b) ==> a == b,
    ensures
        qs.no_duplicates(),
{
    assert forall|j: int, k: int| 0 <= j < qs.len() && 0 <= k < qs.len() && j != k implies qs[j]
        != qs[k] by {
        assert(ps[j] != ps[k]);
        assert(qs[j]@ == f(ps[j]@));
        assert(qs[k]@ == f(ps[k]@));
    }
}

} // verus!

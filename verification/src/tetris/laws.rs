//! What holds of pieces whatever their cells are.

use vstd::prelude::*;
use vstd::relations::injective_on;
use vstd::set_lib::lemma_map_size;
use crate::tetris::cells::{
    lemma_cells_len, lemma_turned_contains, lemma_without_row_contains, shift_cell, shifted,
    turn_cell, turned,
};
use crate::tetris::pos::Cell;
use crate::tetris::shape::{Shape, ShapeView};

verus! {

/// Four quarter turns bring every shape back to where it was: the same
/// cells, the same anchor, the same kind.
pub proof fn lemma_rotate_four_times(shape: ShapeView)
    ensures
        shape.rotate().rotate().rotate().rotate() == shape,
{
    let once = shape.rotate();
    let twice = once.rotate();
    let thrice = twice.rotate();
    let back = thrice.rotate();
    assert forall|c: Cell| back.cells.contains(c) <==> shape.cells.contains(c) by {
        let pivot = shape.anchor;
        let c1 = (c.1 - pivot.1 + pivot.0, pivot.0 + pivot.1 - c.0);
        let c2 = (c1.1 - pivot.1 + pivot.0, pivot.0 + pivot.1 - c1.0);
        let c3 = (c2.1 - pivot.1 + pivot.0, pivot.0 + pivot.1 - c2.0);
        lemma_turned_contains(thrice.cells, pivot, c);
        lemma_turned_contains(twice.cells, pivot, c1);
        lemma_turned_contains(once.cells, pivot, c2);
        lemma_turned_contains(shape.cells, pivot, c3);
    }
    assert(back.cells =~= shape.cells);
}

/// A quarter turn leaves the anchor where it is.
pub proof fn lemma_rotate_keeps_pivot(shape: ShapeView)
    ensures
        shape.rotate().anchor == shape.anchor,
        shape.rotate().kind == shape.kind,
{
}

/// Moving a shape changes neither the number of its cells nor its kind, and
/// moves the anchor as it moves the cells.
pub proof fn lemma_translate_keeps_size(shape: ShapeView, v: Cell)
    requires
        shape.cells.finite(),
    ensures
        shape.translate(v).cells.finite(),
        shape.translate(v).cells.len() == shape.cells.len(),
        shape.translate(v).kind == shape.kind,
        shape.translate(v).anchor == shift_cell(shape.anchor, v),
{
    let f = |c: Cell| shift_cell(c, v);
    assert(injective_on(f, shape.cells));
    assert(shape.cells.map(f) =~= shifted(shape.cells, v));
    lemma_map_size(shape.cells, shifted(shape.cells, v), f);
}

/// Turning a shape changes neither the number of its cells nor its kind.
pub proof fn lemma_rotate_keeps_size(shape: ShapeView)
    requires
        shape.cells.finite(),
    ensures
        shape.rotate().cells.finite(),
        shape.rotate().cells.len() == shape.cells.len(),
        shape.rotate().kind == shape.kind,
{
    let f = |c: Cell| turn_cell(c, shape.anchor);
    assert(injective_on(f, shape.cells));
    assert(shape.cells.map(f) =~= turned(shape.cells, shape.anchor));
    lemma_map_size(shape.cells, turned(shape.cells, shape.anchor), f);
}

/// A well-formed shape lists as many positions as it has cells, so a
/// well-formed shape that stands for another one moved or turned lists as
/// many positions as that one.
pub proof fn lemma_moved_shape_keeps_length(shape: Shape, moved: Shape, v: Cell)
    requires
        shape.wf(),
        moved.wf(),
        moved@ == shape@.translate(v) || moved@ == shape@.rotate(),
    ensures
        shape.positions.len() == shape@.cells.len(),
        moved.positions.len() == shape.positions.len(),
        moved.typ == shape.typ,
{
    lemma_cells_len(shape.positions@);
    lemma_cells_len(moved.positions@);
    lemma_translate_keeps_size(shape@, v);
    lemma_rotate_keeps_size(shape@);
}

/// Taking row `y` out of a shape removes its cells in that row, moves each
/// cell above that row one row down, and leaves each cell below it alone.
pub proof fn lemma_remove_row_compacts(shape: ShapeView, y: int)
    ensures
        forall|c: Cell|
            shape.cells.contains(c) && c.1 < y ==> #[trigger] shape.remove_row(y).cells.contains(
                (c.0, c.1 + 1),
            ),
        forall|c: Cell| c.1 > y ==> (#[trigger] shape.remove_row(y).cells.contains(c)
            <==> shape.cells.contains(c)),
        forall|c: Cell| c.1 <= y ==> (#[trigger] shape.remove_row(y).cells.contains(c)
            <==> shape.cells.contains((c.0, c.1 - 1))),
        shape.remove_row(y).anchor == shape.anchor,
        shape.remove_row(y).kind == shape.kind,
{
    assert forall|c: Cell|
        shape.cells.contains(c) && c.1 < y implies #[trigger] shape.remove_row(y).cells.contains(
        (c.0, c.1 + 1),
    ) by {
        lemma_without_row_contains(shape.cells, y, (c.0, c.1 + 1));
    }
    assert forall|c: Cell| c.1 > y implies (#[trigger] shape.remove_row(y).cells.contains(c)
        <==> shape.cells.contains(c)) by {
        lemma_without_row_contains(shape.cells, y, c);
    }
    assert forall|c: Cell| c.1 <= y implies (#[trigger] shape.remove_row(y).cells.contains(c)
        <==> shape.cells.contains((c.0, c.1 - 1))) by {
        lemma_without_row_contains(shape.cells, y, c);
    }
}

/// Once row `y` is taken out of a shape, the shape has cells in that row
/// only where it had cells in the row above.
pub proof fn lemma_removed_row_is_refilled_from_above(shape: ShapeView, y: int)
    requires
        forall|c: Cell| shape.cells.contains(c) ==> c.1 != y - 1,
    ensures
        forall|c: Cell| #[trigger] shape.remove_row(y).cells.contains(c) ==> c.1 != y,
{
    assert forall|c: Cell| #[trigger] shape.remove_row(y).cells.contains(c) implies c.1 != y by {
        lemma_without_row_contains(shape.cells, y, c);
    }
}

} // verus!

//! What holds of every game, whatever its state.

use vstd::prelude::*;
use crate::tetris::board::{cells_in_row, each_without_row, BoardView, Direction};
use crate::tetris::cells::{in_row, lemma_shifted_contains, lemma_without_row_contains};
use crate::tetris::kind::Kind;
use crate::tetris::pos::Cell;
use crate::tetris::shape::{lemma_canonical_cells, lemma_translate_keeps_anchor, ShapeView};

verus! {

/// A shape off the grid may not be moved to, whatever it collides with, and
/// a shape that collides may not be moved to, wherever it lies.
pub proof fn lemma_could_move_veto(board: BoardView, shape: ShapeView)
    ensures
        board.out_of_bounds(shape) ==> !board.could_move(shape),
        board.colliding(shape) ==> !board.could_move(shape),
        board.could_move(shape) <==> !board.out_of_bounds(shape) && !board.colliding(shape),
{
}

/// A push or a turn that is not allowed changes nothing: the falling piece
/// has the same cells and the same anchor as before, and so has all else.
pub proof fn lemma_blocked_move_changes_nothing(board: BoardView, direction: Direction)
    ensures
        !board.could_move(board.pushed(direction)) ==> board.shift(direction) == board,
        !board.could_move(board.current.rotate()) ==> board.rotate() == board,
{
}

/// Once the game is over no operation changes anything, so the game stays
/// over.
pub proof fn lemma_over_is_final(board: BoardView, direction: Direction, next: Kind)
    requires
        board.failed,
    ensures
        board.tick(next) == board,
        board.shift(direction) == board,
        board.rotate() == board,
{
}

/// The line-clear pass touches the landed pieces only.
pub proof fn lemma_clear_keeps_frame(board: BoardView, y: int)
    ensures
        board.clear_rows_from(y).width == board.width,
        board.clear_rows_from(y).height == board.height,
        board.clear_rows_from(y).current == board.current,
        board.clear_rows_from(y).failed == board.failed,
        board.clear_rows_from(y).fixed.len() == board.fixed.len(),
    decreases board.height - y,
{
    if y < board.height {
        if board.row_full(y) {
            lemma_clear_keeps_frame(board.clear_row(y), y + 1);
        } else {
            lemma_clear_keeps_frame(board, y + 1);
        }
    }
}

/// A pass over rows none of which is full changes nothing.
pub proof fn lemma_clear_nothing_full(board: BoardView, y: int)
    requires
        forall|r: int| y <= r < board.height ==> !board.row_full(r),
    ensures
        board.clear_rows_from(y) == board,
    decreases board.height - y,
{
    if y < board.height {
        lemma_clear_nothing_full(board, y + 1);
    }
}

/// Taking row `y` out leaves the count of every row below it as it was.
pub proof fn lemma_count_below_cleared_row(fixed: Seq<ShapeView>, y: int, r: int)
    requires
        r > y,
    ensures
        cells_in_row(each_without_row(fixed, y), r) == cells_in_row(fixed, r),
    decreases fixed.len(),
{
    if fixed.len() > 0 {
        lemma_count_below_cleared_row(fixed.drop_last(), y, r);
        assert(each_without_row(fixed, y).drop_last() =~= each_without_row(fixed.drop_last(), y));
        let last = fixed.last();
        assert forall|c: Cell|
            in_row(last.remove_row(y).cells, r).contains(c) <==> in_row(last.cells, r).contains(
                c,
            ) by {
            lemma_without_row_contains(last.cells, y, c);
        }
        assert(in_row(last.remove_row(y).cells, r) =~= in_row(last.cells, r));
    }
}

/// Where row `y` is the one full row of the grid, the line-clear pass takes
/// exactly that row out of every landed piece: see
/// [`crate::tetris::laws::lemma_remove_row_compacts`] for what that does to
/// the cells of each.
pub proof fn lemma_clear_single_full_row(board: BoardView, y: int)
    requires
        0 <= y < board.height,
        board.row_full(y),
        forall|r: int| 0 <= r < board.height && r != y ==> !board.row_full(r),
    ensures
        board.clear_full_rows() == board.clear_row(y),
        board.clear_full_rows().fixed == each_without_row(board.fixed, y),
{
    lemma_clear_up_to_full_row(board, y, 0);
}

/// The step of [`lemma_clear_single_full_row`]: the pass from row `from`,
/// at or above the full row.
proof fn lemma_clear_up_to_full_row(board: BoardView, y: int, from: int)
    requires
        0 <= from <= y < board.height,
        board.row_full(y),
        forall|r: int| 0 <= r < board.height && r != y ==> !board.row_full(r),
    ensures
        board.clear_rows_from(from) == board.clear_row(y),
    decreases y - from,
{
    if from < y {
        lemma_clear_up_to_full_row(board, y, from + 1);
    } else {
        let cleared = board.clear_row(y);
        assert forall|r: int| y + 1 <= r < cleared.height implies !cleared.row_full(r) by {
            lemma_count_below_cleared_row(board.fixed, y, r);
            assert(!board.row_full(r));
        }
        lemma_clear_nothing_full(cleared, y + 1);
    }
}

/// A new piece occupies the cell at which its anchor is put.
pub proof fn lemma_spawned_holds_anchor(board: BoardView, kind: Kind)
    ensures
        board.spawned(kind).anchor == board.spawn_anchor(),
        board.spawned(kind).cells.contains(board.spawn_anchor()),
        board.spawned(kind).kind == kind,
{
    lemma_canonical_cells(kind);
    let piece = ShapeView::canonical(kind);
    let v = (board.spawn_anchor().0 - piece.anchor.0, board.spawn_anchor().1 - piece.anchor.1);
    lemma_translate_keeps_anchor(piece, v);
}

/// Where the falling piece lands and, once the full rows are cleared, a
/// landed piece occupies the cell at which the anchor of the new piece is
/// put, the game is over.
pub proof fn lemma_spawn_collision_ends_game(board: BoardView, next: Kind)
    requires
        !board.failed,
        !board.can_fall(),
        exists|i: int|
            0 <= i < board.settled(next).fixed.len() && #[trigger] board.settled(
                next,
            ).fixed[i].cells.contains(board.spawn_anchor()),
    ensures
        board.tick(next).failed,
{
    let settled = board.settled(next);
    let landed = BoardView {
        current: board.spawned(next),
        fixed: board.fixed.push(board.current),
        ..board
    };
    lemma_clear_keeps_frame(landed, 0);
    lemma_spawned_holds_anchor(board, next);
    let i = choose|i: int|
        0 <= i < settled.fixed.len() && #[trigger] settled.fixed[i].cells.contains(
            board.spawn_anchor(),
        );
    assert(settled.fixed[i].cells.contains(board.spawn_anchor()) && settled.current.cells.contains(
        board.spawn_anchor(),
    ));
}

/// Where the falling piece lands, no row is full once it has, and a landed
/// piece occupies the cell at which the anchor of the new piece is put, the
/// game is over.
pub proof fn lemma_spawn_on_occupied_cell_ends_game(board: BoardView, next: Kind)
    requires
        !board.failed,
        !board.can_fall(),
        exists|i: int|
            0 <= i < board.fixed.len() && #[trigger] board.fixed[i].cells.contains(
                board.spawn_anchor(),
            ),
        forall|r: int|
            0 <= r < board.height ==> cells_in_row(board.fixed.push(board.current), r)
                != board.width,
    ensures
        board.tick(next).failed,
        board.tick(next).fixed == board.fixed.push(board.current),
        board.tick(next).current == board.spawned(next),
{
    let landed = BoardView {
        current: board.spawned(next),
        fixed: board.fixed.push(board.current),
        ..board
    };
    lemma_clear_nothing_full(landed, 0);
    let i = choose|i: int|
        0 <= i < board.fixed.len() && #[trigger] board.fixed[i].cells.contains(
            board.spawn_anchor(),
        );
    assert(landed.fixed[i] == board.fixed[i]);
    assert(board.settled(next).fixed[i].cells.contains(board.spawn_anchor()));
    lemma_spawn_collision_ends_game(board, next);
}

/// A falling piece that lies on the grid still does after a push, a turn,
/// or a tick that moves it down.
pub proof fn lemma_moves_stay_on_grid(board: BoardView, direction: Direction, next: Kind)
    requires
        !board.out_of_bounds(board.current),
    ensures
        !board.shift(direction).out_of_bounds(board.shift(direction).current),
        !board.rotate().out_of_bounds(board.rotate().current),
        board.failed || board.can_fall() ==> !board.tick(next).out_of_bounds(
            board.tick(next).current,
        ),
{
}

/// A falling piece with a cell in the leftmost column cannot be pushed to
/// the left: the push changes nothing. So no push moves a piece that lies
/// on the grid to the left of column 0.
pub proof fn lemma_shift_left_stops_at_wall(board: BoardView)
    requires
        exists|c: Cell| #[trigger] board.current.cells.contains(c) && c.0 == 0,
    ensures
        board.shift(Direction::Left) == board,
{
    let c = choose|c: Cell| #[trigger] board.current.cells.contains(c) && c.0 == 0;
    let pushed = board.pushed(Direction::Left);
    lemma_shifted_contains(board.current.cells, (-1, 0), (c.0 - 1, c.1));
    assert(pushed.cells.contains((c.0 - 1, c.1)) && !board.on_grid((c.0 - 1, c.1)));
}

/// While the game goes on, the falling piece shares no cell with a landed
/// one; no operation breaks this.
pub proof fn lemma_no_overlap_is_kept(board: BoardView, direction: Direction, next: Kind)
    requires
        board.failed || !board.colliding(board.current),
    ensures
        board.shift(direction).failed || !board.shift(direction).colliding(
            board.shift(direction).current,
        ),
        board.rotate().failed || !board.rotate().colliding(board.rotate().current),
        board.tick(next).failed || !board.tick(next).colliding(board.tick(next).current),
{
}

} // verus!

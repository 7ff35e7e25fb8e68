//! What holds of the board model across calls: clearing, scoring, holding,
//! lookahead and rotation.

use vstd::prelude::*;

use crate::bag::valid_bag;
use crate::board::{
    after_hold, after_rotate, blocked, clear_award, clear_points, cleared_grid,
    covers, empty_row, first_kick, fits, full_count, full_row, kept_rows, lemma_after_lock_ok,
    lemma_cleared_ok, lemma_kept_rows, locked_grid, piece_wf, row_empty, scored, tick,
    upcoming, view_wf, BoardView, Cell, DifficultClear, TetrominoPositionError,
};
use crate::tetromino::{lemma_turn_four, piece_cells, rotated_view, PieceView, TetrominoShape};

verus! {

/// The full rows below row `y`.
pub open spec fn full_below(g: Seq<Seq<Cell>>, y: int) -> int {
    full_count(g.subrange(y + 1, g.len() as int))
}

/// The rows kept from two grids stacked are those kept from each, stacked.
proof fn lemma_kept_append(a: Seq<Seq<Cell>>, b: Seq<Seq<Cell>>)
    ensures
        kept_rows(a + b) == kept_rows(a) + kept_rows(b),
    decreases b.len(),
{
    if b.len() == 0 {
        assert(a + b =~= a);
        assert(kept_rows(a) + kept_rows(b) =~= kept_rows(a));
    } else {
        lemma_kept_append(a, b.drop_last());
        assert((a + b).drop_last() =~= a + b.drop_last());
        assert((a + b).last() == b.last());
        if !full_row(b.last()) {
            assert(kept_rows(a) + kept_rows(b.drop_last()).push(b.last()) =~= (kept_rows(a)
                + kept_rows(b.drop_last())).push(b.last()));
        }
    }
}

/// A clear leaves no full row: the full rows are gone, as many empty rows
/// stand on top, and every other row moves down by the number of full rows
/// below it, in order.
pub proof fn lemma_clear_shifts_rows(g: Seq<Seq<Cell>>, w: int)
    requires
        w >= 1,
        forall|y: int| 0 <= y < g.len() ==> (#[trigger] g[y]).len() == w,
    ensures
        cleared_grid(g, w).len() == g.len(),
        forall|y: int| 0 <= y < g.len() ==> !full_row(#[trigger] cleared_grid(g, w)[y]),
        forall|i: int| 0 <= i < full_count(g) ==> #[trigger] cleared_grid(g, w)[i] == empty_row(w),
        forall|y: int|
            0 <= y < g.len() && !full_row(g[y]) ==> y + full_below(g, y) < g.len() && #[trigger] cleared_grid(
                g,
                w,
            )[y + full_below(g, y)] == g[y],
{
    lemma_cleared_ok(g, w);
    let c = cleared_grid(g, w);
    assert forall|y: int| 0 <= y < g.len() && !full_row(g[y]) implies y + full_below(g, y) < g.len()
        && #[trigger] c[y + full_below(g, y)] == g[y] by {
        let head = g.take(y + 1);
        let rest = g.subrange(y + 1, g.len() as int);
        assert(g =~= head + rest);
        lemma_kept_append(head, rest);
        assert(head.drop_last() =~= g.take(y));
        assert(head.last() == g[y]);
        assert(forall|j: int| 0 <= j < rest.len() ==> rest[j] == g[y + 1 + j]);
        lemma_kept_rows(rest, w);
        let p = kept_rows(g.take(y)).len() as int;
        assert(kept_rows(g)[p] == g[y]);
        assert(c[full_count(g) + p] == kept_rows(g)[p]);
    }
}


/// A grid has no more full rows than a set holds, when every full row's
/// index is in it.
proof fn lemma_full_count_within(g: Seq<Seq<Cell>>, s: Set<int>)
    requires
        s.finite(),
        forall|y: int| 0 <= y < g.len() && full_row(#[trigger] g[y]) ==> s.contains(y),
    ensures
        full_count(g) <= s.len(),
    decreases g.len(),
{
    if g.len() > 0 {
        let d = g.drop_last();
        let last = (g.len() - 1) as int;
        assert(g.last() == g[last]);
        assert(forall|y: int| 0 <= y < d.len() ==> d[y] == g[y]);
        if full_row(g.last()) {
            lemma_full_count_within(d, s.remove(last));
        } else {
            lemma_full_count_within(d, s);
        }
    }
}

/// Locking a piece into a grid with no full row makes at most four rows
/// full: only the rows that the piece's cells lie on can become full.
pub proof fn lemma_lock_clears_at_most_four(v: BoardView)
    requires
        view_wf(v),
    ensures
        0 <= full_count(locked_grid(v)) <= 4,
{
    let c = piece_cells(v.piece, 0, 0);
    let g = locked_grid(v);
    let s = Set::<int>::empty().insert(c[0].1).insert(c[1].1).insert(c[2].1).insert(c[3].1);
    assert forall|y: int| 0 <= y < g.len() && full_row(#[trigger] g[y]) implies s.contains(y) by {
        if !s.contains(y) {
            assert(!full_row(v.grid[y]));
            let x = choose|x: int| 0 <= x < v.grid[y].len() && !(#[trigger] v.grid[y][x] is Occupied);
            assert(!covers(c, x, y));
            assert(!(g[y][x] is Occupied));
        }
    }
    lemma_full_count_within(g, s);
    assert forall|y: int| 0 <= y < g.len() implies (#[trigger] g[y]).len() == v.width by {
        assert(v.grid[y].len() == v.width);
    }
    lemma_kept_rows(g, v.width);
}


/// Whether every cell lies on the grid.
pub open spec fn on_grid(v: BoardView, cells: Seq<(int, int)>) -> bool {
    forall|i: int|
        0 <= i < cells.len() ==> 0 <= (#[trigger] cells[i]).0 < v.width && 0 <= cells[i].1
            < v.height
}

/// Whether no position of the grid is occupied.
pub open spec fn grid_empty(v: BoardView) -> bool {
    forall|y: int, x: int| 0 <= y < v.height && 0 <= x < v.width ==> #[trigger] v.grid[y][x] is Empty
}

/// On an empty grid, four rotation attempts in one sense bring a piece that
/// lies on the grid back to its cells and orientation, when each quarter turn
/// without a kick stays on the grid.
pub proof fn lemma_board_rotation_round_trip(v: BoardView, clockwise: bool)
    requires
        view_wf(v),
        grid_empty(v),
        on_grid(v, piece_cells(v.piece, 0, 0)),
        on_grid(v, piece_cells(rotated_view(v.piece, clockwise, 0), 0, 0)),
        on_grid(
            v,
            piece_cells(rotated_view(rotated_view(v.piece, clockwise, 0), clockwise, 0), 0, 0),
        ),
        on_grid(
            v,
            piece_cells(
                rotated_view(rotated_view(rotated_view(v.piece, clockwise, 0), clockwise, 0), clockwise, 0),
                0,
                0,
            ),
        ),
    ensures
        after_rotate(after_rotate(after_rotate(after_rotate(v, clockwise), clockwise), clockwise), clockwise).piece
            == v.piece,
{
    let v1 = after_rotate(v, clockwise);
    let v2 = after_rotate(v1, clockwise);
    let v3 = after_rotate(v2, clockwise);
    lemma_kick_zero_fits(v, clockwise);
    assert(v1.piece == rotated_view(v.piece, clockwise, 0));
    lemma_kick_zero_fits(v1, clockwise);
    assert(v2.piece == rotated_view(v1.piece, clockwise, 0));
    lemma_kick_zero_fits(v2, clockwise);
    assert(v3.piece == rotated_view(v2.piece, clockwise, 0));
    lemma_rotation_round_trip(v.piece, clockwise, 0);
    assert(rotated_view(v3.piece, clockwise, 0) == v.piece);
    lemma_kick_zero_fits(v3, clockwise);
}

/// On an empty grid, a quarter turn without a kick that stays on the grid is
/// the one taken.
proof fn lemma_kick_zero_fits(v: BoardView, clockwise: bool)
    requires
        grid_empty(v),
        on_grid(v, piece_cells(rotated_view(v.piece, clockwise, 0), 0, 0)),
    ensures
        first_kick(v, clockwise, 0) == Some(0int),
{
    let c = piece_cells(rotated_view(v.piece, clockwise, 0), 0, 0);
    assert forall|i: int| 0 <= i < c.len() implies !blocked(v, #[trigger] c[i]) by {
        assert(v.grid[c[i].1][c[i].0] is Empty);
    }
}

/// Four clears of a non-T piece score eight hundred per level and are
/// tagged as a Tetris, when no Tetris came before, no combo runs and the
/// board does not end up empty.
pub proof fn lemma_tetris_award(v: BoardView)
    requires
        v.piece.shape != TetrominoShape::T,
        v.last_difficult_clear != Some(DifficultClear::Tetris),
        v.combo_count == 0,
        v.level >= 1,
        v.height >= 1,
        !row_empty(v.grid[v.height - 1]),
        v.score + 800 * v.level <= u128::MAX,
    ensures
        clear_points(4, v.piece.shape, v.last_rotation_check is Some) == (
            800int,
            Some(DifficultClear::Tetris),
        ),
        clear_award(v, 4) == 800 * v.level,
        scored(v, 4).score == v.score + 800 * v.level,
        scored(v, 4).last_difficult_clear == Some(DifficultClear::Tetris),
{
}

/// A second hold before the next lock changes nothing, and the held kind
/// stays what the first hold put there.
pub proof fn lemma_hold_twice(v: BoardView, first: Seq<TetrominoShape>, second: Seq<TetrominoShape>)
    ensures
        after_hold(after_hold(v, first).0, second) == (after_hold(v, first).0, Ok::<
            (),
            TetrominoPositionError,
        >(())),
        after_hold(after_hold(v, first).0, second).0.held == after_hold(v, first).0.held,
{
}

/// A tick that spawns the next piece moves the lookahead by one: the kind
/// `n` pieces ahead before it is `n - 1` pieces ahead after it; a tick that
/// spawns nothing leaves the bags as they were.
pub proof fn lemma_lookahead_stable(v: BoardView, fresh: Seq<TetrominoShape>, n: int)
    requires
        view_wf(v),
        valid_bag(v.bag_type, fresh),
        1 <= n <= v.bag.len(),
    ensures
        ({
            let w = tick(v, fresh).0;
            (w.bag == v.bag && w.next_bag == v.next_bag && w.bag_index == v.bag_index) || upcoming(
                w,
                n - 1,
            ) == upcoming(v, n)
        }),
{
    if !fits(v, piece_cells(v.piece, 0, 1)) {
        let p = PieceView { lock_delay: v.piece.lock_delay - 1, ..v.piece };
        let w = BoardView { piece: p, ..v };
        if p.lock_delay == 0 {
            assert(piece_cells(p, 0, 0) == piece_cells(v.piece, 0, 0));
            lemma_after_lock_ok(w);
        }
    }
}

/// A piece turned four times in one sense with one kick column is back
/// where it started: same anchor, orientation index and offsets.
pub proof fn lemma_rotation_round_trip(p: PieceView, clockwise: bool, k: int)
    requires
        piece_wf(p),
    ensures
        rotated_view(
            rotated_view(rotated_view(rotated_view(p, clockwise, k), clockwise, k), clockwise, k),
            clockwise,
            k,
        ) == p,
{
    lemma_turn_four(p.offsets, clockwise);
}

} // verus!

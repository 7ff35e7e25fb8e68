use vstd::prelude::*;

use crate::bag::{new_bag, valid_bag};
use crate::config::{default_tick_table, delay_for, tick_delay_for, BagType, Config};
use crate::tetromino::{
    lemma_oriented_compact, lemma_turn_oriented, oriented, piece_cells, placement, rotated_view,
    spawned_view, Direction, PieceView, Tetromino, TetrominoShape,
};
use crate::theorems::lemma_lock_clears_at_most_four;

verus! {

/// Why a piece cannot stand where it was asked to.
#[derive(Debug, Clone, Copy, PartialEq, Eq, Structural)]
pub enum TetrominoPositionError {
    /// A computed cell coordinate went below zero.
    NegativePosition,
    /// A cell is occupied, outside the board, or beyond any board coordinate.
    Collision,
}

/// One position of the grid.
#[derive(Debug, Clone, Copy, PartialEq, Eq, Structural)]
pub enum Cell {
    Empty,
    Occupied(TetrominoShape),
}

/// A clear that earns the back-to-back bonus when the next scoring clear is of
/// the same kind.
#[derive(Debug, Clone, Copy, PartialEq, Eq, Structural)]
pub enum DifficultClear {
    Tetris,
    TSpinDouble,
    TSpinTriple,
}

/// The playfield as plain values.
pub struct BoardView {
    pub width: int,
    pub height: int,
    pub number_of_previews: usize,
    pub lock_delay: u8,
    pub tick_table: Seq<(u8, u64)>,
    pub bag_type: BagType,
    pub grid: Seq<Seq<Cell>>,
    pub bag: Seq<TetrominoShape>,
    pub bag_index: int,
    pub next_bag: Seq<TetrominoShape>,
    pub piece: PieceView,
    pub held: Option<TetrominoShape>,
    pub already_held: bool,
    pub last_rotation_check: Option<usize>,
    pub last_difficult_clear: Option<DifficultClear>,
    pub combo_count: u8,
    pub score: u128,
    pub lines_cleared: u128,
    pub level: u8,
    pub tick_delay: u64,
}

/// The rows of a grid as plain values.
pub open spec fn rows_of(g: Seq<Vec<Cell>>) -> Seq<Seq<Cell>> {
    Seq::new(g.len(), |i: int| g[i]@)
}

/// The cells of a coordinate array.
pub open spec fn array_cells(a: [(usize, usize); 4]) -> Seq<(int, int)> {
    Seq::new(4, |i: int| (a@[i].0 as int, a@[i].1 as int))
}

/// Whether a cell lies off the grid or on an occupied position.
pub open spec fn blocked(v: BoardView, c: (int, int)) -> bool {
    c.0 < 0 || c.1 < 0 || c.0 >= v.width || c.1 >= v.height || v.grid[c.1][c.0] is Occupied
}

/// Whether every one of `cells` lies on an empty position of the grid.
pub open spec fn fits(v: BoardView, cells: Seq<(int, int)>) -> bool {
    forall|i: int| 0 <= i < cells.len() ==> !blocked(v, #[trigger] cells[i])
}

/// Whether a row is occupied in every column.
pub open spec fn full_row(r: Seq<Cell>) -> bool {
    forall|x: int| 0 <= x < r.len() ==> #[trigger] r[x] is Occupied
}

/// Whether a piece has its offsets turned to its orientation index.
pub open spec fn piece_wf(p: PieceView) -> bool {
    &&& 0 <= p.rotation_index < 4
    &&& p.offsets == oriented(p.shape, p.rotation_index as nat)
}

/// The board's invariant: grid dimensions, no full row, two valid bags with
/// the cursor inside the first, a well-formed piece with lock delay left,
/// inside the columns and below the top.
pub open spec fn view_wf(v: BoardView) -> bool {
    &&& view_base(v)
    &&& forall|y: int| 0 <= y < v.height ==> !full_row(#[trigger] v.grid[y])
    &&& v.piece.lock_delay >= 1
    &&& v.level >= 1
}

/// The piece moved by `(dx, dy)`.
pub open spec fn shifted_view(p: PieceView, dx: int, dy: int) -> PieceView {
    PieceView { x: p.x + dx, y: p.y + dy, ..p }
}

/// The board after a horizontal move: the piece shifts one column when every
/// shifted cell is free, and nothing changes otherwise.
pub open spec fn after_move(v: BoardView, direction: Direction) -> BoardView {
    if fits(v, piece_cells(v.piece, direction.delta(), 0)) {
        BoardView { piece: shifted_view(v.piece, direction.delta(), 0), ..v }
    } else {
        v
    }
}

/// Whether the rotation with kick column `k` leaves every cell free.
pub open spec fn rotation_fits(v: BoardView, clockwise: bool, k: int) -> bool {
    fits(v, piece_cells(rotated_view(v.piece, clockwise, k), 0, 0))
}

/// The first kick column from `k` on whose rotation fits.
pub open spec fn first_kick(v: BoardView, clockwise: bool, k: int) -> Option<int>
    decreases 5 - k,
{
    if k >= 5 {
        None
    } else if rotation_fits(v, clockwise, k) {
        Some(k)
    } else {
        first_kick(v, clockwise, k + 1)
    }
}

/// The board after a rotation attempt: the first fitting kick column is taken,
/// and the attempt is recorded either way.
pub open spec fn after_rotate(v: BoardView, clockwise: bool) -> BoardView {
    match first_kick(v, clockwise, 0) {
        Some(k) => BoardView {
            piece: rotated_view(v.piece, clockwise, k),
            last_rotation_check: Some(k as usize),
            ..v
        },
        None => BoardView { last_rotation_check: Some(4usize), ..v },
    }
}

/// The kind that spawns `n` pieces after the current one.
pub open spec fn upcoming(v: BoardView, n: int) -> TetrominoShape {
    if v.bag_index + n >= v.bag.len() {
        v.next_bag[v.bag_index + n - v.bag.len()]
    } else {
        v.bag[v.bag_index + n]
    }
}


/// A row of `w` empty positions.
pub open spec fn empty_row(w: int) -> Seq<Cell> {
    Seq::new(w as nat, |x: int| Cell::Empty)
}

/// Whether a row has no occupied position.
pub open spec fn row_empty(r: Seq<Cell>) -> bool {
    forall|x: int| 0 <= x < r.len() ==> #[trigger] r[x] is Empty
}

/// Whether one of the four cells is `(x, y)`.
pub open spec fn covers(cells: Seq<(int, int)>, x: int, y: int) -> bool {
    cells[0] == (x, y) || cells[1] == (x, y) || cells[2] == (x, y) || cells[3] == (x, y)
}

/// The grid with the piece's cells written into it as occupied by its kind.
pub open spec fn locked_grid(v: BoardView) -> Seq<Seq<Cell>> {
    let cells = piece_cells(v.piece, 0, 0);
    Seq::new(
        v.grid.len(),
        |y: int|
            Seq::new(
                v.grid[y].len(),
                |x: int|
                    if covers(cells, x, y) {
                        Cell::Occupied(v.piece.shape)
                    } else {
                        v.grid[y][x]
                    },
            ),
    )
}

/// The rows that are not full, in order.
pub open spec fn kept_rows(g: Seq<Seq<Cell>>) -> Seq<Seq<Cell>>
    decreases g.len(),
{
    if g.len() == 0 {
        g
    } else if full_row(g.last()) {
        kept_rows(g.drop_last())
    } else {
        kept_rows(g.drop_last()).push(g.last())
    }
}

/// The number of full rows.
pub open spec fn full_count(g: Seq<Seq<Cell>>) -> int {
    g.len() - kept_rows(g).len()
}

/// The grid with its full rows removed and as many empty rows of width `w`
/// put on top.
pub open spec fn cleared_grid(g: Seq<Seq<Cell>>, w: int) -> Seq<Seq<Cell>> {
    Seq::new(full_count(g) as nat, |i: int| empty_row(w)) + kept_rows(g)
}

/// Points per level for clearing `k` rows, and the difficult-clear tag: a T
/// piece whose rotation was attempted scores two or three rows as a T-spin.
/// More than four rows never clear at once (`lemma_lock_clears_at_most_four`).
pub open spec fn clear_points(k: int, shape: TetrominoShape, rotated: bool) -> (int, Option<DifficultClear>) {
    if k == 2 && shape == TetrominoShape::T && rotated {
        (1200, Some(DifficultClear::TSpinDouble))
    } else if k == 3 && shape == TetrominoShape::T && rotated {
        (1600, Some(DifficultClear::TSpinTriple))
    } else if k == 1 {
        (100, None)
    } else if k == 2 {
        (300, None)
    } else if k == 3 {
        (500, None)
    } else if k == 4 {
        (800, Some(DifficultClear::Tetris))
    } else {
        (0, None)
    }
}

/// `x`, or the greatest `u128` where it is larger.
pub open spec fn sat_u128(x: int) -> u128 {
    if x > u128::MAX {
        u128::MAX
    } else {
        x as u128
    }
}

/// The points a clear of `k` rows earns before combo and perfect-clear
/// bonuses: its base points times the level, times one and a half (rounded
/// down) when its tag repeats the previous difficult clear's.
pub open spec fn clear_award(v: BoardView, k: int) -> int {
    let (points, tag) = clear_points(k, v.piece.shape, v.last_rotation_check is Some);
    let base = v.level * points;
    if tag is Some && tag == v.last_difficult_clear {
        base * 3 / 2
    } else {
        base
    }
}

/// The score state after a lock that cleared `k` rows, the grid `v.grid`
/// being already cleared: award, combo, perfect clear, lines and level.
///
/// A scoring clear adds fifty points per level for each scoring clear before
/// it in the chain, then extends the chain. A lock that scores nothing leaves
/// the chain as it is: the combo count is never reset. The perfect-clear
/// bonus is given whenever the bottom row is empty after the clear. Score,
/// lines and combo stop at their type's maximum, and the level at 255.
pub open spec fn scored(v: BoardView, k: int) -> BoardView {
    let tag = clear_points(k, v.piece.shape, v.last_rotation_check is Some).1;
    let award = clear_award(v, k);
    let scoring = award > 0;
    let with_combo = if scoring {
        award + v.combo_count * 50 * v.level
    } else {
        award
    };
    let perfect = if row_empty(v.grid[v.height - 1]) {
        5000int
    } else {
        0int
    };
    let lines = sat_u128(v.lines_cleared + k);
    let level_up = lines >= v.level * 10 + 10 && v.level < 255;
    let level = if level_up {
        (v.level + 1) as u8
    } else {
        v.level
    };
    BoardView {
        score: sat_u128(v.score + with_combo + perfect),
        combo_count: if scoring && v.combo_count < 255 {
            (v.combo_count + 1) as u8
        } else {
            v.combo_count
        },
        last_difficult_clear: if scoring {
            tag
        } else {
            v.last_difficult_clear
        },
        lines_cleared: lines,
        level,
        tick_delay: if level_up {
            delay_for(v.tick_table, level)
        } else {
            v.tick_delay
        },
        ..v
    }
}

/// The board after the piece locks: its cells are written, full rows
/// cleared, and the clear scored.
pub open spec fn after_lock(v: BoardView) -> BoardView {
    let g = locked_grid(v);
    scored(BoardView { grid: cleared_grid(g, v.width), ..v }, full_count(g))
}

/// The board with a fresh piece of `shape`, and whether its cells are free.
pub open spec fn spawn_result(v: BoardView, shape: TetrominoShape) -> (BoardView, Result<(), TetrominoPositionError>) {
    let p = spawned_view(shape, v.width as usize, v.lock_delay);
    (
        BoardView { piece: p, ..v },
        if fits(v, piece_cells(p, 0, 0)) {
            Ok(())
        } else {
            Err(TetrominoPositionError::Collision)
        },
    )
}

/// The bags after the cursor moves on: at the end of the bag the next one
/// takes its place and `fresh` becomes the next.
pub open spec fn advance_bag(v: BoardView, fresh: Seq<TetrominoShape>) -> BoardView {
    if v.bag_index + 1 >= v.bag.len() {
        BoardView { bag: v.next_bag, next_bag: fresh, bag_index: 0, ..v }
    } else {
        BoardView { bag_index: v.bag_index + 1, ..v }
    }
}

/// The board with the next piece of the bags spawned.
pub open spec fn spawn_next(v: BoardView, fresh: Seq<TetrominoShape>) -> (BoardView, Result<(), TetrominoPositionError>) {
    let a = advance_bag(v, fresh);
    spawn_result(a, a.bag[a.bag_index])
}

/// The grid has the board's dimensions.
pub open spec fn grid_ok(v: BoardView) -> bool {
    &&& 4 <= v.width <= usize::MAX
    &&& 1 <= v.height <= usize::MAX
    &&& v.grid.len() == v.height
    &&& forall|y: int| 0 <= y < v.height ==> (#[trigger] v.grid[y]).len() == v.width
}

/// Everything of the invariant but the grid's lack of full rows and the
/// piece's remaining lock delay.
pub open spec fn view_base(v: BoardView) -> bool {
    &&& grid_ok(v)
    &&& v.lock_delay >= 1
    &&& valid_bag(v.bag_type, v.bag)
    &&& valid_bag(v.bag_type, v.next_bag)
    &&& 0 <= v.bag_index < v.bag.len()
    &&& piece_wf(v.piece)
    &&& forall|i: int|
        0 <= i < 4 ==> 0 <= (#[trigger] piece_cells(v.piece, 0, 0)[i]).0 < v.width && 0
            <= piece_cells(v.piece, 0, 0)[i].1 <= usize::MAX
}


/// The board after a tick on which the piece cannot move down: one tick of
/// lock delay is spent, and when none is left the piece locks, rows clear,
/// the next piece spawns, and holding is allowed again unless the spawn failed.
/// The lock delay belongs to the piece: moving or turning it does not reset it.
pub open spec fn on_ground(v: BoardView, fresh: Seq<TetrominoShape>) -> (BoardView, Result<(), TetrominoPositionError>) {
    let p = PieceView { lock_delay: v.piece.lock_delay - 1, ..v.piece };
    let w = BoardView { piece: p, ..v };
    if p.lock_delay != 0 {
        (w, Ok(()))
    } else {
        let (n, r) = spawn_next(after_lock(w), fresh);
        if r is Err {
            (n, r)
        } else {
            (BoardView { already_held: false, ..n }, Ok(()))
        }
    }
}

/// The board after one tick: the piece moves down a row when it can, with a
/// point while soft dropping and the rotation record cleared; otherwise it
/// rests on the ground.
pub open spec fn tick(v: BoardView, fresh: Seq<TetrominoShape>) -> (BoardView, Result<(), TetrominoPositionError>) {
    if fits(v, piece_cells(v.piece, 0, 1)) {
        (
            BoardView {
                piece: shifted_view(v.piece, 0, 1),
                score: if v.tick_delay != delay_for(v.tick_table, v.level) {
                    sat_u128(v.score + 1)
                } else {
                    v.score
                },
                last_rotation_check: None,
                ..v
            },
            Ok(()),
        )
    } else {
        on_ground(v, fresh)
    }
}

/// Whether each board of `run` is the tick of the one before, each tick
/// drawing the bag that it needs.
pub open spec fn tick_run(run: Seq<BoardView>) -> bool {
    forall|i: int|
        0 <= i < run.len() - 1 ==> #[trigger] tick(run[i], run[i + 1].next_bag).0 == run[i + 1]
}

/// Whether every tick of `run` before step `k` reported success.
pub open spec fn ticks_ok(run: Seq<BoardView>, k: int) -> bool {
    forall|i: int| 0 <= i < k ==> (#[trigger] tick(run[i], run[i + 1].next_bag)).1 is Ok
}

/// Whether ticks lead from `a` to `b` as a hard drop runs them, with result
/// `r`: `n` ticks that all succeed and `r` is `Ok`, or fewer, the last of
/// them the first to fail, with its error as `r`.
pub open spec fn drop_ticks(a: BoardView, b: BoardView, n: nat, r: Result<(), TetrominoPositionError>) -> bool {
    exists|run: Seq<BoardView>|
        #![trigger tick_run(run)]
        {
            &&& 1 <= run.len() <= n + 1
            &&& run[0] == a
            &&& run.last() == b
            &&& tick_run(run)
            &&& match r {
                Ok(_) => run.len() == n + 1 && ticks_ok(run, n as int),
                Err(e) => run.len() >= 2 && ticks_ok(run, run.len() - 2) && tick(
                    run[run.len() - 2],
                    b.next_bag,
                ).1 == Err::<(), TetrominoPositionError>(e),
            }
        }
}

/// The board after a hold: nothing when the piece was already held;
/// otherwise the piece's kind goes to the hold slot and the held kind, or the
/// next piece of the bags when none was held, spawns.
pub open spec fn after_hold(v: BoardView, fresh: Seq<TetrominoShape>) -> (BoardView, Result<(), TetrominoPositionError>) {
    if v.already_held {
        (v, Ok(()))
    } else {
        let h = BoardView { already_held: true, held: Some(v.piece.shape), ..v };
        match v.held {
            Some(shape) => spawn_result(h, shape),
            None => spawn_next(h, fresh),
        }
    }
}

/// The empty rows directly below `(x, y)` in its column.
pub open spec fn clearance(v: BoardView, x: int, y: int) -> int
    decreases v.height - y,
{
    if y + 1 >= v.height || y + 1 < 0 {
        0
    } else if v.grid[y + 1][x] is Occupied {
        0
    } else {
        1 + clearance(v, x, y + 1)
    }
}

/// The smaller of two integers.
pub open spec fn min_int(a: int, b: int) -> int {
    if a <= b {
        a
    } else {
        b
    }
}

/// How many rows the piece can fall: the least clearance below its cells.
pub open spec fn relative_height(v: BoardView) -> int {
    let c = piece_cells(v.piece, 0, 0);
    min_int(
        min_int(clearance(v, c[0].0, c[0].1), clearance(v, c[1].0, c[1].1)),
        min_int(clearance(v, c[2].0, c[2].1), clearance(v, c[3].0, c[3].1)),
    )
}

/// The board with `2 * h` points added for a hard drop of `h` rows.
pub open spec fn dropped(v: BoardView, h: int) -> BoardView {
    BoardView { score: sat_u128(v.score + 2 * h), ..v }
}


/// A fresh board: an empty grid, the cursor at the start of `bag`, its
/// first kind spawned, nothing held, no score, level one.
pub open spec fn initial(v: BoardView, bag: Seq<TetrominoShape>, next_bag: Seq<TetrominoShape>) -> BoardView {
    BoardView {
        width: v.width,
        height: v.height,
        number_of_previews: v.number_of_previews,
        lock_delay: v.lock_delay,
        tick_table: v.tick_table,
        bag_type: v.bag_type,
        grid: Seq::new(v.height as nat, |y: int| empty_row(v.width)),
        bag,
        bag_index: 0,
        next_bag,
        piece: spawned_view(bag[0], v.width as usize, v.lock_delay),
        held: None,
        already_held: false,
        last_rotation_check: None,
        last_difficult_clear: None,
        combo_count: 0,
        score: 0,
        lines_cleared: 0,
        level: 1,
        tick_delay: delay_for(v.tick_table, 1),
    }
}

/// Whether the view carries the settings of `config`.
pub open spec fn has_config(v: BoardView, config: Config) -> bool {
    &&& v.width == config.board_size.0
    &&& v.height == config.board_size.1
    &&& v.number_of_previews == config.number_of_previews
    &&& v.lock_delay == config.lock_delay
    &&& v.tick_table == config.tick_delay@
    &&& v.bag_type == config.bag_type
}


/// The playfield: grid, bags, falling piece, hold slot and score state.
#[derive(Debug)]
pub struct Board {
    config: Config,
    grid: Vec<Vec<Cell>>,
    bag: Vec<TetrominoShape>,
    bag_index: usize,
    next_bag: Vec<TetrominoShape>,
    current_tetromino: Tetromino,
    held_tetromino: Option<TetrominoShape>,
    already_held: bool,
    last_rotation_check: Option<usize>,
    last_difficult_clear: Option<DifficultClear>,
    combo_count: u8,
    score: u128,
    lines_cleared: u128,
    level: u8,
    pub tick_delay: u64,
}

impl View for Board {
    type V = BoardView;

    closed spec fn view(&self) -> BoardView {
        BoardView {
            width: self.config.board_size.0 as int,
            height: self.config.board_size.1 as int,
            number_of_previews: self.config.number_of_previews,
            lock_delay: self.config.lock_delay,
            tick_table: self.config.tick_delay@,
            bag_type: self.config.bag_type,
            grid: rows_of(self.grid@),
            bag: self.bag@,
            bag_index: self.bag_index as int,
            next_bag: self.next_bag@,
            piece: self.current_tetromino@,
            held: self.held_tetromino,
            already_held: self.already_held,
            last_rotation_check: self.last_rotation_check,
            last_difficult_clear: self.last_difficult_clear,
            combo_count: self.combo_count,
            score: self.score,
            lines_cleared: self.lines_cleared,
            level: self.level,
            tick_delay: self.tick_delay,
        }
    }
}


/// Whether every position of the row is occupied.
fn row_full(r: &Vec<Cell>) -> (b: bool)
    ensures
        b == full_row(r@),
{
    let mut x: usize = 0;
    while x < r.len()
        invariant
            x <= r@.len(),
            forall|j: int| 0 <= j < x ==> #[trigger] r@[j] is Occupied,
        decreases r@.len() - x,
    {
        if matches!(r[x], Cell::Empty) {
            return false;
        }
        x = x + 1;
    }
    true
}

/// Whether no position of the row is occupied.
fn row_is_empty(r: &Vec<Cell>) -> (b: bool)
    ensures
        b == row_empty(r@),
{
    let mut x: usize = 0;
    while x < r.len()
        invariant
            x <= r@.len(),
            forall|j: int| 0 <= j < x ==> #[trigger] r@[j] is Empty,
        decreases r@.len() - x,
    {
        if matches!(r[x], Cell::Occupied(_)) {
            return false;
        }
        x = x + 1;
    }
    true
}

/// A copy of the row.
fn copy_row(r: &Vec<Cell>) -> (c: Vec<Cell>)
    ensures
        c@ == r@,
{
    let mut c: Vec<Cell> = Vec::new();
    let mut x: usize = 0;
    while x < r.len()
        invariant
            x <= r@.len(),
            c@ == r@.take(x as int),
        decreases r@.len() - x,
    {
        c.push(r[x]);
        x = x + 1;
        assert(c@ =~= r@.take(x as int));
    }
    assert(r@.take(x as int) =~= r@);
    c
}

/// A row of `w` empty positions.
fn new_empty_row(w: usize) -> (c: Vec<Cell>)
    ensures
        c@ == empty_row(w as int),
{
    let mut c: Vec<Cell> = Vec::new();
    let mut x: usize = 0;
    while x < w
        invariant
            x <= w,
            c@ == empty_row(x as int),
        decreases w - x,
    {
        c.push(Cell::Empty);
        x = x + 1;
        assert(c@ =~= empty_row(x as int));
    }
    c
}

/// The rows kept by a clear are none of them full, of the grid's width, and
/// no more than the grid's.
pub(crate) proof fn lemma_kept_rows(g: Seq<Seq<Cell>>, w: int)
    requires
        forall|y: int| 0 <= y < g.len() ==> (#[trigger] g[y]).len() == w,
    ensures
        kept_rows(g).len() <= g.len(),
        forall|i: int|
            0 <= i < kept_rows(g).len() ==> (#[trigger] kept_rows(g)[i]).len() == w && !full_row(
                kept_rows(g)[i],
            ),
    decreases g.len(),
{
    if g.len() > 0 {
        let d = g.drop_last();
        assert(forall|y: int| 0 <= y < d.len() ==> d[y] == g[y]);
        lemma_kept_rows(d, w);
        assert(g.last() == g[g.len() - 1]);
    }
}

/// The rows of a joined grid are the joined rows.
proof fn lemma_rows_of_add(a: Seq<Vec<Cell>>, b: Seq<Vec<Cell>>)
    ensures
        rows_of(a + b) == rows_of(a) + rows_of(b),
{
    assert(rows_of(a + b) =~= rows_of(a) + rows_of(b));
}

/// Whether one of the first `n` cells is `(x, y)`.
pub open spec fn covers_upto(cells: Seq<(int, int)>, n: int, x: int, y: int) -> bool {
    exists|j: int| 0 <= j < n && #[trigger] cells[j] == (x, y)
}

/// The grid with the first `n` of the piece's cells written into it.
pub open spec fn locked_upto(v: BoardView, n: int) -> Seq<Seq<Cell>> {
    let cells = piece_cells(v.piece, 0, 0);
    Seq::new(
        v.grid.len(),
        |y: int|
            Seq::new(
                v.grid[y].len(),
                |x: int|
                    if covers_upto(cells, n, x, y) {
                        Cell::Occupied(v.piece.shape)
                    } else {
                        v.grid[y][x]
                    },
            ),
    )
}


/// The clearance below a cell is less than the board's height.
proof fn lemma_clearance_bound(v: BoardView, x: int, y: int)
    requires
        v.height >= 1,
        y >= 0,
    ensures
        0 <= clearance(v, x, y) < v.height - y || clearance(v, x, y) == 0,
    decreases v.height - y,
{
    if y + 1 < v.height && !(v.grid[y + 1][x] is Occupied) {
        lemma_clearance_bound(v, x, y + 1);
    }
}

/// A cleared grid keeps the dimensions and has no full row.
pub(crate) proof fn lemma_cleared_ok(g: Seq<Seq<Cell>>, w: int)
    requires
        w >= 1,
        forall|y: int| 0 <= y < g.len() ==> (#[trigger] g[y]).len() == w,
    ensures
        cleared_grid(g, w).len() == g.len(),
        forall|y: int|
            0 <= y < g.len() ==> (#[trigger] cleared_grid(g, w)[y]).len() == w && !full_row(
                cleared_grid(g, w)[y],
            ),
{
    lemma_kept_rows(g, w);
    let c = cleared_grid(g, w);
    let k = full_count(g);
    assert forall|y: int| 0 <= y < g.len() implies (#[trigger] c[y]).len() == w && !full_row(c[y]) by {
        if y < k {
            assert(c[y] == empty_row(w));
            assert(c[y][0] is Empty);
        } else {
            assert(c[y] == kept_rows(g)[y - k]);
        }
    }
}

/// Locking keeps the grid's dimensions, and the clear that follows leaves no
/// full row.
pub(crate) proof fn lemma_after_lock_ok(w: BoardView)
    requires
        view_base(w),
    ensures
        view_base(after_lock(w)),
        forall|y: int| 0 <= y < w.height ==> !full_row(#[trigger] after_lock(w).grid[y]),
        after_lock(w).piece == w.piece,
        after_lock(w).bag == w.bag,
        after_lock(w).next_bag == w.next_bag,
        after_lock(w).bag_index == w.bag_index,
{
    let g = locked_grid(w);
    assert forall|y: int| 0 <= y < g.len() implies (#[trigger] g[y]).len() == w.width by {
        assert(w.grid[y].len() == w.width);
    }
    lemma_cleared_ok(g, w.width);
}

/// A spawned piece is well-formed, inside the columns and below the top.
proof fn lemma_spawn_ok(v: BoardView, shape: TetrominoShape)
    requires
        grid_ok(v),
        v.lock_delay >= 1,
    ensures
        piece_wf(spawn_result(v, shape).0.piece),
        spawn_result(v, shape).0.piece.lock_delay >= 1,
        forall|i: int|
            0 <= i < 4 ==> 0 <= (#[trigger] piece_cells(spawn_result(v, shape).0.piece, 0, 0)[i]).0
                < v.width && 0 <= piece_cells(spawn_result(v, shape).0.piece, 0, 0)[i].1
                <= usize::MAX,
{
    let p = spawn_result(v, shape).0.piece;
    assert(oriented(shape, 0) == crate::tetromino::base_offsets(shape));
    let c = piece_cells(p, 0, 0);
    assert forall|i: int| 0 <= i < 4 implies 0 <= (#[trigger] c[i]).0 < v.width && 0 <= c[i].1
        <= usize::MAX by {
        assert(c[i] == (p.x + p.offsets[i].0, p.y + p.offsets[i].1));
    }
}

/// A piece whose offsets contain the anchor has a negative cell when its anchor
/// is negative, and its anchor among its cells.
proof fn lemma_anchor_cell(p: PieceView)
    requires
        piece_wf(p),
    ensures
        exists|i: int| 0 <= i < 4 && #[trigger] piece_cells(p, 0, 0)[i] == (p.x, p.y),
{
    lemma_oriented_compact(p.shape, p.rotation_index as nat);
    let i = choose|i: int| 0 <= i < 4 && #[trigger] p.offsets[i] == (0int, 0int);
    assert(piece_cells(p, 0, 0)[i] == (p.x, p.y));
}

/// A rotated well-formed piece is well-formed.
proof fn lemma_rotated_wf(p: PieceView, clockwise: bool, k: int)
    requires
        piece_wf(p),
    ensures
        piece_wf(rotated_view(p, clockwise, k)),
{
    lemma_turn_oriented(p.shape, p.rotation_index as nat, clockwise);
}

/// When no column before `k` fits, the search from the start is the search from `k`.
proof fn lemma_first_kick_skip(v: BoardView, clockwise: bool, k: int)
    requires
        0 <= k <= 5,
        forall|j: int| 0 <= j < k ==> !rotation_fits(v, clockwise, j),
    ensures
        first_kick(v, clockwise, 0) == first_kick(v, clockwise, k),
    decreases k,
{
    if k > 0 {
        lemma_first_kick_skip(v, clockwise, k - 1);
    }
}

/// The column that the search finds fits.
proof fn lemma_first_kick_fits(v: BoardView, clockwise: bool, k: int)
    requires
        first_kick(v, clockwise, k) is Some,
    ensures
        rotation_fits(v, clockwise, first_kick(v, clockwise, k)->0),
        k <= first_kick(v, clockwise, k)->0 < 5,
    decreases 5 - k,
{
    if k < 5 && !rotation_fits(v, clockwise, k) {
        lemma_first_kick_fits(v, clockwise, k + 1);
    }
}

impl Board {
    /// The board's invariant.
    pub closed spec fn wf(&self) -> bool {
        &&& view_wf(self@)
        &&& self.current_tetromino.wf()
    }

    /// The board's invariant, stated over its view.
    pub proof fn lemma_wf_view(&self)
        requires
            self.wf(),
        ensures
            view_wf(self@),
    {
    }

    /// Whether any of the cells is off the grid or occupied.
    fn check_collision(&self, new_full_position: [(usize, usize); 4]) -> (r: bool)
        requires
            grid_ok(self@),
        ensures
            r == !fits(self@, array_cells(new_full_position)),
    {
        let w = self.config.board_size.0;
        let h = self.config.board_size.1;
        let mut i: usize = 0;
        while i < 4
            invariant
                grid_ok(self@),
                w == self@.width,
                h == self@.height,
                0 <= i <= 4,
                forall|j: int| 0 <= j < i ==> !blocked(self@, #[trigger] array_cells(new_full_position)[j]),
            decreases 4 - i,
        {
            let (x, y) = new_full_position[i];
            assert(array_cells(new_full_position)[i as int] == (x as int, y as int));
            if x >= w || y >= h {
                return true;
            }
            assert(self@.grid[y as int] == self.grid@[y as int]@);
            if matches!(self.grid[y][x], Cell::Occupied(_)) {
                return true;
            }
            i = i + 1;
        }
        false
    }

    /// Moves the piece one column when every cell it would take is free;
    /// otherwise nothing changes.
    pub fn move_current_piece(&mut self, direction: Direction)
        requires
            old(self).wf(),
        ensures
            final(self).wf(),
            final(self)@ == after_move(old(self)@, direction),
            final(self)@.piece.y == old(self)@.piece.y,
            forall|i: int|
                0 <= i < 4 ==> 0 <= (#[trigger] piece_cells(final(self)@.piece, 0, 0)[i]).0
                    < final(self)@.width,
    {
        let ghost v = self@;
        match self.current_tetromino.calc_horizontal_move((direction.offset(), 0)) {
            Ok(full_position) => {
                assert(array_cells(full_position) =~= piece_cells(v.piece, direction.delta(), 0));
                if !self.check_collision(full_position) {
                    proof {
                        lemma_anchor_cell(v.piece);
                        let i = choose|i: int| 0 <= i < 4 && #[trigger] piece_cells(v.piece, 0, 0)[i] == (v.piece.x, v.piece.y);
                        assert(piece_cells(v.piece, direction.delta(), 0)[i] == (v.piece.x + direction.delta(), v.piece.y));
                    }
                    let ghost before = self.current_tetromino;
                    self.current_tetromino.horizontal_move(direction);
                    assert(self.current_tetromino.orientation == before.orientation);
                    assert(self.current_tetromino.offsets() =~= before.offsets());
                    assert(self@.piece == shifted_view(v.piece, direction.delta(), 0));
                    assert forall|i: int| 0 <= i < 4 implies 0 <= (#[trigger] piece_cells(self@.piece, 0, 0)[i]).0 < v.width
                        && 0 <= piece_cells(self@.piece, 0, 0)[i].1 <= usize::MAX by {
                        assert(piece_cells(self@.piece, 0, 0)[i] == piece_cells(v.piece, direction.delta(), 0)[i]);
                        assert(!blocked(v, piece_cells(v.piece, direction.delta(), 0)[i]));
                    }
                    assert(self@ == after_move(v, direction));
                }
            },
            Err(_) => {
                proof {
                    if fits(v, piece_cells(v.piece, direction.delta(), 0)) {
                        let c = piece_cells(v.piece, direction.delta(), 0);
                        assert(forall|i: int| 0 <= i < 4 ==> !blocked(v, #[trigger] c[i]));
                        assert(placement(c) is Ok);
                    }
                }
            },
        }
    }

    /// The first kick column whose rotation leaves every cell free.
    fn find_kick(&self, clockwise: bool) -> (r: Option<usize>)
        requires
            self.wf(),
        ensures
            match r {
                Some(k) => first_kick(self@, clockwise, 0) == Some(k as int) && k < 5,
                None => first_kick(self@, clockwise, 0) is None,
            },
    {
        let ghost v = self@;
        let mut offset_index: usize = 0;
        while offset_index < 5
            invariant
                self.wf(),
                v == self@,
                0 <= offset_index <= 5,
                forall|j: int| 0 <= j < offset_index ==> !rotation_fits(v, clockwise, j),
            decreases 5 - offset_index,
        {
            let full_position_rotated = self.current_tetromino.calc_rotate(clockwise, offset_index);
            let ghost k = offset_index as int;
            let ghost target = rotated_view(v.piece, clockwise, k);
            let ghost cells = piece_cells(target, 0, 0);
            proof {
                lemma_rotated_wf(v.piece, clockwise, k);
                lemma_anchor_cell(target);
                assert(cells =~= crate::tetromino::rotation_cells(self.current_tetromino, clockwise, k));
            }
            match full_position_rotated {
                Ok(full_position) => {
                    assert(array_cells(full_position) =~= cells);
                    if !self.check_collision(full_position) {
                        proof {
                            lemma_first_kick_skip(v, clockwise, k);
                        }
                        return Some(offset_index);
                    }
                },
                Err(_) => {
                    proof {
                        let i = choose|i: int| 0 <= i < 4 && #[trigger] cells[i] == (target.x, target.y);
                        if placement(cells) is Err {
                            assert(!fits(v, cells));
                        } else {
                            assert(!blocked(v, cells[i]) ==> placement(seq![(target.x, target.y)]) is Ok);
                        }
                    }
                },
            }
            offset_index = offset_index + 1;
        }
        proof {
            lemma_first_kick_skip(v, clockwise, 5);
        }
        None
    }

    /// Tries the kick columns in order and turns the piece with the first
    /// whose cells are all free; the piece stays as it was when none is. The
    /// attempt is recorded either way.
    pub fn rotate_current_piece(&mut self, clockwise: bool)
        requires
            old(self).wf(),
        ensures
            final(self).wf(),
            final(self)@ == after_rotate(old(self)@, clockwise),
    {
        let ghost v = self@;
        match self.find_kick(clockwise) {
            Some(k) => {
                let ghost target = rotated_view(v.piece, clockwise, k as int);
                let ghost cells = piece_cells(target, 0, 0);
                proof {
                    lemma_first_kick_fits(v, clockwise, 0);
                    lemma_rotated_wf(v.piece, clockwise, k as int);
                    lemma_anchor_cell(target);
                    let i = choose|i: int| 0 <= i < 4 && #[trigger] cells[i] == (target.x, target.y);
                    assert(!blocked(v, cells[i]));
                    assert(seq![(target.x, target.y)][0] == (target.x, target.y));
                }
                let _ = self.current_tetromino.rotate(clockwise, k);
                self.last_rotation_check = Some(k);
                assert(self.current_tetromino.offsets() == target.offsets);
                assert(self@.piece == target);
                assert forall|i: int| 0 <= i < 4 implies 0 <= (#[trigger] piece_cells(self@.piece, 0, 0)[i]).0 < v.width
                    && 0 <= piece_cells(self@.piece, 0, 0)[i].1 <= usize::MAX by {
                    assert(!blocked(v, cells[i]));
                }
            },
            None => {
                self.last_rotation_check = Some(4);
            },
        }
    }

    /// The kind that spawns `n` pieces after the current one; at most one
    /// bag's length ahead can be seen.
    pub fn calc_next_piece(&self, n: usize) -> (r: TetrominoShape)
        requires
            self.wf(),
            n <= self@.bag.len(),
        ensures
            r == upcoming(self@, n as int),
    {
        if self.bag_index + n >= self.bag.len() {
            self.next_bag[self.bag_index + n - self.bag.len()]
        } else {
            self.bag[self.bag_index + n]
        }
    }

    /// Sets the tick interval to an eighth of the level's while soft dropping,
    /// and back to the level's otherwise.
    pub fn soft_drop(&mut self, activate: bool)
        requires
            old(self).wf(),
        ensures
            final(self).wf(),
            final(self)@ == (BoardView {
                tick_delay: if activate {
                    (delay_for(old(self)@.tick_table, old(self)@.level) / 8) as u64
                } else {
                    delay_for(old(self)@.tick_table, old(self)@.level)
                },
                ..old(self)@
            }),
    {
        let delay = tick_delay_for(&self.config.tick_delay, self.level);
        if activate {
            self.tick_delay = delay / 8;
            return;
        }
        self.tick_delay = delay;
    }

    pub fn get_score(&self) -> (r: u128)
        ensures
            r == self@.score,
    {
        self.score
    }

    pub fn get_lines_cleared(&self) -> (r: u128)
        ensures
            r == self@.lines_cleared,
    {
        self.lines_cleared
    }

    pub fn get_level(&self) -> (r: u8)
        ensures
            r == self@.level,
    {
        self.level
    }

    pub fn get_held_tetromino(&self) -> (r: Option<TetrominoShape>)
        ensures
            r == self@.held,
    {
        self.held_tetromino
    }

    /// Writes the piece's cells into the grid as occupied by its kind.
    fn lock_piece(&mut self)
        requires
            view_base(old(self)@),
            old(self).current_tetromino.wf(),
        ensures
            final(self)@ == (BoardView { grid: locked_grid(old(self)@), ..old(self)@ }),
            final(self).current_tetromino == old(self).current_tetromino,
    {
        let ghost v = self@;
        let ghost cells = piece_cells(v.piece, 0, 0);
        let full_position = match self.current_tetromino.get_full_position() {
            Ok(a) => a,
            Err(_) => {
                assert(placement(cells) is Ok);
                return;
            },
        };
        assert(array_cells(full_position) =~= cells);
        let shape = self.current_tetromino.shape;
        let h = self.config.board_size.1;
        let mut i: usize = 0;
        assert(rows_of(self.grid@) =~~= locked_upto(v, 0));
        while i < 4
            invariant
                view_base(v),
                0 <= i <= 4,
                h == v.height,
                shape == v.piece.shape,
                array_cells(full_position) == cells,
                cells == piece_cells(v.piece, 0, 0),
                self@ == (BoardView { grid: locked_upto(v, i as int), ..v }),
                self.current_tetromino == old(self).current_tetromino,
                self.config == old(self).config,
            decreases 4 - i,
        {
            let (x, y) = full_position[i];
            assert(cells[i as int] == (x as int, y as int));
            let ghost before = self.grid@;
            if y < h {
                assert(self@.grid == locked_upto(v, i as int));
                assert(self@.grid.len() == v.height);
                assert(self@.grid == rows_of(self.grid@));
                assert(self.grid@.len() == v.height);
                assert(rows_of(self.grid@)[y as int] == self.grid@[y as int]@);
                assert(v.grid[y as int].len() == v.width);
                assert(locked_upto(v, i as int)[y as int].len() == v.grid[y as int].len());
                assert(0 <= piece_cells(v.piece, 0, 0)[i as int].0 < v.width);
                assert(self.grid@[y as int]@.len() == v.width);
                self.grid[y][x] = Cell::Occupied(shape);
                assert forall|yy: int, xx: int|
                    0 <= yy < v.height && 0 <= xx < v.width implies #[trigger] locked_upto(v, i as int + 1)[yy][xx]
                        == rows_of(self.grid@)[yy][xx] by {
                    assert(rows_of(before)[yy] == locked_upto(v, i as int)[yy]);
                    if xx == x && yy == y {
                        assert(cells[i as int] == (xx, yy));
                        assert(covers_upto(cells, i as int + 1, xx, yy));
                    } else {
                        if yy != y {
                            assert(self.grid@[yy] == before[yy]);
                        }
                        assert(rows_of(self.grid@)[yy][xx] == rows_of(before)[yy][xx]);
                        if covers_upto(cells, i as int + 1, xx, yy) {
                            let j = choose|j: int| 0 <= j < i + 1 && #[trigger] cells[j] == (xx, yy);
                            assert(j != i);
                            assert(covers_upto(cells, i as int, xx, yy));
                        }
                        if covers_upto(cells, i as int, xx, yy) {
                            let j = choose|j: int| 0 <= j < i && #[trigger] cells[j] == (xx, yy);
                            assert(covers_upto(cells, i as int + 1, xx, yy));
                        }
                    }
                }
                assert forall|yy: int| 0 <= yy < v.height implies #[trigger] rows_of(self.grid@)[yy]
                    =~= locked_upto(v, i as int + 1)[yy] by {
                    assert(rows_of(before)[yy] == locked_upto(v, i as int)[yy]);
                    if yy != y {
                        assert(self.grid@[yy] == before[yy]);
                    }
                    assert(rows_of(self.grid@)[yy].len() == v.width);
                }
                assert(rows_of(self.grid@) =~= locked_upto(v, i as int + 1));
            } else {
                assert(rows_of(self.grid@) =~~= locked_upto(v, i as int + 1)) by {
                    assert forall|yy: int, xx: int|
                        0 <= yy < v.height && 0 <= xx < v.width implies #[trigger] locked_upto(v, i as int + 1)[yy][xx]
                            == rows_of(self.grid@)[yy][xx] by {
                        assert(rows_of(before)[yy] == locked_upto(v, i as int)[yy]);
                        if covers_upto(cells, i as int + 1, xx, yy) {
                            let j = choose|j: int| 0 <= j < i + 1 && #[trigger] cells[j] == (xx, yy);
                            assert(j != i);
                            assert(covers_upto(cells, i as int, xx, yy));
                        }
                        if covers_upto(cells, i as int, xx, yy) {
                            let j = choose|j: int| 0 <= j < i && #[trigger] cells[j] == (xx, yy);
                            assert(covers_upto(cells, i as int + 1, xx, yy));
                        }
                    }
                }
            }
            i = i + 1;
        }
        assert(locked_upto(v, 4) =~~= locked_grid(v)) by {
            assert forall|yy: int, xx: int|
                0 <= yy < v.height && 0 <= xx < v.width implies #[trigger] locked_upto(v, 4)[yy][xx]
                    == locked_grid(v)[yy][xx] by {
                if covers_upto(cells, 4, xx, yy) {
                    let j = choose|j: int| 0 <= j < 4 && #[trigger] cells[j] == (xx, yy);
                }
                if covers(cells, xx, yy) {
                    if cells[0] == (xx, yy) {
                        assert(covers_upto(cells, 4, xx, yy));
                    } else if cells[1] == (xx, yy) {
                        assert(covers_upto(cells, 4, xx, yy));
                    } else if cells[2] == (xx, yy) {
                        assert(covers_upto(cells, 4, xx, yy));
                    } else {
                        assert(covers_upto(cells, 4, xx, yy));
                    }
                }
            }
        }
    }

    /// Removes the full rows, puts as many empty rows on top, and returns
    /// how many there were.
    fn remove_full_rows(&mut self) -> (k: usize)
        requires
            grid_ok(old(self)@),
        ensures
            final(self)@ == (BoardView { grid: cleared_grid(old(self)@.grid, old(self)@.width), ..old(self)@ }),
            k == full_count(old(self)@.grid),
            final(self).current_tetromino == old(self).current_tetromino,
    {
        let ghost v = self@;
        let ghost g = v.grid;
        let h = self.config.board_size.1;
        let w = self.config.board_size.0;
        let mut kept: Vec<Vec<Cell>> = Vec::new();
        let mut y: usize = 0;
        while y < h
            invariant
                grid_ok(v),
                self@ == v,
                g == v.grid,
                h == v.height,
                w == v.width,
                y <= h,
                rows_of(kept@) == kept_rows(g.take(y as int)),
            decreases h - y,
        {
            assert(g.take(y as int + 1).drop_last() =~= g.take(y as int));
            assert(g.take(y as int + 1).last() == g[y as int]);
            assert(self.grid@[y as int]@ == g[y as int]);
            if !row_full(&self.grid[y]) {
                let row = copy_row(&self.grid[y]);
                kept.push(row);
                assert(rows_of(kept@) =~= kept_rows(g.take(y as int + 1)));
            }
            y = y + 1;
        }
        assert(g.take(y as int) =~= g);
        proof {
            lemma_kept_rows(g, v.width);
        }
        let k = h - kept.len();
        let mut grid: Vec<Vec<Cell>> = Vec::new();
        let mut i: usize = 0;
        while i < k
            invariant
                i <= k,
                grid@.len() == i,
                rows_of(grid@) == Seq::new(i as nat, |j: int| empty_row(w as int)),
            decreases k - i,
        {
            let row = new_empty_row(w);
            let ghost before = grid@;
            grid.push(row);
            assert(grid@[i as int]@ == empty_row(w as int));
            assert forall|j: int| 0 <= j <= i implies #[trigger] rows_of(grid@)[j] == empty_row(w as int) by {
                if j < i {
                    assert(grid@[j] == before[j]);
                    assert(rows_of(before)[j] == empty_row(w as int));
                }
            }
            i = i + 1;
            assert(rows_of(grid@) =~= Seq::new(i as nat, |j: int| empty_row(w as int)));
        }
        let ghost top = grid@;
        let ghost rest = kept@;
        grid.append(&mut kept);
        proof {
            lemma_rows_of_add(top, rest);
        }
        self.grid = grid;
        assert(self@.grid =~= cleared_grid(g, v.width));
        k
    }

    /// Removes the full rows and scores the clear.
    #[verifier::rlimit(60)]
    fn clear_lines(&mut self)
        requires
            view_base(old(self)@),
            full_count(old(self)@.grid) <= 4,
        ensures
            final(self)@ == scored(
                BoardView { grid: cleared_grid(old(self)@.grid, old(self)@.width), ..old(self)@ },
                full_count(old(self)@.grid),
            ),
            final(self).current_tetromino == old(self).current_tetromino,
    {
        let ghost v0 = self@;
        proof {
            lemma_kept_rows(v0.grid, v0.width);
        }
        let k = self.remove_full_rows();
        let ghost v = self@;
        let rotated = self.last_rotation_check.is_some();
        let shape = self.current_tetromino.shape;
        let lines = k as u128;
        let (points, tag): (u128, Option<DifficultClear>) = if lines == 2 && shape
            == TetrominoShape::T && rotated {
            (1200, Some(DifficultClear::TSpinDouble))
        } else if lines == 3 && shape == TetrominoShape::T && rotated {
            (1600, Some(DifficultClear::TSpinTriple))
        } else if lines == 1 {
            (100, None)
        } else if lines == 2 {
            (300, None)
        } else if lines == 3 {
            (500, None)
        } else if lines == 4 {
            (800, Some(DifficultClear::Tetris))
        } else {
            (0, None)
        };
        assert((points as int, tag) == clear_points(k as int, v.piece.shape, v.last_rotation_check is Some));
        let level = self.level as u128;
        assert(level * points <= 255 * 1600) by (nonlinear_arith)
            requires
                level <= 255,
                points <= 1600,
        ;
        let mut award: u128 = level * points;
        let repeat = match (tag, self.last_difficult_clear) {
            (Some(a), Some(b)) => a == b,
            _ => false,
        };
        if repeat {
            award = award * 3 / 2;
        }
        assert(award == clear_award(v, k as int));
        let combo = self.combo_count as u128;
        assert(combo * 50 * level <= 255 * 50 * 255) by (nonlinear_arith)
            requires
                level <= 255,
                combo <= 255,
        ;
        if award > 0 {
            award = award + combo * 50 * level;
            if self.combo_count < 255 {
                self.combo_count = self.combo_count + 1;
            }
            self.last_difficult_clear = tag;
        }
        let h = self.config.board_size.1;
        assert(v.grid.len() == h);
        assert(rows_of(self.grid@)[h - 1] == self.grid@[h - 1]@);
        assert(self.grid@[h - 1]@ == v.grid[h - 1]);
        if row_is_empty(&self.grid[h - 1]) {
            award = award + 5000;
        }
        self.score = if self.score > u128::MAX - award {
            u128::MAX
        } else {
            self.score + award
        };
        self.lines_cleared = if self.lines_cleared > u128::MAX - lines {
            u128::MAX
        } else {
            self.lines_cleared + lines
        };
        if self.lines_cleared >= level * 10 + 10 && self.level < 255 {
            self.level = self.level + 1;
            self.tick_delay = tick_delay_for(&self.config.tick_delay, self.level);
        }
        assert(self@ == scored(v, k as int));
    }

    /// Replaces the piece with a fresh one of `shape`; fails when a cell it
    /// takes is not free.
    fn spawn_tetromino(&mut self, shape: TetrominoShape) -> (r: Result<(), TetrominoPositionError>)
        requires
            grid_ok(old(self)@),
            old(self)@.lock_delay >= 1,
        ensures
            (final(self)@, r) == spawn_result(old(self)@, shape),
            final(self).current_tetromino.wf(),
    {
        let ghost v = self@;
        self.current_tetromino = Tetromino::spawn(shape, self.config.board_size.0, self.config.lock_delay);
        let ghost p = spawned_view(shape, v.width as usize, v.lock_delay);
        assert(self@.piece == p);
        assert(self@ == spawn_result(v, shape).0);
        match self.current_tetromino.get_full_position() {
            Ok(full_position) => {
                assert(array_cells(full_position) =~= piece_cells(p, 0, 0));
                if self.check_collision(full_position) {
                    return Err(TetrominoPositionError::Collision);
                }
                Ok(())
            },
            Err(e) => {
                assert(placement(piece_cells(p, 0, 0)) is Ok);
                Err(e)
            },
        }
    }

    /// Moves the next bag into place and draws a fresh one.
    fn fill_bag(&mut self)
        ensures
            final(self)@ == (BoardView { bag: old(self)@.next_bag, next_bag: final(self)@.next_bag, ..old(self)@ }),
            valid_bag(old(self)@.bag_type, final(self)@.next_bag),
            final(self).current_tetromino == old(self).current_tetromino,
    {
        std::mem::swap(&mut self.bag, &mut self.next_bag);
        self.next_bag = new_bag(&self.config.bag_type);
    }

    /// Moves the cursor on and spawns the piece it points at.
    fn spawn_next_piece(&mut self) -> (r: Result<(), TetrominoPositionError>)
        requires
            view_base(old(self)@),
        ensures
            (final(self)@, r) == spawn_next(old(self)@, final(self)@.next_bag),
            valid_bag(old(self)@.bag_type, final(self)@.next_bag),
            final(self).current_tetromino.wf(),
    {
        let ghost v = self@;
        self.bag_index = self.bag_index + 1;
        if self.bag_index >= self.bag.len() {
            self.fill_bag();
            self.bag_index = 0;
        }
        let ghost a = advance_bag(v, self@.next_bag);
        assert(self@ == (BoardView { piece: v.piece, ..a }));
        let shape = self.bag[self.bag_index];
        self.spawn_tetromino(shape)
    }

    /// Spends a tick of lock delay; when none is left, locks the piece,
    /// clears rows, spawns the next piece and allows holding again.
    fn piece_on_ground(&mut self) -> (r: Result<(), TetrominoPositionError>)
        requires
            old(self).wf(),
        ensures
            final(self).wf(),
            (final(self)@, r) == on_ground(old(self)@, final(self)@.next_bag),
    {
        let ghost v = self@;
        let ghost t = self.current_tetromino;
        let landed = self.current_tetromino.update_lock_delay();
        assert(self.current_tetromino.offsets() =~= t.offsets());
        assert(self@.piece.offsets == v.piece.offsets);
        assert(piece_cells(self@.piece, 0, 0) == piece_cells(v.piece, 0, 0));
        if !landed {
            assert(self@ == on_ground(v, self@.next_bag).0);
            return Ok(());
        }
        assert(self.current_tetromino.offsets() =~= t.offsets());
        let ghost w = self@;
        assert(view_base(w));
        proof {
            lemma_lock_clears_at_most_four(v);
            assert(locked_grid(w) == locked_grid(v));
        }
        self.lock_piece();
        self.clear_lines();
        assert(self@ == after_lock(w));
        proof {
            lemma_after_lock_ok(w);
        }
        let ghost l = self@;
        let spawned = self.spawn_next_piece();
        proof {
            let a = advance_bag(l, self@.next_bag);
            lemma_spawn_ok(a, a.bag[a.bag_index]);
        }
        match spawned {
            Err(e) => {
                return Err(e);
            },
            Ok(()) => {},
        }
        self.already_held = false;
        Ok(())
    }

    /// One tick: moves the piece down a row when it can (a point while soft
    /// dropping), otherwise spends lock delay and locks when none is left.
    /// Fails when the piece spawned after a lock collides.
    pub fn update(&mut self) -> (r: Result<(), TetrominoPositionError>)
        requires
            old(self).wf(),
        ensures
            final(self).wf(),
            (final(self)@, r) == tick(old(self)@, final(self)@.next_bag),
    {
        let ghost v = self@;
        let landed = match self.current_tetromino.calc_horizontal_move((0, 1)) {
            Ok(full_position) => {
                assert(array_cells(full_position) =~= piece_cells(v.piece, 0, 1));
                self.check_collision(full_position)
            },
            Err(_) => {
                proof {
                    let c = piece_cells(v.piece, 0, 1);
                    if fits(v, c) {
                        assert(forall|i: int| 0 <= i < 4 ==> !blocked(v, #[trigger] c[i]));
                        assert(placement(c) is Ok);
                    }
                }
                true
            },
        };
        if landed {
            return self.piece_on_ground();
        }
        proof {
            lemma_anchor_cell(v.piece);
            let i = choose|i: int| 0 <= i < 4 && #[trigger] piece_cells(v.piece, 0, 0)[i] == (v.piece.x, v.piece.y);
            assert(piece_cells(v.piece, 0, 1)[i] == (v.piece.x, v.piece.y + 1));
            assert(!blocked(v, piece_cells(v.piece, 0, 1)[i]));
        }
        let ghost t = self.current_tetromino;
        self.current_tetromino.update();
        assert(self.current_tetromino.offsets() =~= t.offsets());
        assert(self@.piece == shifted_view(v.piece, 0, 1));
        assert forall|i: int| 0 <= i < 4 implies 0 <= (#[trigger] piece_cells(self@.piece, 0, 0)[i]).0 < v.width
            && 0 <= piece_cells(self@.piece, 0, 0)[i].1 <= usize::MAX by {
            assert(piece_cells(self@.piece, 0, 0)[i] == piece_cells(v.piece, 0, 1)[i]);
            assert(!blocked(v, piece_cells(v.piece, 0, 1)[i]));
        }
        if self.tick_delay != tick_delay_for(&self.config.tick_delay, self.level) {
            self.score = if self.score == u128::MAX {
                u128::MAX
            } else {
                self.score + 1
            };
        }
        self.last_rotation_check = None;
        Ok(())
    }

    /// Swaps the piece with the held kind, or holds it and spawns the next
    /// piece when none is held; only once per piece. Fails when the piece
    /// that spawns collides.
    pub fn hold(&mut self) -> (r: Result<(), TetrominoPositionError>)
        requires
            old(self).wf(),
        ensures
            final(self).wf(),
            (final(self)@, r) == after_hold(old(self)@, final(self)@.next_bag),
    {
        let ghost v = self@;
        if self.already_held {
            return Ok(());
        }
        self.already_held = true;
        let shape = self.current_tetromino.shape;
        let ghost h = BoardView { already_held: true, held: Some(v.piece.shape), ..v };
        match self.held_tetromino {
            Some(held_tetromino) => {
                self.held_tetromino = Some(shape);
                assert(self@ == h);
                proof {
                    lemma_spawn_ok(h, held_tetromino);
                }
                self.spawn_tetromino(held_tetromino)
            },
            None => {
                self.held_tetromino = Some(shape);
                assert(self@ == h);
                let r = self.spawn_next_piece();
                proof {
                    let a = advance_bag(h, self@.next_bag);
                    lemma_spawn_ok(a, a.bag[a.bag_index]);
                }
                r
            },
        }
    }

    /// Whether the position is empty.
    fn cell_empty(&self, x: usize, y: usize) -> (r: bool)
        requires
            grid_ok(self@),
            x < self@.width,
            y < self@.height,
        ensures
            r == (self@.grid[y as int][x as int] is Empty),
    {
        assert(rows_of(self.grid@)[y as int] == self.grid@[y as int]@);
        matches!(self.grid[y][x], Cell::Empty)
    }

    /// The empty rows directly below `(x, y)`.
    fn column_clearance(&self, x: usize, y: usize) -> (r: usize)
        requires
            grid_ok(self@),
            x < self@.width,
        ensures
            r == clearance(self@, x as int, y as int),
    {
        let h = self.config.board_size.1;
        let mut d: usize = 0;
        let mut yy: usize = y;
        while yy < h - 1 && self.cell_empty(x, yy + 1)
            invariant
                grid_ok(self@),
                x < self@.width,
                h == self@.height,
                y <= yy,
                d == yy - y,
                clearance(self@, x as int, y as int) == d + clearance(self@, x as int, yy as int),
            decreases h - yy,
        {
            yy = yy + 1;
            d = d + 1;
        }
        d
    }

    /// How many rows the piece can fall before a cell of it meets an
    /// occupied position or the floor.
    pub fn calc_relative_height(&self) -> (r: Result<usize, TetrominoPositionError>)
        requires
            self.wf(),
        ensures
            r == Ok::<usize, TetrominoPositionError>(relative_height(self@) as usize),
            0 <= relative_height(self@) < self@.height,
    {
        let ghost v = self@;
        let ghost c = piece_cells(v.piece, 0, 0);
        let full_position = match self.current_tetromino.get_full_position() {
            Ok(a) => a,
            Err(e) => {
                assert(placement(c) is Ok);
                return Err(e);
            },
        };
        assert(array_cells(full_position) =~= c);
        assert(0 <= c[0].0 < v.width && 0 <= c[1].0 < v.width && 0 <= c[2].0 < v.width && 0 <= c[3].0 < v.width);
        let h0 = self.column_clearance(full_position[0].0, full_position[0].1);
        let h1 = self.column_clearance(full_position[1].0, full_position[1].1);
        let h2 = self.column_clearance(full_position[2].0, full_position[2].1);
        let h3 = self.column_clearance(full_position[3].0, full_position[3].1);
        let a = if h0 <= h1 { h0 } else { h1 };
        let b = if h2 <= h3 { h2 } else { h3 };
        let m = if a <= b { a } else { b };
        proof {
            lemma_clearance_bound(v, c[0].0, c[0].1);
        }
        Ok(m)
    }

    /// Drops the piece as far as it falls, with two points per row, and
    /// ticks until it has locked: as many ticks as rows fallen plus the lock
    /// delay. Stops at the first tick that fails, which happens when the piece
    /// spawned after the lock collides, and returns that error.
    pub fn hard_drop(&mut self) -> (r: Result<(), TetrominoPositionError>)
        requires
            old(self).wf(),
        ensures
            final(self).wf(),
            drop_ticks(
                dropped(old(self)@, relative_height(old(self)@)),
                final(self)@,
                (relative_height(old(self)@) + old(self)@.lock_delay) as nat,
                r,
            ),
            r is Err ==> r == Err::<(), TetrominoPositionError>(TetrominoPositionError::Collision),
    {
        let ghost v = self@;
        let height = match self.calc_relative_height() {
            Ok(h) => h,
            Err(e) => {
                return Err(e);
            },
        };
        let add = height as u128 * 2;
        self.score = if self.score > u128::MAX - add {
            u128::MAX
        } else {
            self.score + add
        };
        let ghost start = self@;
        assert(start == dropped(v, relative_height(v)));
        let n: u128 = height as u128 + self.config.lock_delay as u128;
        let mut i: u128 = 0;
        let mut result: Result<(), TetrominoPositionError> = Ok(());
        let ghost mut run: Seq<BoardView> = seq![start];
        while i < n && result.is_ok()
            invariant
                self.wf(),
                i <= n,
                n == relative_height(v) + v.lock_delay,
                run.len() == i + 1,
                run[0] == start,
                run.last() == self@,
                tick_run(run),
                result is Ok ==> ticks_ok(run, i as int),
                result is Err ==> i >= 1 && ticks_ok(run, i - 1) && tick(run[i - 1], self@.next_bag).1
                    == result && result == Err::<(), TetrominoPositionError>(
                    TetrominoPositionError::Collision,
                ),
            decreases n - i,
        {
            let ghost prev = self@;
            let res = self.update();
            proof {
                let next = run.push(self@);
                assert forall|j: int| 0 <= j < next.len() - 1 implies #[trigger] tick(next[j], next[j + 1].next_bag).0
                    == next[j + 1] by {
                    if j < run.len() - 1 {
                        assert(tick(run[j], run[j + 1].next_bag).0 == run[j + 1]);
                    }
                }
                assert forall|j: int| 0 <= j < i implies (#[trigger] tick(next[j], next[j + 1].next_bag)).1 is Ok by {
                    assert(next[j] == run[j] && next[j + 1] == run[j + 1]);
                }
                assert(next[i as int] == prev && next[i + 1] == self@);
                run = next;
            }
            result = res;
            i = i + 1;
        }
        assert(tick_run(run));
        result
    }

    /// A board with the given settings and bags: an empty grid, the first
    /// kind of `bag` spawned, nothing held, no score, level one.
    pub fn with_bags(config: Config, bag: Vec<TetrominoShape>, next_bag: Vec<TetrominoShape>) -> (r: Board)
        requires
            config.valid(),
            valid_bag(config.bag_type, bag@),
            valid_bag(config.bag_type, next_bag@),
        ensures
            r.wf(),
            has_config(r@, config),
            r@ == initial(r@, bag@, next_bag@),
            valid_bag(r@.bag_type, r@.bag),
            valid_bag(r@.bag_type, r@.next_bag),
            r@.piece.shape == upcoming(r@, 0),
    {
        let w = config.board_size.0;
        let h = config.board_size.1;
        let mut grid: Vec<Vec<Cell>> = Vec::new();
        let mut y: usize = 0;
        while y < h
            invariant
                y <= h,
                grid@.len() == y,
                rows_of(grid@) == Seq::new(y as nat, |j: int| empty_row(w as int)),
            decreases h - y,
        {
            let row = new_empty_row(w);
            let ghost before = grid@;
            grid.push(row);
            assert forall|j: int| 0 <= j <= y implies #[trigger] rows_of(grid@)[j] == empty_row(w as int) by {
                if j < y {
                    assert(grid@[j] == before[j]);
                    assert(rows_of(before)[j] == empty_row(w as int));
                }
            }
            y = y + 1;
            assert(rows_of(grid@) =~= Seq::new(y as nat, |j: int| empty_row(w as int)));
        }
        let first = bag[0];
        let current_tetromino = Tetromino::spawn(first, w, config.lock_delay);
        let tick_delay = tick_delay_for(&config.tick_delay, 1);
        let r = Board {
            config,
            grid,
            bag,
            bag_index: 0,
            next_bag,
            current_tetromino,
            held_tetromino: None,
            already_held: false,
            last_rotation_check: None,
            last_difficult_clear: None,
            combo_count: 0,
            score: 0,
            lines_cleared: 0,
            level: 1,
            tick_delay,
        };
        proof {
            lemma_spawn_ok(r@, first);
            assert(r@.piece == spawn_result(r@, first).0.piece);
            assert forall|yy: int| 0 <= yy < r@.height implies !full_row(#[trigger] r@.grid[yy]) by {
                assert(r@.grid[yy][0] is Empty);
            }
        }
        r
    }

    /// A board with the given settings and two freshly drawn bags.
    pub fn with_config(config: Config) -> (r: Board)
        requires
            config.valid(),
        ensures
            r.wf(),
            has_config(r@, config),
            r@ == initial(r@, r@.bag, r@.next_bag),
            valid_bag(r@.bag_type, r@.bag),
            valid_bag(r@.bag_type, r@.next_bag),
            r@.piece.shape == upcoming(r@, 0),
    {
        let bag = new_bag(&config.bag_type);
        let next_bag = new_bag(&config.bag_type);
        Board::with_bags(config, bag, next_bag)
    }

    /// A board with the default settings.
    pub fn new() -> (r: Board)
        ensures
            r.wf(),
            r@.width == 10,
            r@.height == 24,
            r@.lock_delay == 3,
            r@.number_of_previews == 4,
            r@.tick_table == default_tick_table(),
            r@.bag_type == BagType::Seven,
            r@ == initial(r@, r@.bag, r@.next_bag),
            valid_bag(r@.bag_type, r@.bag),
            valid_bag(r@.bag_type, r@.next_bag),
            r@.piece.shape == upcoming(r@, 0),
    {
        Board::with_config(Config::new())
    }

    /// Sets the position `(x, y)` when it lies on the grid and the row would
    /// not become full; reports whether it did.
    pub fn set_cell(&mut self, x: usize, y: usize, cell: Cell) -> (r: bool)
        requires
            old(self).wf(),
        ensures
            final(self).wf(),
            r == (x < old(self)@.width && y < old(self)@.height && !full_row(
                old(self)@.grid[y as int].update(x as int, cell),
            )),
            final(self)@ == (if r {
                BoardView {
                    grid: old(self)@.grid.update(
                        y as int,
                        old(self)@.grid[y as int].update(x as int, cell),
                    ),
                    ..old(self)@
                }
            } else {
                old(self)@
            }),
    {
        let ghost v = self@;
        if x >= self.config.board_size.0 || y >= self.config.board_size.1 {
            return false;
        }
        assert(rows_of(self.grid@)[y as int] == self.grid@[y as int]@);
        let previous = self.grid[y][x];
        self.grid[y][x] = cell;
        assert(self.grid@[y as int]@ == v.grid[y as int].update(x as int, cell));
        if row_full(&self.grid[y]) {
            self.grid[y][x] = previous;
            assert(self.grid@[y as int]@ =~= v.grid[y as int]);
            assert(rows_of(self.grid@) =~= v.grid);
            return false;
        }
        assert(rows_of(self.grid@) =~= v.grid.update(y as int, v.grid[y as int].update(x as int, cell)));
        true
    }

    /// The position `(x, y)` of the grid.
    pub fn get_cell(&self, x: usize, y: usize) -> (r: Cell)
        requires
            self.wf(),
            x < self@.width,
            y < self@.height,
        ensures
            r == self@.grid[y as int][x as int],
    {
        assert(rows_of(self.grid@)[y as int] == self.grid@[y as int]@);
        self.grid[y][x]
    }

    /// The board's width and height.
    pub fn get_board_size(&self) -> (r: (usize, usize))
        ensures
            r.0 == self@.width,
            r.1 == self@.height,
    {
        self.config.board_size
    }

    /// The falling piece.
    pub fn get_current_tetromino(&self) -> (r: Tetromino)
        ensures
            r@ == self@.piece,
    {
        self.current_tetromino
    }

    /// The number of pieces in a bag, the furthest that can be seen ahead.
    pub fn get_bag_len(&self) -> (r: usize)
        ensures
            r == self@.bag.len(),
    {
        self.bag.len()
    }

    /// How many upcoming pieces to show.
    pub fn get_number_of_previews(&self) -> (r: usize)
        ensures
            r == self@.number_of_previews,
    {
        self.config.number_of_previews
    }

    /// The board's settings.
    pub fn get_config(&self) -> (r: &Config)
        requires
            self.wf(),
        ensures
            has_config(self@, *r),
            r.valid(),
    {
        &self.config
    }
}

} // verus!

use vstd::prelude::*;

use crate::board::TetrominoPositionError;

verus! {

/// A horizontal direction of movement.
#[derive(Debug, PartialEq, Eq, Clone, Copy, Structural)]
pub enum Direction {
    Left,
    Right,
}

impl Direction {
    /// The column change that a move in this direction makes.
    pub open spec fn delta(self) -> int {
        match self {
            Direction::Left => -1,
            Direction::Right => 1,
        }
    }

    /// The column change as a signed integer.
    pub fn offset(self) -> (r: isize)
        ensures
            r == self.delta(),
    {
        match self {
            Direction::Left => -1,
            Direction::Right => 1,
        }
    }
}

/// The seven piece kinds.
#[derive(Debug, Clone, Copy, Hash, PartialEq, Eq, Structural)]
pub enum TetrominoShape {
    J,
    L,
    S,
    Z,
    O,
    T,
    I,
}

/// An anchor position on the board; `y` grows downward.
#[derive(Debug, Clone, Copy, PartialEq, Eq, Structural)]
pub struct Position {
    pub x: usize,
    pub y: usize,
}

impl Position {
    pub fn new(x: usize, y: usize) -> (r: Position)
        ensures
            r.x == x,
            r.y == y,
    {
        Position { x, y }
    }
}

/// Width of the board that `Tetromino::new` spawns for.
pub const DEFAULT_BOARD_WIDTH: usize = 10;

/// Lock delay, in ticks, that `Tetromino::new` gives a piece.
pub const DEFAULT_LOCK_DELAY: u8 = 3;

/// The four cell offsets of each kind at orientation 0, relative to its anchor.
pub open spec fn base_offsets(shape: TetrominoShape) -> Seq<(int, int)> {
    match shape {
        TetrominoShape::J => seq![(-1, -1), (-1, 0), (0, 0), (1, 0)],
        TetrominoShape::L => seq![(-1, 0), (0, 0), (1, 0), (1, -1)],
        TetrominoShape::S => seq![(-1, 0), (0, 0), (0, -1), (1, -1)],
        TetrominoShape::Z => seq![(-1, -1), (0, -1), (0, 0), (1, 0)],
        TetrominoShape::O => seq![(0, -1), (0, 0), (1, -1), (1, 0)],
        TetrominoShape::T => seq![(-1, 0), (0, 0), (0, -1), (1, 0)],
        TetrominoShape::I => seq![(-1, 0), (0, 0), (1, 0), (2, 0)],
    }
}

/// The row of the spawn anchor: the O piece spawns lower than the others.
pub open spec fn spawn_row(shape: TetrominoShape) -> usize {
    if shape == TetrominoShape::O {
        4
    } else {
        2
    }
}

/// The column of the spawn anchor on a board of the given width.
pub open spec fn spawn_column(width: usize) -> usize {
    (width / 2 - 1) as usize
}

/// A quarter turn of one offset; `y` grows downward.
pub open spec fn turn(o: (int, int), clockwise: bool) -> (int, int) {
    if clockwise {
        (-o.1, o.0)
    } else {
        (o.1, -o.0)
    }
}

/// The orientation index after one quarter turn.
pub open spec fn next_rotation_index(r: usize, clockwise: bool) -> usize {
    if clockwise {
        ((r + 1) % 4) as usize
    } else {
        ((r + 3) % 4) as usize
    }
}

/// The wall-kick offset table row `r`, column `k`, of the family that `shape` belongs to.
pub open spec fn kick_offset(shape: TetrominoShape, r: int, k: int) -> (int, int) {
    let table: Seq<Seq<(int, int)>> = match shape {
        TetrominoShape::O => seq![
            seq![(0, 0), (0, 0), (0, 0), (0, 0), (0, 0)],
            seq![(0, 1), (0, 0), (0, 0), (0, 0), (0, 0)],
            seq![(-1, 1), (0, 0), (0, 0), (0, 0), (0, 0)],
            seq![(-1, 0), (0, 0), (0, 0), (0, 0), (0, 0)],
        ],
        TetrominoShape::I => seq![
            seq![(0, 0), (-1, 0), (2, 0), (-1, 0), (2, 0)],
            seq![(-1, 0), (0, 0), (0, 0), (0, -1), (0, 2)],
            seq![(-1, -1), (1, -1), (-2, -1), (1, 0), (-2, 0)],
            seq![(0, -1), (0, -1), (0, -1), (0, 1), (0, -2)],
        ],
        _ => seq![
            seq![(0, 0), (0, 0), (0, 0), (0, 0), (0, 0)],
            seq![(0, 0), (1, 0), (1, 1), (0, -2), (1, -2)],
            seq![(0, 0), (0, 0), (0, 0), (0, 0), (0, 0)],
            seq![(0, 0), (-1, 0), (-1, 1), (0, -2), (-1, -2)],
        ],
    };
    table[r][k]
}

/// The four offsets of one orientation after one quarter turn.
pub open spec fn turn_all(s: Seq<(int, int)>, clockwise: bool) -> Seq<(int, int)> {
    Seq::new(s.len(), |i: int| turn(s[i], clockwise))
}

/// The offsets of `shape` after `r` clockwise quarter turns from orientation 0.
pub open spec fn oriented(shape: TetrominoShape, r: nat) -> Seq<(int, int)>
    decreases r,
{
    if r == 0 {
        base_offsets(shape)
    } else {
        turn_all(oriented(shape, (r - 1) as nat), true)
    }
}

/// The anchor shift that a rotation from orientation `from` to orientation `to`
/// makes with column `k` of the kick table.
pub open spec fn kick(shape: TetrominoShape, from: int, to: int, k: int) -> (int, int) {
    (
        kick_offset(shape, from, k).0 - kick_offset(shape, to, k).0,
        kick_offset(shape, from, k).1 - kick_offset(shape, to, k).1,
    )
}

/// Absolute cells from an anchor and offsets, shifted by `(dx, dy)`.
pub open spec fn place(x: int, y: int, offs: Seq<(int, int)>, dx: int, dy: int) -> Seq<(int, int)> {
    Seq::new(offs.len(), |i: int| (x + offs[i].0 + dx, y + offs[i].1 + dy))
}

/// Whether a coordinate can be held in a `usize`.
pub open spec fn representable(v: int) -> bool {
    0 <= v <= usize::MAX
}

/// What turning computed cells into board coordinates yields: a negative
/// coordinate is reported before one too large to hold.
pub open spec fn placement(cells: Seq<(int, int)>) -> Result<(), TetrominoPositionError> {
    if exists|i: int| 0 <= i < cells.len() && (cells[i].0 < 0 || cells[i].1 < 0) {
        Err(TetrominoPositionError::NegativePosition)
    } else if exists|i: int|
        0 <= i < cells.len() && (cells[i].0 > usize::MAX || cells[i].1 > usize::MAX) {
        Err(TetrominoPositionError::Collision)
    } else {
        Ok(())
    }
}

/// Whether the coordinates `a` are exactly `cells`.
pub open spec fn same_cells(a: [(usize, usize); 4], cells: Seq<(int, int)>) -> bool {
    &&& cells.len() == 4
    &&& forall|i: int| 0 <= i < 4 ==> a@[i].0 == cells[i].0 && a@[i].1 == cells[i].1
}

/// The anchor that a rotation of `t` with kick column `k` aims at.
pub open spec fn rotation_anchor(t: Tetromino, clockwise: bool, k: int) -> (int, int) {
    let to = next_rotation_index(t.rotation_index, clockwise);
    let shift = kick(t.shape, t.rotation_index as int, to as int, k);
    (t.pos.x + shift.0, t.pos.y + shift.1)
}

/// The cells that a rotation of `t` with kick column `k` would occupy.
pub open spec fn rotation_cells(t: Tetromino, clockwise: bool, k: int) -> Seq<(int, int)> {
    let a = rotation_anchor(t, clockwise, k);
    place(a.0, a.1, turn_all(t.offsets(), clockwise), 0, 0)
}

/// Whether `n` is `t` turned a quarter in the given sense, its anchor moved
/// by kick column `k`.
pub open spec fn is_rotation_of(n: Tetromino, t: Tetromino, clockwise: bool, k: int) -> bool {
    &&& n.shape == t.shape
    &&& n.lock_delay == t.lock_delay
    &&& n.rotation_index == next_rotation_index(t.rotation_index, clockwise)
    &&& n.offsets() == turn_all(t.offsets(), clockwise)
    &&& n.pos.x == rotation_anchor(t, clockwise, k).0
    &&& n.pos.y == rotation_anchor(t, clockwise, k).1
}

/// Whether there are four offsets, each coordinate within two of the anchor,
/// one of them the anchor itself.
pub open spec fn compact(s: Seq<(int, int)>) -> bool {
    &&& s.len() == 4
    &&& forall|i: int| 0 <= i < 4 ==> -2 <= #[trigger] s[i].0 <= 2 && -2 <= s[i].1 <= 2
    &&& exists|i: int| 0 <= i < 4 && #[trigger] s[i] == (0int, 0int)
}

/// Every orientation of every kind is compact.
pub proof fn lemma_oriented_compact(shape: TetrominoShape, r: nat)
    ensures
        compact(oriented(shape, r)),
    decreases r,
{
    if r == 0 {
        let b = base_offsets(shape);
        if shape == TetrominoShape::J || shape == TetrominoShape::Z {
            assert(b[2] == (0int, 0int));
        } else {
            assert(b[1] == (0int, 0int));
        }
    } else {
        lemma_oriented_compact(shape, (r - 1) as nat);
        let p = oriented(shape, (r - 1) as nat);
        let i = choose|i: int| 0 <= i < 4 && #[trigger] p[i] == (0int, 0int);
        assert(oriented(shape, r)[i] == (0int, 0int));
    }
}

/// Four quarter turns in one sense give the offsets back.
pub proof fn lemma_turn_four(s: Seq<(int, int)>, clockwise: bool)
    ensures
        turn_all(turn_all(turn_all(turn_all(s, clockwise), clockwise), clockwise), clockwise)
            == s,
{
    assert(turn_all(turn_all(turn_all(turn_all(s, clockwise), clockwise), clockwise), clockwise)
        =~= s);
}

/// A counter-clockwise turn undoes a clockwise one.
pub proof fn lemma_turn_back(s: Seq<(int, int)>)
    ensures
        turn_all(turn_all(s, true), false) == s,
{
    assert(turn_all(turn_all(s, true), false) =~= s);
}

/// Turning a well-formed orientation gives the orientation of the next index.
pub proof fn lemma_turn_oriented(shape: TetrominoShape, r: nat, clockwise: bool)
    requires
        r < 4,
    ensures
        turn_all(oriented(shape, r), clockwise) == oriented(
            shape,
            next_rotation_index(r as usize, clockwise) as nat,
        ),
{
    let b = base_offsets(shape);
    assert(oriented(shape, 4) == turn_all(turn_all(turn_all(turn_all(b, true), true), true), true))
        by {
        reveal_with_fuel(oriented, 5);
    }
    lemma_turn_four(b, true);
    if clockwise {
        if r == 3 {
            assert(turn_all(oriented(shape, 3), true) == oriented(shape, 4));
        }
    } else {
        if r == 0 {
            assert(oriented(shape, 3) == turn_all(turn_all(turn_all(b, true), true), true)) by {
                reveal_with_fuel(oriented, 4);
            }
            lemma_turn_back(oriented(shape, 3));
        } else {
            lemma_turn_back(oriented(shape, (r - 1) as nat));
        }
    }
}

/// The anchor of a piece turned four times in one sense with one kick column is
/// back where it started, and so are its orientation index and offsets.
pub proof fn lemma_four_rotations(
    t0: Tetromino,
    t1: Tetromino,
    t2: Tetromino,
    t3: Tetromino,
    t4: Tetromino,
    clockwise: bool,
    k: int,
)
    requires
        t0.wf(),
        is_rotation_of(t1, t0, clockwise, k),
        is_rotation_of(t2, t1, clockwise, k),
        is_rotation_of(t3, t2, clockwise, k),
        is_rotation_of(t4, t3, clockwise, k),
    ensures
        t4.pos == t0.pos,
        t4.rotation_index == t0.rotation_index,
        t4.offsets() == t0.offsets(),
        t4.cells() == t0.cells(),
        t4.wf(),
{
    lemma_turn_four(t0.offsets(), clockwise);
}

/// A falling piece: its kind, anchor, the offsets of its current orientation,
/// the orientation index and the ticks left before it locks.
#[derive(Debug, Clone, Copy)]
pub struct Tetromino {
    pub shape: TetrominoShape,
    pub pos: Position,
    pub orientation: [(isize, isize); 4],
    pub rotation_index: usize,
    pub lock_delay: u8,
}

/// A piece as plain values: kind, anchor, offsets, orientation index and
/// ticks left before it locks.
pub struct PieceView {
    pub shape: TetrominoShape,
    pub x: int,
    pub y: int,
    pub offsets: Seq<(int, int)>,
    pub rotation_index: int,
    pub lock_delay: int,
}

impl View for Tetromino {
    type V = PieceView;

    open spec fn view(&self) -> PieceView {
        PieceView {
            shape: self.shape,
            x: self.pos.x as int,
            y: self.pos.y as int,
            offsets: self.offsets(),
            rotation_index: self.rotation_index as int,
            lock_delay: self.lock_delay as int,
        }
    }
}

/// The cells of a piece, shifted by `(dx, dy)`.
pub open spec fn piece_cells(p: PieceView, dx: int, dy: int) -> Seq<(int, int)> {
    place(p.x, p.y, p.offsets, dx, dy)
}

/// A fresh piece of `shape` on a board of width `width`.
pub open spec fn spawned_view(shape: TetrominoShape, width: usize, lock_delay: u8) -> PieceView {
    PieceView {
        shape,
        x: spawn_column(width) as int,
        y: spawn_row(shape) as int,
        offsets: base_offsets(shape),
        rotation_index: 0,
        lock_delay: lock_delay as int,
    }
}

/// A piece turned a quarter in the given sense, its anchor moved by kick column `k`.
pub open spec fn rotated_view(p: PieceView, clockwise: bool, k: int) -> PieceView {
    let to = next_rotation_index(p.rotation_index as usize, clockwise);
    let shift = kick(p.shape, p.rotation_index, to as int, k);
    PieceView {
        x: p.x + shift.0,
        y: p.y + shift.1,
        offsets: turn_all(p.offsets, clockwise),
        rotation_index: to as int,
        ..p
    }
}

/// Converts computed coordinates, rejecting those that no board coordinate can be.
fn settle(c: [(i128, i128); 4]) -> (r: Result<[(usize, usize); 4], TetrominoPositionError>)
    ensures
        ({
            let cells = Seq::new(4, |i: int| (c@[i].0 as int, c@[i].1 as int));
            match r {
                Ok(a) => placement(cells) is Ok && same_cells(a, cells),
                Err(e) => placement(cells) == Err::<(), _>(e),
            }
        }),
{
    let ghost cells = Seq::new(4, |i: int| (c@[i].0 as int, c@[i].1 as int));
    if c[0].0 < 0 || c[0].1 < 0 || c[1].0 < 0 || c[1].1 < 0 || c[2].0 < 0 || c[2].1 < 0
        || c[3].0 < 0 || c[3].1 < 0 {
        proof {
            if c@[0].0 < 0 || c@[0].1 < 0 {
                assert(cells[0].0 < 0 || cells[0].1 < 0);
            } else if c@[1].0 < 0 || c@[1].1 < 0 {
                assert(cells[1].0 < 0 || cells[1].1 < 0);
            } else if c@[2].0 < 0 || c@[2].1 < 0 {
                assert(cells[2].0 < 0 || cells[2].1 < 0);
            } else {
                assert(cells[3].0 < 0 || cells[3].1 < 0);
            }
        }
        return Err(TetrominoPositionError::NegativePosition);
    }
    let m = usize::MAX as i128;
    if c[0].0 > m || c[0].1 > m || c[1].0 > m || c[1].1 > m || c[2].0 > m || c[2].1 > m
        || c[3].0 > m || c[3].1 > m {
        proof {
            if c@[0].0 > m || c@[0].1 > m {
                assert(cells[0].0 > usize::MAX || cells[0].1 > usize::MAX);
            } else if c@[1].0 > m || c@[1].1 > m {
                assert(cells[1].0 > usize::MAX || cells[1].1 > usize::MAX);
            } else if c@[2].0 > m || c@[2].1 > m {
                assert(cells[2].0 > usize::MAX || cells[2].1 > usize::MAX);
            } else {
                assert(cells[3].0 > usize::MAX || cells[3].1 > usize::MAX);
            }
        }
        return Err(TetrominoPositionError::Collision);
    }
    let a = [
        (c[0].0 as usize, c[0].1 as usize),
        (c[1].0 as usize, c[1].1 as usize),
        (c[2].0 as usize, c[2].1 as usize),
        (c[3].0 as usize, c[3].1 as usize),
    ];
    assert(same_cells(a, cells));
    Ok(a)
}

impl Tetromino {
    /// The offset of cell `i`, as integers.
    pub open spec fn offset(&self, i: int) -> (int, int) {
        (self.orientation@[i].0 as int, self.orientation@[i].1 as int)
    }

    /// The offsets of the current orientation.
    pub open spec fn offsets(&self) -> Seq<(int, int)> {
        Seq::new(4, |i: int| self.offset(i))
    }

    /// The absolute cells, shifted by `(dx, dy)`.
    pub open spec fn cells_shifted(&self, dx: int, dy: int) -> Seq<(int, int)> {
        place(self.pos.x as int, self.pos.y as int, self.offsets(), dx, dy)
    }

    /// The absolute cells.
    pub open spec fn cells(&self) -> Seq<(int, int)> {
        self.cells_shifted(0, 0)
    }

    /// The offsets are those of the kind turned to the orientation index.
    pub open spec fn wf(&self) -> bool {
        &&& self.rotation_index < 4
        &&& self.offsets() == oriented(self.shape, self.rotation_index as nat)
    }

    /// Whether this is a fresh piece of `shape` at its spawn position on a
    /// board of width `width`, in orientation 0, with `lock_delay` ticks to lock.
    pub open spec fn is_spawned(&self, shape: TetrominoShape, width: usize, lock_delay: u8) -> bool {
        &&& self.shape == shape
        &&& self.pos == Position { x: spawn_column(width), y: spawn_row(shape) }
        &&& self.rotation_index == 0
        &&& self.offsets() == base_offsets(shape)
        &&& self.lock_delay == lock_delay
    }

    /// A fresh piece of the given kind at its spawn position on a board of
    /// the default width, with the default lock delay.
    pub fn new(shape: TetrominoShape) -> (r: Tetromino)
        ensures
            r.is_spawned(shape, DEFAULT_BOARD_WIDTH, DEFAULT_LOCK_DELAY),
            r.wf(),
    {
        Tetromino::spawn(shape, DEFAULT_BOARD_WIDTH, DEFAULT_LOCK_DELAY)
    }

    /// A fresh piece of the given kind at its spawn position on a board of
    /// width `width`, with `lock_delay` ticks to lock.
    pub fn spawn(shape: TetrominoShape, width: usize, lock_delay: u8) -> (r: Tetromino)
        requires
            width >= 2,
        ensures
            r.is_spawned(shape, width, lock_delay),
            r.wf(),
    {
        let orientation: [(isize, isize); 4] = match shape {
            TetrominoShape::J => [(-1, -1), (-1, 0), (0, 0), (1, 0)],
            TetrominoShape::L => [(-1, 0), (0, 0), (1, 0), (1, -1)],
            TetrominoShape::S => [(-1, 0), (0, 0), (0, -1), (1, -1)],
            TetrominoShape::Z => [(-1, -1), (0, -1), (0, 0), (1, 0)],
            TetrominoShape::O => [(0, -1), (0, 0), (1, -1), (1, 0)],
            TetrominoShape::T => [(-1, 0), (0, 0), (0, -1), (1, 0)],
            TetrominoShape::I => [(-1, 0), (0, 0), (1, 0), (2, 0)],
        };
        let row: usize = match shape {
            TetrominoShape::O => 4,
            _ => 2,
        };
        let r = Tetromino {
            shape,
            pos: Position::new(width / 2 - 1, row),
            orientation,
            rotation_index: 0,
            lock_delay,
        };
        assert(r.offsets() =~= base_offsets(shape));
        r
    }

    pub fn get_shape(&self) -> (r: TetrominoShape)
        ensures
            r == self.shape,
    {
        self.shape
    }

    pub fn get_position(&self) -> (r: Position)
        ensures
            r == self.pos,
    {
        self.pos
    }

    /// The offsets of the current orientation.
    pub fn get_orientation(&self) -> (r: [(isize, isize); 4])
        ensures
            r == self.orientation,
    {
        self.orientation
    }

    /// The absolute cells after a shift by `diff`, or why they cannot be
    /// board coordinates.
    pub fn calc_horizontal_move(&self, diff: (isize, isize)) -> (r: Result<
        [(usize, usize); 4],
        TetrominoPositionError,
    >)
        ensures
            ({
                let cells = self.cells_shifted(diff.0 as int, diff.1 as int);
                match r {
                    Ok(a) => placement(cells) is Ok && same_cells(a, cells),
                    Err(e) => placement(cells) == Err::<(), _>(e),
                }
            }),
    {
        let x = self.pos.x as i128;
        let y = self.pos.y as i128;
        let o = self.orientation;
        let (dx, dy) = (diff.0 as i128, diff.1 as i128);
        let c = [
            (x + o[0].0 as i128 + dx, y + o[0].1 as i128 + dy),
            (x + o[1].0 as i128 + dx, y + o[1].1 as i128 + dy),
            (x + o[2].0 as i128 + dx, y + o[2].1 as i128 + dy),
            (x + o[3].0 as i128 + dx, y + o[3].1 as i128 + dy),
        ];
        let r = settle(c);
        assert(Seq::new(4, |i: int| (c@[i].0 as int, c@[i].1 as int)) =~= self.cells_shifted(
            diff.0 as int,
            diff.1 as int,
        ));
        r
    }

    /// The absolute cells, or why they cannot be board coordinates.
    pub fn get_full_position(&self) -> (r: Result<[(usize, usize); 4], TetrominoPositionError>)
        ensures
            match r {
                Ok(a) => placement(self.cells()) is Ok && same_cells(a, self.cells()),
                Err(e) => placement(self.cells()) == Err::<(), _>(e),
            },
    {
        self.calc_horizontal_move((0, 0))
    }

    /// Moves the anchor one row down.
    pub fn update(&mut self)
        requires
            old(self).pos.y < usize::MAX,
        ensures
            *final(self) == (Tetromino { pos: Position { y: (old(self).pos.y + 1) as usize, ..old(self).pos }, ..*old(self) }),
    {
        self.pos.y = self.pos.y + 1;
    }

    /// Counts one tick of the lock delay down; true when none is left.
    pub fn update_lock_delay(&mut self) -> (r: bool)
        requires
            old(self).lock_delay > 0,
        ensures
            *final(self) == (Tetromino { lock_delay: (old(self).lock_delay - 1) as u8, ..*old(self) }),
            r == (final(self).lock_delay == 0),
    {
        self.lock_delay = self.lock_delay - 1;
        self.lock_delay == 0
    }

    /// Moves the anchor one column in `direction`.
    pub fn horizontal_move(&mut self, direction: Direction)
        requires
            0 <= old(self).pos.x + direction.delta() <= usize::MAX,
        ensures
            *final(self) == (Tetromino { pos: Position { x: (old(self).pos.x + direction.delta()) as usize, ..old(self).pos }, ..*old(self) }),
    {
        match direction {
            Direction::Left => self.pos.x = self.pos.x - 1,
            Direction::Right => self.pos.x = self.pos.x + 1,
        }
    }

    /// The kick table entry at orientation `r`, column `k`, of this piece's family.
    fn get_rotation_offsets(&self, r: usize, k: usize) -> (o: (isize, isize))
        requires
            r < 4,
            k < 5,
        ensures
            o.0 == kick_offset(self.shape, r as int, k as int).0,
            o.1 == kick_offset(self.shape, r as int, k as int).1,
    {
        let table: [[(isize, isize); 5]; 4] = match self.shape {
            TetrominoShape::O => [
                [(0, 0), (0, 0), (0, 0), (0, 0), (0, 0)],
                [(0, 1), (0, 0), (0, 0), (0, 0), (0, 0)],
                [(-1, 1), (0, 0), (0, 0), (0, 0), (0, 0)],
                [(-1, 0), (0, 0), (0, 0), (0, 0), (0, 0)],
            ],
            TetrominoShape::I => [
                [(0, 0), (-1, 0), (2, 0), (-1, 0), (2, 0)],
                [(-1, 0), (0, 0), (0, 0), (0, -1), (0, 2)],
                [(-1, -1), (1, -1), (-2, -1), (1, 0), (-2, 0)],
                [(0, -1), (0, -1), (0, -1), (0, 1), (0, -2)],
            ],
            _ => [
                [(0, 0), (0, 0), (0, 0), (0, 0), (0, 0)],
                [(0, 0), (1, 0), (1, 1), (0, -2), (1, -2)],
                [(0, 0), (0, 0), (0, 0), (0, 0), (0, 0)],
                [(0, 0), (-1, 0), (-1, 1), (0, -2), (-1, -2)],
            ],
        };
        table[r][k]
    }

    /// Turns the piece a quarter and moves its anchor by kick column
    /// `offset_index`; the piece is left as it was when the new anchor cannot
    /// be a board coordinate.
    pub fn rotate(&mut self, clockwise: bool, offset_index: usize) -> (r: Result<
        (),
        TetrominoPositionError,
    >)
        requires
            old(self).wf(),
            offset_index < 5,
        ensures
            ({
                let a = rotation_anchor(*old(self), clockwise, offset_index as int);
                match r {
                    Ok(_) => placement(seq![a]) is Ok && is_rotation_of(
                        *final(self),
                        *old(self),
                        clockwise,
                        offset_index as int,
                    ) && final(self).wf(),
                    Err(e) => placement(seq![a]) == Err::<(), _>(e) && *final(self) == *old(
                        self,
                    ),
                }
            }),
    {
        let from = self.rotation_index;
        let to: usize = if clockwise {
            (from + 1) % 4
        } else {
            (from + 3) % 4
        };
        let first = self.get_rotation_offsets(from, offset_index);
        let second = self.get_rotation_offsets(to, offset_index);
        let x = self.pos.x as i128 + first.0 as i128 - second.0 as i128;
        let y = self.pos.y as i128 + first.1 as i128 - second.1 as i128;
        let ghost a = rotation_anchor(*self, clockwise, offset_index as int);
        assert(a == (x as int, y as int));
        if x < 0 || y < 0 {
            assert(seq![a][0] == a);
            return Err(TetrominoPositionError::NegativePosition);
        }
        if x > usize::MAX as i128 || y > usize::MAX as i128 {
            assert(seq![a][0] == a);
            return Err(TetrominoPositionError::Collision);
        }
        let o = self.orientation;
        proof {
            lemma_oriented_compact(self.shape, self.rotation_index as nat);
            assert(self.offsets()[0] == self.offset(0));
            assert(self.offsets()[1] == self.offset(1));
            assert(self.offsets()[2] == self.offset(2));
            assert(self.offsets()[3] == self.offset(3));
        }
        let turned: [(isize, isize); 4] = if clockwise {
            [(-o[0].1, o[0].0), (-o[1].1, o[1].0), (-o[2].1, o[2].0), (-o[3].1, o[3].0)]
        } else {
            [(o[0].1, -o[0].0), (o[1].1, -o[1].0), (o[2].1, -o[2].0), (o[3].1, -o[3].0)]
        };
        proof {
            lemma_turn_oriented(self.shape, self.rotation_index as nat, clockwise);
        }
        self.orientation = turned;
        self.rotation_index = to;
        self.pos = Position::new(x as usize, y as usize);
        assert(self.offsets() =~= turn_all(old(self).offsets(), clockwise));
        Ok(())
    }

    /// The cells that a rotation with kick column `offset_index` would occupy,
    /// or why they cannot be board coordinates; the piece is not changed.
    pub fn calc_rotate(&self, clockwise: bool, offset_index: usize) -> (r: Result<
        [(usize, usize); 4],
        TetrominoPositionError,
    >)
        requires
            self.wf(),
            offset_index < 5,
        ensures
            ({
                let a = rotation_anchor(*self, clockwise, offset_index as int);
                let cells = rotation_cells(*self, clockwise, offset_index as int);
                match r {
                    Ok(v) => placement(seq![a]) is Ok && placement(cells) is Ok && same_cells(
                        v,
                        cells,
                    ),
                    Err(e) => (placement(seq![a]) is Err && e
                        == TetrominoPositionError::NegativePosition) || (placement(seq![a]) is Ok
                        && placement(cells) == Err::<(), _>(e)),
                }
            }),
    {
        let mut candidate = *self;
        match candidate.rotate(clockwise, offset_index) {
            Ok(_) => {
                assert(candidate.cells() =~= rotation_cells(*self, clockwise, offset_index as int));
                candidate.get_full_position()
            },
            Err(_) => Err(TetrominoPositionError::NegativePosition),
        }
    }
}

} // verus!

use termtris::board::TetrominoPositionError;
use termtris::tetromino::{Direction, Position, Tetromino, TetrominoShape};

#[test]
fn test_rotate() {
    let mut tetromino = Tetromino::new(TetrominoShape::Z);
    tetromino.rotate(false, 0).expect("failed to rotate Z");
    assert_eq!(tetromino.orientation, [(-1, 1), (-1, 0), (0, 0), (0, -1)]);

    let mut tetromino = Tetromino::new(TetrominoShape::O);
    tetromino.rotate(false, 0).expect("failed to rotate O");
    assert_eq!(tetromino.orientation, [(-1, 0), (0, 0), (-1, -1), (0, -1)]);
}

#[test]
fn test_get_full_position() {
    let tetromino = Tetromino::new(TetrominoShape::I);
    let full_position = tetromino
        .get_full_position()
        .expect("failed to get I full position");
    assert_eq!(full_position, [(3, 2), (4, 2), (5, 2), (6, 2)]);

    let tetromino = Tetromino::new(TetrominoShape::J);
    let full_position = tetromino
        .get_full_position()
        .expect("failed to get J full position");
    assert_eq!(full_position, [(3, 1), (3, 2), (4, 2), (5, 2)]);

    let tetromino = Tetromino::new(TetrominoShape::T);
    let full_position = tetromino
        .get_full_position()
        .expect("failed to get T full position");
    assert_eq!(full_position, [(3, 2), (4, 2), (4, 1), (5, 2)]);

    let tetromino = Tetromino::new(TetrominoShape::Z);
    let full_position = tetromino
        .get_full_position()
        .expect("failed to get Z full position");
    assert_eq!(full_position, [(3, 1), (4, 1), (4, 2), (5, 2)]);

    let tetromino = Tetromino::new(TetrominoShape::L);
    let full_position = tetromino
        .get_full_position()
        .expect("failed to get L full position");
    assert_eq!(full_position, [(3, 2), (4, 2), (5, 2), (5, 1)]);

    let tetromino = Tetromino::new(TetrominoShape::S);
    let full_position = tetromino
        .get_full_position()
        .expect("failed to get S full position");
    assert_eq!(full_position, [(3, 2), (4, 2), (4, 1), (5, 1)]);

    let tetromino = Tetromino::new(TetrominoShape::O);
    let full_position = tetromino
        .get_full_position()
        .expect("failed to get O full position");
    assert_eq!(full_position, [(4, 3), (4, 4), (5, 3), (5, 4)]);
}

#[test]
fn spawn_column_follows_board_width() {
    let t = Tetromino::spawn(TetrominoShape::I, 4, 3);
    assert_eq!(t.get_full_position().unwrap(), [(0, 2), (1, 2), (2, 2), (3, 2)]);
    assert_eq!(t.get_position().x, 1);
    assert_eq!(t.lock_delay, 3);
}

#[test]
fn four_turns_return_every_kind() {
    let kinds = [
        TetrominoShape::I,
        TetrominoShape::J,
        TetrominoShape::L,
        TetrominoShape::O,
        TetrominoShape::S,
        TetrominoShape::T,
        TetrominoShape::Z,
    ];
    for clockwise in [true, false] {
        for k in 0..5 {
            for kind in kinds {
                let start = Tetromino::new(kind);
                let mut t = start;
                for _ in 0..4 {
                    t.rotate(clockwise, k).unwrap();
                }
                assert_eq!(t.get_full_position().unwrap(), start.get_full_position().unwrap());
                assert_eq!(t.rotation_index, 0);
                assert_eq!(t.orientation, start.orientation);
            }
        }
    }
}

#[test]
fn clockwise_turn_of_i_uses_kick_table() {
    let mut t = Tetromino::new(TetrominoShape::I);
    t.rotate(true, 0).unwrap();
    assert_eq!(t.rotation_index, 1);
    assert_eq!(t.get_full_position().unwrap(), [(5, 1), (5, 2), (5, 3), (5, 4)]);
    let cells = Tetromino::new(TetrominoShape::I).calc_rotate(true, 0).unwrap();
    assert_eq!(cells, [(5, 1), (5, 2), (5, 3), (5, 4)]);
}

#[test]
fn negative_cells_are_reported() {
    let mut t = Tetromino::new(TetrominoShape::T);
    t.pos = Position::new(0, 0);
    assert!(matches!(
        t.get_full_position(),
        Err(TetrominoPositionError::NegativePosition)
    ));
    assert!(matches!(
        t.calc_horizontal_move((1, 1)),
        Ok([(0, 1), (1, 1), (1, 0), (2, 1)])
    ));
}

#[test]
fn negative_anchor_rejects_rotation_unchanged() {
    let mut t = Tetromino::new(TetrominoShape::O);
    t.pos = Position::new(0, 0);
    let before = t;
    assert!(matches!(
        t.rotate(true, 0),
        Err(TetrominoPositionError::NegativePosition)
    ));
    assert_eq!(t.orientation, before.orientation);
    assert_eq!(t.rotation_index, before.rotation_index);
    assert_eq!(t.pos, before.pos);
}

#[test]
fn moves_and_lock_delay() {
    let mut t = Tetromino::new(TetrominoShape::S);
    t.horizontal_move(Direction::Left);
    assert_eq!(t.get_position(), Position::new(3, 2));
    t.horizontal_move(Direction::Right);
    t.horizontal_move(Direction::Right);
    assert_eq!(t.get_position(), Position::new(5, 2));
    t.update();
    assert_eq!(t.get_position(), Position::new(5, 3));
    assert!(!t.update_lock_delay());
    assert!(!t.update_lock_delay());
    assert!(t.update_lock_delay());
    assert_eq!(Direction::Left.offset(), -1);
    assert_eq!(Direction::Right.offset(), 1);
    assert_eq!(t.get_shape(), TetrominoShape::S);
}

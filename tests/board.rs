use termtris::board::{Board, Cell, TetrominoPositionError};
use termtris::config::{BagType, Config};
use termtris::tetromino::{Direction, TetrominoShape};

fn seven(first: TetrominoShape) -> Vec<TetrominoShape> {
    let mut bag = vec![first];
    for kind in [
        TetrominoShape::I,
        TetrominoShape::J,
        TetrominoShape::L,
        TetrominoShape::O,
        TetrominoShape::S,
        TetrominoShape::T,
        TetrominoShape::Z,
    ] {
        if kind != first {
            bag.push(kind);
        }
    }
    bag
}

fn board_with(first: TetrominoShape, width: usize, height: usize) -> Board {
    let mut config = Config::new();
    config.board_size = (width, height);
    Board::with_bags(config, seven(first), seven(TetrominoShape::Z))
}

fn cells(board: &Board) -> [(usize, usize); 4] {
    board.get_current_tetromino().get_full_position().unwrap()
}

fn fill_row_except(board: &mut Board, y: usize, width: usize, gaps: &[usize]) {
    for x in 0..width {
        if !gaps.contains(&x) {
            assert!(board.set_cell(x, y, Cell::Occupied(TetrominoShape::O)));
        }
    }
}

fn tick_until_lines(board: &mut Board, lines: u128) {
    for _ in 0..200 {
        if board.get_lines_cleared() >= lines {
            return;
        }
        board.update().unwrap();
    }
    panic!("no clear happened");
}

#[test]
fn single_clear_scores_one_hundred() {
    let mut board = board_with(TetrominoShape::I, 10, 24);
    fill_row_except(&mut board, 23, 10, &[3, 4, 5, 6]);
    assert!(board.set_cell(0, 22, Cell::Occupied(TetrominoShape::J)));
    tick_until_lines(&mut board, 1);
    assert_eq!(board.get_score(), 100);
    assert_eq!(board.get_lines_cleared(), 1);
    assert_eq!(board.get_level(), 1);
    assert!(matches!(board.get_cell(0, 23), Cell::Occupied(TetrominoShape::J)));
    assert!(matches!(board.get_cell(0, 22), Cell::Empty));
    assert_eq!(board.get_current_tetromino().get_shape(), TetrominoShape::J);
}

#[test]
fn perfect_clear_adds_bonus() {
    let mut board = board_with(TetrominoShape::I, 10, 24);
    fill_row_except(&mut board, 23, 10, &[3, 4, 5, 6]);
    tick_until_lines(&mut board, 1);
    assert_eq!(board.get_score(), 100 + 5000);
    for y in 0..24 {
        for x in 0..10 {
            assert!(matches!(board.get_cell(x, y), Cell::Empty));
        }
    }
}

#[test]
fn hard_drop_scores_rows_and_locks() {
    let mut board = board_with(TetrominoShape::I, 10, 24);
    fill_row_except(&mut board, 23, 10, &[3, 4, 5, 6]);
    assert_eq!(board.calc_relative_height().unwrap(), 21);
    board.hard_drop().unwrap();
    assert_eq!(board.get_score(), 2 * 21 + 100 + 5000);
    assert_eq!(board.get_lines_cleared(), 1);
    assert_eq!(board.get_current_tetromino().get_shape(), TetrominoShape::J);
}

#[test]
fn tetris_scores_eight_hundred() {
    let mut board = board_with(TetrominoShape::I, 10, 24);
    for y in 20..24 {
        fill_row_except(&mut board, y, 10, &[9]);
    }
    assert!(board.set_cell(0, 19, Cell::Occupied(TetrominoShape::L)));
    board.rotate_current_piece(true);
    assert_eq!(cells(&board), [(5, 1), (5, 2), (5, 3), (5, 4)]);
    for _ in 0..4 {
        board.move_current_piece(Direction::Right);
    }
    assert_eq!(cells(&board), [(9, 1), (9, 2), (9, 3), (9, 4)]);
    assert_eq!(board.calc_relative_height().unwrap(), 19);
    board.hard_drop().unwrap();
    assert_eq!(board.get_lines_cleared(), 4);
    assert_eq!(board.get_score(), 2 * 19 + 800);
    assert!(matches!(board.get_cell(0, 23), Cell::Occupied(TetrominoShape::L)));
}

#[test]
fn t_spin_double_after_rotation_attempt() {
    let mut board = board_with(TetrominoShape::T, 10, 4);
    fill_row_except(&mut board, 3, 10, &[3, 4, 5]);
    fill_row_except(&mut board, 2, 10, &[4]);
    assert!(board.set_cell(0, 1, Cell::Occupied(TetrominoShape::S)));
    board.update().unwrap();
    assert_eq!(cells(&board), [(3, 3), (4, 3), (4, 2), (5, 3)]);
    board.update().unwrap();
    board.rotate_current_piece(true);
    assert_eq!(cells(&board), [(3, 3), (4, 3), (4, 2), (5, 3)]);
    board.update().unwrap();
    board.update().unwrap();
    assert_eq!(board.get_lines_cleared(), 2);
    assert_eq!(board.get_score(), 1200);
}

#[test]
fn combo_adds_fifty_per_level() {
    let mut config = Config::new();
    config.board_size = (4, 24);
    config.bag_type = BagType::Classic;
    let mut board = Board::with_bags(
        config,
        vec![TetrominoShape::I; 7],
        vec![TetrominoShape::I; 7],
    );
    board.hard_drop().unwrap();
    assert_eq!(board.get_score(), 42 + 100 + 5000);
    board.hard_drop().unwrap();
    assert_eq!(board.get_score(), 42 + 100 + 5000 + 42 + 100 + 50 + 5000);
    assert_eq!(board.get_lines_cleared(), 2);
}

#[test]
fn hold_twice_is_a_no_op() {
    let mut board = board_with(TetrominoShape::S, 10, 24);
    assert_eq!(board.get_held_tetromino(), None);
    board.hold().unwrap();
    assert_eq!(board.get_held_tetromino(), Some(TetrominoShape::S));
    let current = cells(&board);
    let shape = board.get_current_tetromino().get_shape();
    assert_eq!(shape, TetrominoShape::I);
    board.hold().unwrap();
    assert_eq!(board.get_held_tetromino(), Some(TetrominoShape::S));
    assert_eq!(cells(&board), current);
    assert_eq!(board.get_current_tetromino().get_shape(), shape);
}

#[test]
fn hold_swaps_after_lock() {
    let mut board = board_with(TetrominoShape::S, 10, 24);
    board.hold().unwrap();
    board.hard_drop().unwrap();
    assert_eq!(board.get_current_tetromino().get_shape(), TetrominoShape::J);
    board.hold().unwrap();
    assert_eq!(board.get_held_tetromino(), Some(TetrominoShape::J));
    assert_eq!(board.get_current_tetromino().get_shape(), TetrominoShape::S);
}

#[test]
fn spawn_collision_is_reported() {
    let mut board = board_with(TetrominoShape::S, 10, 24);
    for x in 3..7 {
        assert!(board.set_cell(x, 2, Cell::Occupied(TetrominoShape::T)));
    }
    assert!(matches!(board.hold(), Err(TetrominoPositionError::Collision)));
}

#[test]
fn lookahead_is_stable_across_a_spawn() {
    let mut board = board_with(TetrominoShape::I, 10, 24);
    let before: Vec<TetrominoShape> = (1..=7).map(|n| board.calc_next_piece(n)).collect();
    assert_eq!(before[0], TetrominoShape::J);
    assert_eq!(before[6], TetrominoShape::Z);
    board.hard_drop().unwrap();
    let after: Vec<TetrominoShape> = (0..7).map(|n| board.calc_next_piece(n)).collect();
    assert_eq!(before, after);
}

#[test]
fn lookahead_crosses_into_next_bag() {
    let mut board = board_with(TetrominoShape::I, 10, 24);
    assert_eq!(board.get_bag_len(), 7);
    for _ in 0..6 {
        board.hard_drop().unwrap();
    }
    assert_eq!(board.calc_next_piece(0), TetrominoShape::Z);
    assert_eq!(board.calc_next_piece(1), TetrominoShape::Z);
    assert_eq!(board.calc_next_piece(2), TetrominoShape::I);
    board.hard_drop().unwrap();
    assert_eq!(board.get_current_tetromino().get_shape(), TetrominoShape::Z);
    assert_eq!(board.calc_next_piece(1), TetrominoShape::I);
}

#[test]
fn moves_stay_inside_columns_and_row() {
    let mut board = board_with(TetrominoShape::I, 10, 24);
    for _ in 0..10 {
        board.move_current_piece(Direction::Left);
        assert!(cells(&board).iter().all(|(x, y)| *x < 10 && *y == 2));
    }
    assert_eq!(cells(&board), [(0, 2), (1, 2), (2, 2), (3, 2)]);
    for _ in 0..10 {
        board.move_current_piece(Direction::Right);
        assert!(cells(&board).iter().all(|(x, y)| *x < 10 && *y == 2));
    }
    assert_eq!(cells(&board), [(6, 2), (7, 2), (8, 2), (9, 2)]);
}

#[test]
fn blocked_move_is_ignored() {
    let mut board = board_with(TetrominoShape::I, 10, 24);
    assert!(board.set_cell(7, 2, Cell::Occupied(TetrominoShape::O)));
    board.move_current_piece(Direction::Right);
    assert_eq!(cells(&board), [(3, 2), (4, 2), (5, 2), (6, 2)]);
}

#[test]
fn four_board_rotations_return() {
    for kind in [TetrominoShape::I, TetrominoShape::T, TetrominoShape::O, TetrominoShape::L] {
        for clockwise in [true, false] {
            let mut board = board_with(kind, 10, 24);
            let start = cells(&board);
            for _ in 0..4 {
                board.rotate_current_piece(clockwise);
            }
            assert_eq!(cells(&board), start);
            assert_eq!(board.get_current_tetromino().rotation_index, 0);
        }
    }
}

#[test]
fn soft_drop_speeds_ticks_and_scores() {
    let mut board = board_with(TetrominoShape::T, 10, 24);
    assert_eq!(board.tick_delay, 800);
    board.soft_drop(true);
    assert_eq!(board.tick_delay, 100);
    board.update().unwrap();
    assert_eq!(board.get_score(), 1);
    board.soft_drop(false);
    assert_eq!(board.tick_delay, 800);
    board.update().unwrap();
    assert_eq!(board.get_score(), 1);
}

#[test]
fn full_row_cannot_be_set() {
    let mut board = board_with(TetrominoShape::T, 10, 24);
    fill_row_except(&mut board, 23, 10, &[9]);
    assert!(!board.set_cell(9, 23, Cell::Occupied(TetrominoShape::T)));
    assert!(!board.set_cell(10, 23, Cell::Occupied(TetrominoShape::T)));
    assert!(matches!(board.get_cell(9, 23), Cell::Empty));
}

#[test]
fn new_board_defaults() {
    let board = Board::new();
    assert_eq!(board.get_board_size(), (10, 24));
    assert_eq!(board.get_score(), 0);
    assert_eq!(board.get_level(), 1);
    assert_eq!(board.get_lines_cleared(), 0);
    assert_eq!(board.get_number_of_previews(), 4);
    assert_eq!(board.get_config().lock_delay, 3);
    assert_eq!(board.calc_relative_height().unwrap() <= 21, true);
}

fn all_i_board(width: usize, height: usize) -> Board {
    let mut config = Config::new();
    config.board_size = (width, height);
    config.bag_type = BagType::Classic;
    Board::with_bags(config, vec![TetrominoShape::I; 7], vec![TetrominoShape::I; 7])
}

fn drop_vertical_i_at_right_wall(board: &mut Board) {
    board.rotate_current_piece(true);
    for _ in 0..4 {
        board.move_current_piece(Direction::Right);
    }
    assert_eq!(cells(board), [(9, 1), (9, 2), (9, 3), (9, 4)]);
    board.hard_drop().unwrap();
}

#[test]
fn back_to_back_tetris_scores_half_again() {
    let mut board = all_i_board(10, 24);
    for y in 16..24 {
        fill_row_except(&mut board, y, 10, &[9]);
    }
    assert!(board.set_cell(0, 15, Cell::Occupied(TetrominoShape::Z)));
    drop_vertical_i_at_right_wall(&mut board);
    assert_eq!(board.get_score(), 38 + 800);
    drop_vertical_i_at_right_wall(&mut board);
    assert_eq!(board.get_score(), 38 + 800 + 38 + 1200 + 50);
    assert_eq!(board.get_lines_cleared(), 8);
    assert!(matches!(board.get_cell(0, 23), Cell::Occupied(TetrominoShape::Z)));
}

#[test]
fn twenty_lines_raise_the_level() {
    let mut board = all_i_board(10, 30);
    for y in 10..30 {
        fill_row_except(&mut board, y, 10, &[9]);
    }
    assert!(board.set_cell(0, 9, Cell::Occupied(TetrominoShape::Z)));
    let mut expected = 0;
    for n in 0..5u128 {
        drop_vertical_i_at_right_wall(&mut board);
        expected += 50 + if n == 0 { 800 } else { 1200 + 50 * n };
        assert_eq!(board.get_score(), expected);
    }
    assert_eq!(expected, 6350);
    assert_eq!(board.get_lines_cleared(), 20);
    assert_eq!(board.get_level(), 2);
    assert_eq!(board.tick_delay, 717);
}

#[test]
fn hard_drop_reports_a_topped_out_spawn() {
    let mut board = board_with(TetrominoShape::I, 10, 24);
    assert!(board.set_cell(3, 1, Cell::Occupied(TetrominoShape::O)));
    assert!(matches!(board.hard_drop(), Err(TetrominoPositionError::Collision)));
    assert_eq!(board.get_current_tetromino().get_shape(), TetrominoShape::J);
    assert_eq!(board.get_score(), 2 * 21);
}

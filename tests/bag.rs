use termtris::bag::{classic_bag, fourteen_bag, new_bag, pairs_bag, seven_bag, shape_from_index};
use termtris::config::{BagType, Config};
use termtris::tetromino::TetrominoShape;

const KINDS: [TetrominoShape; 7] = [
    TetrominoShape::I,
    TetrominoShape::J,
    TetrominoShape::L,
    TetrominoShape::O,
    TetrominoShape::S,
    TetrominoShape::T,
    TetrominoShape::Z,
];

fn count(bag: &[TetrominoShape], kind: TetrominoShape) -> usize {
    bag.iter().filter(|k| **k == kind).count()
}

#[test]
fn test_new_bag() {
    let config = Config::new();
    let bag = new_bag(&config.bag_type);
    match config.bag_type {
        BagType::Classic | BagType::Seven => assert_eq!(bag.len(), 7),
        BagType::Fourteen | BagType::Pairs => assert_eq!(bag.len(), 14),
    }
}

#[test]
fn seven_bag_holds_each_kind_once() {
    for _ in 0..50 {
        let bag = seven_bag();
        assert_eq!(bag.len(), 7);
        for kind in KINDS {
            assert_eq!(count(&bag, kind), 1);
        }
    }
}

#[test]
fn seven_bag_is_shuffled() {
    let draws: Vec<Vec<TetrominoShape>> = (0..30).map(|_| seven_bag()).collect();
    assert!(draws.iter().any(|b| b.as_slice() != KINDS.as_slice()));
}

#[test]
fn fourteen_bag_holds_each_kind_twice() {
    for _ in 0..50 {
        let bag = fourteen_bag();
        assert_eq!(bag.len(), 14);
        for kind in KINDS {
            assert_eq!(count(&bag, kind), 2);
        }
    }
    let draws: Vec<Vec<TetrominoShape>> = (0..30).map(|_| fourteen_bag()).collect();
    assert!(draws.iter().any(|b| b[..7] != KINDS[..]));
}

#[test]
fn pairs_bag_repeats_each_pick() {
    for _ in 0..50 {
        let bag = pairs_bag();
        assert_eq!(bag.len(), 14);
        for i in 0..7 {
            assert_eq!(bag[2 * i], bag[2 * i + 1]);
        }
    }
}

#[test]
fn classic_bag_has_seven_picks() {
    let mut seen = Vec::new();
    for _ in 0..200 {
        let bag = classic_bag();
        assert_eq!(bag.len(), 7);
        seen.extend(bag);
    }
    for kind in KINDS {
        assert!(count(&seen, kind) > 0);
    }
}

#[test]
fn kinds_are_numbered_in_order() {
    for (i, kind) in KINDS.iter().enumerate() {
        assert_eq!(shape_from_index(i), *kind);
    }
    assert_eq!(new_bag(&BagType::Pairs).len(), 14);
    assert_eq!(new_bag(&BagType::Fourteen).len(), 14);
    assert_eq!(new_bag(&BagType::Classic).len(), 7);
}

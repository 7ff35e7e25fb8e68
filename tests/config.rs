use termtris::config::{
    default_bag_type, default_board_size, default_lock_delay, default_number_of_previews,
    default_tick_delay, tick_delay_for, BagType, Config,
};

#[test]
fn defaults() {
    assert_eq!(default_board_size(), (10, 24));
    assert_eq!(default_lock_delay(), 3);
    assert_eq!(default_number_of_previews(), 4);
    assert_eq!(default_bag_type(), BagType::Seven);
    let table = default_tick_delay();
    assert_eq!(table.len(), 14);
    assert_eq!(table[0], (1, 800));
    assert_eq!(table[13], (29, 33));
}

#[test]
fn tick_delay_falls_back_to_nearest_lower_level() {
    let table = default_tick_delay();
    assert_eq!(tick_delay_for(&table, 1), 800);
    assert_eq!(tick_delay_for(&table, 9), 133);
    assert_eq!(tick_delay_for(&table, 10), 100);
    assert_eq!(tick_delay_for(&table, 11), 100);
    assert_eq!(tick_delay_for(&table, 12), 100);
    assert_eq!(tick_delay_for(&table, 15), 83);
    assert_eq!(tick_delay_for(&table, 28), 50);
    assert_eq!(tick_delay_for(&table, 200), 33);
    assert_eq!(tick_delay_for(&table, 0), 800);
    assert_eq!(tick_delay_for(&vec![(5, 300), (3, 500)], 4), 500);
    assert_eq!(tick_delay_for(&vec![(5, 300), (3, 500)], 2), 800);
    assert_eq!(tick_delay_for(&Vec::new(), 7), 800);
}

#[test]
fn duplicate_keeps_settings() {
    let mut config = Config::new();
    config.board_size = (12, 30);
    config.bag_type = BagType::Pairs;
    let copy = config.duplicate();
    assert_eq!(copy.board_size, (12, 30));
    assert_eq!(copy.bag_type, BagType::Pairs);
    assert_eq!(copy.tick_delay, config.tick_delay);
    assert_eq!(copy.lock_delay, 3);
    assert_eq!(copy.number_of_previews, 4);
}

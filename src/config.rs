use vstd::prelude::*;

verus! {

/// How the sequence of pieces is drawn.
#[derive(Debug, Clone, Copy, PartialEq, Eq, Structural)]
pub enum BagType {
    /// Each bag holds the seven kinds once, shuffled.
    Seven,
    /// Each bag holds the seven kinds twice, shuffled as one.
    Fourteen,
    /// Each bag holds seven independent picks.
    Classic,
    /// Each bag holds seven independent picks, each repeated at once.
    Pairs,
}

/// The tick interval, in milliseconds, for a level below every tabulated one.
pub const FALLBACK_TICK_DELAY: u64 = 800;

/// Settings of a game: board width and height, previews shown, lock delay in
/// ticks, tick interval per level (pairs of level and milliseconds) and bag
/// strategy.
#[derive(Debug)]
pub struct Config {
    pub board_size: (usize, usize),
    pub number_of_previews: usize,
    pub lock_delay: u8,
    pub tick_delay: Vec<(u8, u64)>,
    pub bag_type: BagType,
}

impl Config {
    /// A board at least four columns wide and one row high, and a lock delay
    /// of at least one tick.
    pub open spec fn valid(&self) -> bool {
        &&& self.board_size.0 >= 4
        &&& self.board_size.1 >= 1
        &&& self.lock_delay >= 1
    }

    /// Whether `other` holds the same settings.
    pub open spec fn same_as(&self, other: &Config) -> bool {
        &&& self.board_size == other.board_size
        &&& self.number_of_previews == other.number_of_previews
        &&& self.lock_delay == other.lock_delay
        &&& self.tick_delay@ == other.tick_delay@
        &&& self.bag_type == other.bag_type
    }

    /// A copy of these settings.
    pub fn duplicate(&self) -> (r: Config)
        ensures
            r.same_as(self),
    {
        let mut tick_delay: Vec<(u8, u64)> = Vec::new();
        let mut i: usize = 0;
        while i < self.tick_delay.len()
            invariant
                i <= self.tick_delay@.len(),
                tick_delay@ == self.tick_delay@.take(i as int),
            decreases self.tick_delay@.len() - i,
        {
            tick_delay.push(self.tick_delay[i]);
            i = i + 1;
            assert(tick_delay@ =~= self.tick_delay@.take(i as int));
        }
        assert(self.tick_delay@.take(i as int) =~= self.tick_delay@);
        Config {
            board_size: self.board_size,
            number_of_previews: self.number_of_previews,
            lock_delay: self.lock_delay,
            tick_delay,
            bag_type: self.bag_type,
        }
    }

    /// The default settings.
    pub fn new() -> (r: Config)
        ensures
            r.board_size == (10usize, 24usize),
            r.number_of_previews == 4,
            r.lock_delay == 3,
            r.tick_delay@ == default_tick_table(),
            r.bag_type == BagType::Seven,
            r.valid(),
    {
        Config {
            board_size: default_board_size(),
            number_of_previews: default_number_of_previews(),
            lock_delay: default_lock_delay(),
            tick_delay: default_tick_delay(),
            bag_type: default_bag_type(),
        }
    }
}

pub fn default_bag_type() -> (r: BagType)
    ensures
        r == BagType::Seven,
{
    BagType::Seven
}

pub fn default_board_size() -> (r: (usize, usize))
    ensures
        r == (10usize, 24usize),
{
    (10, 24)
}

pub fn default_number_of_previews() -> (r: usize)
    ensures
        r == 4,
{
    4
}

pub fn default_lock_delay() -> (r: u8)
    ensures
        r == 3,
{
    3
}

/// The default tick interval table: level and milliseconds.
pub open spec fn default_tick_table() -> Seq<(u8, u64)> {
    seq![
        (1u8, 800u64),
        (2u8, 717u64),
        (3u8, 633u64),
        (4u8, 550u64),
        (5u8, 467u64),
        (6u8, 383u64),
        (7u8, 300u64),
        (8u8, 217u64),
        (9u8, 133u64),
        (10u8, 100u64),
        (13u8, 83u64),
        (16u8, 67u64),
        (19u8, 50u64),
        (29u8, 33u64),
    ]
}

pub fn default_tick_delay() -> (r: Vec<(u8, u64)>)
    ensures
        r@ == default_tick_table(),
{
    let r = vec![
        (1, 800),
        (2, 717),
        (3, 633),
        (4, 550),
        (5, 467),
        (6, 383),
        (7, 300),
        (8, 217),
        (9, 133),
        (10, 100),
        (13, 83),
        (16, 67),
        (19, 50),
        (29, 33),
    ];
    assert(r@ =~= default_tick_table());
    r
}

/// The entry of `table` with the greatest level not above `level`; of equal
/// levels, the first.
pub open spec fn nearest_entry(table: Seq<(u8, u64)>, level: u8) -> Option<(u8, u64)>
    decreases table.len(),
{
    if table.len() == 0 {
        None
    } else {
        let rest = nearest_entry(table.drop_last(), level);
        let e = table.last();
        if e.0 <= level && (rest is None || (rest->0).0 < e.0) {
            Some(e)
        } else {
            rest
        }
    }
}

/// The tick interval of `level`: that of the nearest tabulated level not above
/// it, or the fallback where there is none.
pub open spec fn delay_for(table: Seq<(u8, u64)>, level: u8) -> u64 {
    match nearest_entry(table, level) {
        Some(e) => e.1,
        None => FALLBACK_TICK_DELAY,
    }
}

/// The tick interval of `level` in `table`.
pub fn tick_delay_for(table: &Vec<(u8, u64)>, level: u8) -> (r: u64)
    ensures
        r == delay_for(table@, level),
{
    let mut best: Option<(u8, u64)> = None;
    let mut i: usize = 0;
    while i < table.len()
        invariant
            i <= table@.len(),
            best == nearest_entry(table@.take(i as int), level),
        decreases table@.len() - i,
    {
        let e = table[i];
        assert(table@.take(i as int + 1).drop_last() =~= table@.take(i as int));
        match best {
            Some(b) => {
                if e.0 <= level && b.0 < e.0 {
                    best = Some(e);
                }
            },
            None => {
                if e.0 <= level {
                    best = Some(e);
                }
            },
        }
        i = i + 1;
    }
    assert(table@.take(i as int) =~= table@);
    match best {
        Some(b) => b.1,
        None => FALLBACK_TICK_DELAY,
    }
}

} // verus!

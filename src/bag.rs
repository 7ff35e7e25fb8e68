use vstd::prelude::*;

use crate::config::BagType;
use crate::tetromino::TetrominoShape;

verus! {

/// The seven kinds, each once.
pub open spec fn all_kinds() -> Seq<TetrominoShape> {
    seq![
        TetrominoShape::I,
        TetrominoShape::J,
        TetrominoShape::L,
        TetrominoShape::O,
        TetrominoShape::S,
        TetrominoShape::T,
        TetrominoShape::Z,
    ]
}

/// The number of pieces in a bag of the given strategy.
pub open spec fn bag_len(t: BagType) -> nat {
    match t {
        BagType::Seven | BagType::Classic => 7,
        BagType::Fourteen | BagType::Pairs => 14,
    }
}

/// Whether `s` is a bag that the given strategy can draw.
pub open spec fn valid_bag(t: BagType, s: Seq<TetrominoShape>) -> bool {
    &&& s.len() == bag_len(t)
    &&& match t {
        BagType::Seven => s.to_multiset() == all_kinds().to_multiset(),
        BagType::Fourteen => s.to_multiset() == (all_kinds() + all_kinds()).to_multiset(),
        BagType::Classic => true,
        BagType::Pairs => forall|i: int| 0 <= i < 7 ==> #[trigger] s[2 * i] == s[2 * i + 1],
    }
}

/// Relies on rand's `SliceRandom::shuffle` with the thread-local generator:
/// it permutes the items in place.
#[verifier::external_body]
fn shuffle(v: &mut Vec<TetrominoShape>)
    ensures
        final(v)@.len() == old(v)@.len(),
        final(v)@.to_multiset() == old(v)@.to_multiset(),
{
    rand::seq::SliceRandom::shuffle(v.as_mut_slice(), &mut rand::thread_rng())
}

/// Relies on rand's `Rng::gen_range` with the thread-local generator: a number
/// in `0..n`, which must not be empty.
#[verifier::external_body]
fn random_below(n: usize) -> (r: usize)
    requires
        n > 0,
    ensures
        r < n,
{
    rand::Rng::gen_range(&mut rand::thread_rng(), 0..n)
}

/// The kind numbered `n`, in the order I, J, L, O, S, T, Z.
pub fn shape_from_index(n: usize) -> (r: TetrominoShape)
    requires
        n < 7,
    ensures
        r == all_kinds()[n as int],
{
    match n {
        0 => TetrominoShape::I,
        1 => TetrominoShape::J,
        2 => TetrominoShape::L,
        3 => TetrominoShape::O,
        4 => TetrominoShape::S,
        5 => TetrominoShape::T,
        _ => TetrominoShape::Z,
    }
}

/// The seven kinds, each once, in a fixed order.
fn all_kinds_vec() -> (r: Vec<TetrominoShape>)
    ensures
        r@ == all_kinds(),
{
    let r = vec![
        TetrominoShape::I,
        TetrominoShape::J,
        TetrominoShape::L,
        TetrominoShape::O,
        TetrominoShape::S,
        TetrominoShape::T,
        TetrominoShape::Z,
    ];
    assert(r@ =~= all_kinds());
    r
}

/// A fresh bag of the given strategy.
pub fn new_bag(bag_type: &BagType) -> (r: Vec<TetrominoShape>)
    ensures
        valid_bag(*bag_type, r@),
{
    match bag_type {
        BagType::Classic => classic_bag(),
        BagType::Fourteen => fourteen_bag(),
        BagType::Seven => seven_bag(),
        BagType::Pairs => pairs_bag(),
    }
}

/// The seven kinds in a random order.
pub fn seven_bag() -> (r: Vec<TetrominoShape>)
    ensures
        valid_bag(BagType::Seven, r@),
{
    let mut bag = all_kinds_vec();
    shuffle(&mut bag);
    bag
}

/// Seven random kinds, each repeated at once.
pub fn pairs_bag() -> (r: Vec<TetrominoShape>)
    ensures
        valid_bag(BagType::Pairs, r@),
{
    let mut bag: Vec<TetrominoShape> = Vec::with_capacity(14);
    let mut i: usize = 0;
    while i < 7
        invariant
            i <= 7,
            bag@.len() == 2 * i,
            forall|j: int| 0 <= j < i ==> #[trigger] bag@[2 * j] == bag@[2 * j + 1],
        decreases 7 - i,
    {
        let shape = shape_from_index(random_below(7));
        bag.push(shape);
        bag.push(shape);
        i = i + 1;
    }
    bag
}

/// The seven kinds twice, in a random order.
pub fn fourteen_bag() -> (r: Vec<TetrominoShape>)
    ensures
        valid_bag(BagType::Fourteen, r@),
{
    let mut bag = all_kinds_vec();
    let mut second = all_kinds_vec();
    bag.append(&mut second);
    shuffle(&mut bag);
    bag
}

/// Seven independent random kinds.
pub fn classic_bag() -> (r: Vec<TetrominoShape>)
    ensures
        valid_bag(BagType::Classic, r@),
{
    let mut bag: Vec<TetrominoShape> = Vec::with_capacity(7);
    let mut i: usize = 0;
    while i < 7
        invariant
            i <= 7,
            bag@.len() == i,
        decreases 7 - i,
    {
        bag.push(shape_from_index(random_below(7)));
        i = i + 1;
    }
    bag
}

} // verus!

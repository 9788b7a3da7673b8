//! Dice and coins: things that roll to a value between one and their
//! number of faces.

use rand::Rng;
use rand::SeedableRng;
use rand_chacha::ChaCha20Rng;
use vstd::prelude::*;

verus! {

/// Relies on `rand::Rng::gen_range` over a `rand_chacha::ChaCha20Rng`
/// seeded with a fixed number: the sampled value lies within the given
/// inclusive range.
#[verifier::external_body]
fn get_random_value(max: u8) -> (r: u8)
    requires
        1 <= max,
    ensures
        1 <= r <= max,
{
    let mut rng = ChaCha20Rng::seed_from_u64(2);
    rng.gen_range(1..=max)
}

/// Something that can be rolled for a value between one and its
/// largest face.
pub trait Rollable {
    /// The largest value a roll can yield.
    spec fn faces(&self) -> int;

    /// Rolls once.
    fn roll(&self) -> (r: u8)
        requires
            self.faces() >= 1,
        ensures
            1 <= r <= self.faces(),
    ;
}

/// The classic polyhedral dice.
pub enum Die {
    D4,
    D6,
    D8,
    D10,
    D12,
    D20,
}

/// A two-sided coin.
pub struct Coin;

impl Rollable for Die {
    open spec fn faces(&self) -> int {
        match self {
            Die::D4 => 4,
            Die::D6 => 6,
            Die::D8 => 8,
            Die::D10 => 10,
            Die::D12 => 12,
            Die::D20 => 20,
        }
    }

    fn roll(&self) -> (r: u8) {
        match self {
            Die::D4 => get_random_value(4),
            Die::D6 => get_random_value(6),
            Die::D8 => get_random_value(8),
            Die::D10 => get_random_value(10),
            Die::D12 => get_random_value(12),
            Die::D20 => get_random_value(20),
        }
    }
}

impl Rollable for Coin {
    open spec fn faces(&self) -> int {
        2
    }

    fn roll(&self) -> (r: u8) {
        get_random_value(2)
    }
}

/// Rolls any rollable thing once.
pub fn roll<T: Rollable>(item: T) -> (r: u8)
    requires
        item.faces() >= 1,
    ensures
        1 <= r <= item.faces(),
{
    item.roll()
}

} // verus!

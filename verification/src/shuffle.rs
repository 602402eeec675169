//! The seeded shuffle and the source of fresh seeds.

use crate::card::Card;
use rand::rngs::StdRng;
use rand::seq::SliceRandom;
use rand::{Rng, SeedableRng};
use vstd::prelude::*;

verus! {

/// The order in which the standard generator, seeded with `seed`, leaves the
/// given cards when it shuffles them.
pub uninterp spec fn seeded_shuffle(seed: u64, cards: Seq<Card>) -> Seq<Card>;

/// `rand::seq::SliceRandom::shuffle` with a `rand::rngs::StdRng` made by
/// `rand::SeedableRng::seed_from_u64(seed)`. The generator is an algorithm on
/// its seed alone and the shuffle only swaps places according to the numbers
/// it draws, so the outcome is determined by the seed and the order before;
/// it is named [`seeded_shuffle`]. Being made of swaps, it holds the same
/// cards as before, each as often as before.
#[verifier::external_body]
pub(crate) fn shuffle_with_seed(cards: &mut Vec<Card>, seed: u64)
    ensures
        final(cards)@ == seeded_shuffle(seed, old(cards)@),
        final(cards)@.to_multiset() == old(cards)@.to_multiset(),
{
    let mut rng = StdRng::seed_from_u64(seed);
    cards.shuffle(&mut rng);
}

/// `rand::Rng::random::<u64>` on the generator of the current thread,
/// `rand::rng()`. Nothing is known of the number it gives.
#[verifier::external_body]
pub(crate) fn fresh_seed() -> (seed: u64) {
    let mut rng = rand::rng();
    rng.random::<u64>()
}

} // verus!

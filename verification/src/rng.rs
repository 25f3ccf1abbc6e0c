//! The draws that the table makes from its random number generator.
//!
//! A seeded generator has no source of chance but its state: what a draw returns, and the state
//! that it leaves behind, are functions of the state before it. Each of these functions has a name
//! here. Beyond what the contracts below say nothing is claimed of the values behind the names;
//! the `rand` crate keeps them for one version of itself and may change them in another.

use rand::rngs::StdRng;
use rand::seq::SliceRandom;
use rand::Rng;
use rand::SeedableRng;

use vstd::prelude::*;

use crate::models::Card;

verus! {

/// The generator of the `rand` crate, carried through as an opaque value.
#[verifier::external_type_specification]
#[verifier::external_body]
pub struct ExStdRng(StdRng);

/// The generator that `SeedableRng::seed_from_u64` makes for a seed.
pub uninterp spec fn generator_for(seed: u64) -> StdRng;

/// What `Rng::gen_range` draws between two numbers, both included, on a machine whose words have
/// so many bits, and the generator after the draw.
pub uninterp spec fn number_drawn(rng: StdRng, low: int, high: int, word_bits: int) -> (int, StdRng);

/// What `Rng::gen` draws for a `bool`, and the generator after the draw.
pub uninterp spec fn bool_drawn(rng: StdRng) -> (bool, StdRng);

/// The order in which `SliceRandom::shuffle` leaves some cards, and the generator after it.
pub uninterp spec fn cards_shuffled(rng: StdRng, cards: Seq<Card>) -> (Seq<Card>, StdRng);

/// `SeedableRng::seed_from_u64` of the `rand` crate: the generator for a seed, which it makes from
/// the seed alone. It returns for every seed.
#[verifier::external_body]
pub(crate) fn seeded(seed: u64) -> (rng: StdRng)
    ensures
        rng == generator_for(seed),
{
    StdRng::seed_from_u64(seed)
}

/// `Rng::gen_range` of the `rand` crate on an inclusive range, which panics when the range is
/// empty: a number from the range, both ends included. Which one, and the generator after the
/// draw, follow from the generator, the range and the size of machine words, which decides how
/// many random bits a draw of a `usize` takes.
#[verifier::external_body]
pub(crate) fn draw_between(rng: &mut StdRng, low: usize, high: usize) -> (n: usize)
    requires
        low <= high,
    ensures
        low <= n <= high,
        (n as int, *final(rng)) == number_drawn(
            *old(rng),
            low as int,
            high as int,
            usize::BITS as int,
        ),
{
    rng.gen_range(low..=high)
}

/// `Rng::gen` of the `rand` crate for `bool`: either value. Which one, and the generator after the
/// draw, follow from the generator. It returns for every generator.
#[verifier::external_body]
pub(crate) fn draw_bool(rng: &mut StdRng) -> (b: bool)
    ensures
        (b, *final(rng)) == bool_drawn(*old(rng)),
{
    rng.gen()
}

/// `SliceRandom::shuffle` of the `rand` crate, which only swaps elements: the same cards, each
/// as often as before. Their order, and the generator after the shuffle, follow from the generator
/// and the cards.
#[verifier::external_body]
pub(crate) fn shuffle_cards(rng: &mut StdRng, cards: &mut Vec<Card>)
    ensures
        final(cards)@.to_multiset() == old(cards)@.to_multiset(),
        (final(cards)@, *final(rng)) == cards_shuffled(*old(rng), old(cards)@),
{
    cards.shuffle(rng)
}

} // verus!

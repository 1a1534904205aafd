//! The random source behind every shuffle: the thread-local generator of the
//! `rand` crate. Nothing in this file is proved; each contract is taken from
//! the crate's source.

use crate::card::Card;
use rand::seq::SliceRandom;
use vstd::prelude::*;

verus! {

/// `rand::rngs::ThreadRng`, the handle to the calling thread's generator.
/// Nothing is known of what it holds.
#[verifier::external_type_specification]
#[verifier::external_body]
pub struct ExThreadRng(rand::rngs::ThreadRng);

/// `rand::thread_rng` hands out the handle to the calling thread's
/// generator, which the operating system seeds on first use. Nothing is
/// claimed of the handle. The call fails only where the operating system
/// cannot supply a seed.
pub assume_specification[ rand::thread_rng ]() -> (rng: rand::rngs::ThreadRng)
;

/// `SliceRandom::shuffle` on the cards of a vector. The method walks the
/// slice once and exchanges two of its elements at each step, so the cards
/// afterwards are the cards before in some order. Which order is left open.
/// The call fails only where the generator is due for a new seed and the
/// operating system cannot supply one.
#[verifier::external_body]
pub(crate) fn shuffle_cards(cards: &mut Vec<Card>, rng: &mut rand::rngs::ThreadRng)
    ensures
        final(cards)@.to_multiset() == old(cards)@.to_multiset(),
{
    cards.shuffle(rng);
}

} // verus!

//! The boundary to the `rand` crate: the only place where randomness enters.
//!
//! Nothing here is proved. Each item states what is taken on trust of `rand`.

use crate::cards::Card;
use rand::seq::SliceRandom;
use vstd::prelude::*;

verus! {

/// `rand::rngs::ThreadRng`, the generator local to the calling thread.
/// It is carried from `rand::thread_rng` to the shuffle and never looked into.
#[verifier::external_type_specification]
#[verifier::external_body]
pub struct ExThreadRng(rand::rngs::ThreadRng);

/// `rand::thread_rng` returns a handle to the thread's generator, which the
/// system seeds on first use. Nothing is claimed of the handle.
pub assume_specification[ rand::thread_rng ]() -> (rng: rand::rngs::ThreadRng);

/// `rand::seq::SliceRandom::shuffle` on a slice walks it from the back and
/// swaps each element with one at a randomly drawn index at or below it.
/// Swaps neither add nor drop an element, so the cards after the call are
/// the cards before it, each as often as before. Which order comes out
/// depends on the generator, and nothing is claimed of it.
#[verifier::external_body]
pub(crate) fn shuffle_cards(cards: &mut Vec<Card>, rng: &mut rand::rngs::ThreadRng)
    ensures
        final(cards)@.to_multiset() == old(cards)@.to_multiset(),
{
    cards.shuffle(rng);
}

} // verus!

//! The random source that shuffles the deck.
//!
//! Nothing in this file is proved: it states what the library takes on
//! trust about the `rand` crate.

use rand::rngs::ThreadRng;
use rand::seq::SliceRandom;
use vstd::prelude::*;

verus! {

/// `rand::rngs::ThreadRng`, the handle to the generator of the current
/// thread. The library only carries it from `rand::thread_rng` to the
/// shuffle.
#[verifier::external_type_specification]
#[verifier::external_body]
pub struct ExThreadRng(ThreadRng);

/// `rand::thread_rng`: hands out the generator of the current thread, which
/// the system seeds when the thread first asks for it. Nothing is claimed
/// about the handle or about the numbers it will give.
pub assume_specification[ rand::thread_rng ]() -> (rng: ThreadRng)
;

/// `rand::seq::SliceRandom::shuffle` on the elements of `items`.
///
/// The shuffle only swaps elements of the slice with one another, so
/// whatever numbers the generator gives, the elements afterwards are the
/// elements before, each as often as before. Which order comes out is not
/// stated.
#[verifier::external_body]
pub(crate) fn shuffle_in_place<T>(items: &mut Vec<T>, rng: &mut ThreadRng)
    ensures
        final(items)@.to_multiset() == old(items)@.to_multiset(),
{
    items.shuffle(rng);
}

} // verus!

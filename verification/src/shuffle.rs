//! The crate's one source of randomness: the `rand` crate's thread-local
//! generator and its in-place slice shuffle.
//!
//! Nothing can be promised of which order a shuffle picks, so the wrapper
//! states only what holds of every outcome: the list keeps exactly the
//! elements it had.  That the permutation is drawn uniformly is `rand`'s
//! documented behaviour and is relied on, not restated.

use vstd::prelude::*;
use rand::seq::SliceRandom;

verus! {

/// The thread-local random generator of the `rand` crate.
#[verifier::external_type_specification]
#[verifier::external_body]
pub struct ExThreadRng(rand::rngs::ThreadRng);

/// Relies on `rand::rng`: a fresh handle to the thread-local generator.
#[verifier::external_body]
pub(crate) fn fresh_rng() -> rand::rngs::ThreadRng {
    rand::rng()
}

/// Relies on `rand::seq::SliceRandom::shuffle`: an in-place Fisher-Yates
/// shuffle, uniform over all orders.  It only swaps elements, so the vector
/// keeps exactly the elements it had.
#[verifier::external_body]
pub(crate) fn shuffle_in_place<T>(rng: &mut rand::rngs::ThreadRng, v: &mut Vec<T>)
    ensures
        final(v)@.to_multiset() == old(v)@.to_multiset(),
{
    v.shuffle(rng);
}

} // verus!

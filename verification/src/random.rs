//! The one source of chance: the thread-local generator of the `rand` crate.

use vstd::prelude::*;
use rand::Rng;

verus! {

/// `Rng::gen_range` on `rand::thread_rng()`: some value that is at least
/// `low` and below `high`. Which one is left open, so two calls may differ.
#[verifier::external_body]
pub(crate) fn random_in_range(low: usize, high: usize) -> (r: usize)
    requires
        low < high,
    ensures
        low <= r < high,
{
    rand::thread_rng().gen_range(low, high)
}

/// `Rng::shuffle` on `rand::thread_rng()`: reorders the values in place.
/// Which order results is left open; no value is gained or lost.
#[verifier::external_body]
pub(crate) fn shuffle<T>(values: &mut Vec<T>)
    ensures
        final(values)@.to_multiset() == old(values)@.to_multiset(),
{
    rand::thread_rng().shuffle(values.as_mut_slice());
}

} // verus!

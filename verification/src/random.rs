//! The crate's source of randomness, wrapped for the verifier.
//!
//! [`CubieCube::random_possible`](crate::cubie_cube::CubieCube::random_possible)
//! draws random orientations and shuffles the two banks. Nothing can be
//! promised about which values come back, so the wrappers state only what
//! holds of every outcome: a drawn number lies below its bound, and a
//! shuffle rearranges the items without adding or dropping any.

use vstd::prelude::*;
use rand::seq::SliceRandom;
use rand::Rng;

verus! {

#[verifier::external_type_specification]
#[verifier::external_body]
pub struct ExThreadRng(rand::rngs::ThreadRng);

/// Relies on rand::thread_rng: hands out the lazily-initialized
/// thread-local random number generator.
#[verifier::external_body]
pub(crate) fn rng_new() -> rand::rngs::ThreadRng {
    rand::thread_rng()
}

/// Relies on rand::Rng::gen_range: a sample of a non-empty range lies in
/// that range.
#[verifier::external_body]
pub(crate) fn rand_below(rng: &mut rand::rngs::ThreadRng, n: u8) -> (r: u8)
    requires
        n > 0,
    ensures
        r < n,
{
    rng.gen_range(0..n)
}

/// Relies on rand::seq::SliceRandom::shuffle: a Fisher-Yates shuffle that
/// rearranges the items in place by swaps, so the multiset of items is
/// unchanged.
#[verifier::external_body]
pub(crate) fn shuffle<T, const N: usize>(rng: &mut rand::rngs::ThreadRng, items: &mut [T; N])
    ensures
        final(items)@.to_multiset() == old(items)@.to_multiset(),
{
    items.shuffle(rng);
}

} // verus!

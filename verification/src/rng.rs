//! The random number generator that the game draws from, and the two
//! uniform samplers that the game logic uses.

use vstd::prelude::*;
use rand::RngExt;
use rand::Rng;

verus! {

/// The game's random number generator (`bevy_prng::WyRand`), carried through
/// the logic as an opaque value.
#[verifier::external_type_specification]
#[verifier::external_body]
pub struct ExWyRand(bevy_prng::WyRand);

/// Calls `rand::RngExt::random_range` on `lo..hi` for `usize`.
/// rand documents that the value lies in the half-open range and that the
/// call panics on an empty range; which value comes out depends on the
/// generator's state, so nothing more is stated.
#[verifier::external_body]
pub(crate) fn random_index_in(rng: &mut bevy_prng::WyRand, lo: usize, hi: usize) -> (r: usize)
    requires
        lo < hi,
    ensures
        lo <= r < hi,
{
    rng.random_range(lo..hi)
}

/// Calls `rand::RngExt::random_range` on `lo..hi` for `i32`.
/// Same contract as `random_index_in`: the value lies in the half-open range.
#[verifier::external_body]
pub(crate) fn random_i32_in(rng: &mut bevy_prng::WyRand, lo: i32, hi: i32) -> (r: i32)
    requires
        lo < hi,
    ensures
        lo <= r < hi,
{
    rng.random_range(lo..hi)
}

/// Calls `rand_core::Rng::next_u64` on the generator. Any `u64` may come out.
#[verifier::external_body]
pub(crate) fn next_u64(rng: &mut bevy_prng::WyRand) -> (r: u64) {
    rng.next_u64()
}

} // verus!

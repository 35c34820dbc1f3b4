//! Randomness draws. Every draw goes through `rand`'s thread-local uniform
//! generator; nothing is promised of an outcome beyond its range, so every
//! caller is verified for every value a draw can return.
use vstd::prelude::*;

use rand::Rng;

verus! {

/// Relies on `rand::Rng::gen_range` over `rand::thread_rng()`: it returns a
/// value of the given inclusive range, uniformly at random, and panics only
/// on an empty range, which the precondition rules out.
#[verifier::external_body]
pub fn rand_range_inclusive(lo: u32, hi: u32) -> (r: u32)
    requires
        lo <= hi,
    ensures
        lo <= r <= hi,
{
    rand::thread_rng().gen_range(lo..=hi)
}

/// Relies on `rand::random::<bool>`: a fair coin flip. Nothing can be said of
/// the outcome.
#[verifier::external_body]
pub fn rand_coin() -> bool {
    rand::random::<bool>()
}

} // verus!

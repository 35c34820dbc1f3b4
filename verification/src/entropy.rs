//! The exact parameters of an entropy estimate. Each strategy's outcome space
//! is `pool` possibilities for each of `draws` independent draws, so the
//! estimate in bits is `draws * log2(pool)`; the logarithm itself is left to
//! the unverified presentation layer, which works in floating point.
use vstd::prelude::*;

verus! {

/// The outcome space of a configured strategy: `draws` independent choices,
/// each from `pool` equally likely possibilities.
#[derive(PartialEq, Eq, Structural, Clone, Copy, Debug)]
pub struct EntropyParams {
    /// How many independent draws the strategy makes.
    pub draws: u64,
    /// The number of equally likely outcomes of one draw.
    pub pool: u128,
}

} // verus!

//! The source of random numbers that the fuzzers draw from.

use vstd::prelude::*;

verus! {

/// Draws a random `usize` (`rand::random::<usize>()`, from the thread local
/// generator). Nothing is promised of the value: every `usize` may come back,
/// and two calls may give anything.
#[verifier::external_body]
pub(crate) fn random_usize() -> usize {
    rand::random::<usize>()
}

/// Draws a random byte, from `random_usize` reduced modulo 256.
pub(crate) fn random_u8() -> (b: u8) {
    (random_usize() % 256) as u8
}

} // verus!

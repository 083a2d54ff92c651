//! The source of chance: the thread-local generator of the `rand` crate.

use vstd::prelude::*;

verus! {

/// One 64-bit word from `rand::random::<u64>()`.
///
/// The word comes from the thread's generator, so nothing is claimed of it:
/// every `u64` is a possible outcome, and two calls may differ. `rand` panics
/// if the operating system cannot seed the generator on the thread's first
/// draw.
#[verifier::external_body]
pub(crate) fn random_u64() -> (word: u64) {
    rand::random::<u64>()
}

/// One 32-bit word from `rand::random::<u32>()`.
///
/// As with [`random_u64`], every `u32` is a possible outcome.
#[verifier::external_body]
pub(crate) fn random_u32() -> (word: u32) {
    rand::random::<u32>()
}

} // verus!

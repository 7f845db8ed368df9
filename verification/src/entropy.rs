//! The randomness source for fresh serial numbers and seeds.

use vstd::prelude::*;

verus! {

/// Relies on rand::random: draws a fresh 64-bit value from the thread's
/// generator. Nothing can be promised of a random value.
#[verifier::external_body]
pub(crate) fn random_u64() -> u64 {
    rand::random::<u64>()
}

} // verus!

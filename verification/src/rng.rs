//! Trusted access to the process's randomness.

use vstd::prelude::*;

verus! {

/// Relies on uuid::Uuid::new_v4 and Uuid::as_u128: a freshly drawn random
/// version-4 identifier. The value depends on the process's randomness, so
/// nothing is promised of it.
#[verifier::external_body]
pub fn new_uuid() -> u128 {
    uuid::Uuid::new_v4().as_u128()
}

/// Relies on rand::Rng::gen_range over the range 0..n: the draw lies below
/// `n`. The function panics on an empty range, which the precondition
/// rules out; which value comes back depends on the generator's state.
#[verifier::external_body]
pub fn rand_below(n: u64) -> (r: u64)
    requires
        n > 0,
    ensures
        r < n,
{
    rand::Rng::gen_range(&mut rand::thread_rng(), 0..n)
}

} // verus!

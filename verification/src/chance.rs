//! Draws from the thread-local random generator.

use vstd::prelude::*;
use rand::RngExt;

verus! {

/// `rand::rng().random_range(0..n)`: a number drawn uniformly below `n`. Which
/// one is left to chance; only its range is stated.
#[verifier::external_body]
pub(crate) fn random_below(n: u64) -> (r: u64)
    requires
        n > 0,
    ensures
        r < n,
{
    rand::rng().random_range(0..n)
}

} // verus!

//! The one place where the engines draw random numbers.

use vstd::prelude::*;
use rand::Rng;

verus! {

/// Draws an integer below `n`.
///
/// Calls `rand::Rng::gen_range` on the thread-local generator of
/// `rand::thread_rng` with the half-open range `0..n`. Trusted: the result
/// lies in that range, which is what `gen_range` documents for a range that
/// is not empty. An empty range makes it panic, so `n` must be positive.
/// Nothing is claimed about which value comes back.
#[verifier::external_body]
pub(crate) fn random_below(n: u32) -> (k: u32)
    requires
        n > 0,
    ensures
        k < n,
{
    rand::thread_rng().gen_range(0..n)
}

} // verus!

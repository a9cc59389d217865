//! Randomness for destination picking and stat mutation, drawn from the
//! thread-local generator.

use vstd::prelude::*;

verus! {

/// Relies on `rand::Rng::gen_range` over `rand::thread_rng`: for the
/// non-empty range `0..n` it returns a value of that range (and panics
/// only on an empty range, which the precondition rules out).
#[verifier::external_body]
pub(crate) fn random_below(n: u64) -> (r: u64)
    requires
        1 <= n,
    ensures
        r < n,
{
    rand::Rng::gen_range(&mut rand::thread_rng(), 0..n)
}

} // verus!

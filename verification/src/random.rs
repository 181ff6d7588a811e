use rand::RngExt;
use vstd::prelude::*;

verus! {

/// Draws an index below `n` with `rand::rng()` (the thread-local generator)
/// and `RngExt::random_range(0..n)`.
///
/// The contract claims only that the index is below `n`. Which index comes
/// out rests on chance and is left unsaid. `random_range` panics on an empty
/// range, so `n` must be positive; `rand::rng` panics only when the operating
/// system cannot seed the generator.
#[verifier::external_body]
pub(crate) fn random_below(n: usize) -> (r: usize)
    requires
        n > 0,
    ensures
        r < n,
{
    rand::rng().random_range(0..n)
}

} // verus!

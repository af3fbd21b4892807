//! The one source of chance in the engine.

use rand::Rng;
use vstd::prelude::*;

verus! {

/// Draws a number from `low` to `high`, both included, by
/// `rand::Rng::gen_range` on the generator that `rand::thread_rng` hands out.
///
/// Trusted: the draw lies in the range it was asked for. Which number comes
/// is left open, and two draws may differ. An empty range makes `gen_range`
/// panic, so it is ruled out here.
#[verifier::external_body]
pub(crate) fn roll(low: i32, high: i32) -> (n: i32)
    requires
        low <= high,
    ensures
        low <= n <= high,
{
    rand::thread_rng().gen_range(low..=high)
}

} // verus!

//! Random numbers for the game rules.
use vstd::prelude::*;

verus! {

/// A uniformly drawn integer in `[low, high)`.
///
/// Relies on `rand::Rng::gen_range` on `rand::thread_rng()` (rand 0.7): it
/// returns a value in `[low, high)` and panics unless `low < high`.
#[verifier::external_body]
pub(crate) fn roll(low: i32, high: i32) -> (r: i32)
    requires
        low < high,
    ensures
        low <= r < high,
{
    rand::Rng::gen_range(&mut rand::thread_rng(), low, high)
}

} // verus!

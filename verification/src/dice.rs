//! Random draws, taken from the `rand` crate's thread-local generator.

use rand::Rng;
use vstd::prelude::*;

verus! {

/// A random whole number from `low` up to, but not including, `high`.
///
/// Calls `Rng::gen_range` on `rand::thread_rng()`. The `rand` crate documents
/// that the value lies in the half-open range from `low` to `high`, and that
/// the call panics unless `low < high`; nothing else is claimed of it.
#[verifier::external_body]
pub(crate) fn gen_range(low: i32, high: i32) -> (n: i32)
    requires
        low < high,
    ensures
        low <= n < high,
{
    rand::thread_rng().gen_range(low, high)
}

/// A random truth value.
///
/// Calls `rand::random` for a `bool`. Nothing is claimed of the outcome.
#[verifier::external_body]
pub(crate) fn random_bool() -> bool {
    rand::random()
}

} // verus!

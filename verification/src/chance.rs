//! The one source of randomness of the simulation.

use vstd::prelude::*;
use rand::Rng;

verus! {

/// A random integer from `low` up to, but not including, `high`.
///
/// Trusted: this calls `rand::Rng::gen_range` on `rand::thread_rng()` with
/// the half-open range `low..high`. The contract claims what the crate
/// documents of that call: it panics on an empty range, which `requires`
/// rules out, and the value it returns lies in the range. Nothing is claimed
/// of which value comes back. `thread_rng` itself panics where the operating
/// system can give it no seed; no argument decides that.
#[verifier::external_body]
pub(crate) fn random_between(low: i32, high: i32) -> (r: i32)
    requires
        low < high,
    ensures
        low <= r < high,
{
    rand::thread_rng().gen_range(low..high)
}

} // verus!

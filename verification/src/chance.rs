//! The one source of chance: the pseudo-random generator of `macroquad`.

use vstd::prelude::*;

verus! {

/// A pseudo-random integer between `low` and `high`, both included.
///
/// Trusted: this calls `macroquad::rand::gen_range` on two `i32`, which
/// takes the generator's next 32 bits as a fraction below one, adds that
/// fraction of `high - low` to `low` in double precision, where both bounds
/// and their difference are exact, and drops the digits after the point.
/// The contract claims only that the result lies between the bounds; which
/// number comes is left open, and two calls may differ.
#[verifier::external_body]
pub(crate) fn roll(low: i32, high: i32) -> (r: i32)
    requires
        low <= high,
    ensures
        low <= r <= high,
{
    macroquad::rand::gen_range(low, high)
}

} // verus!

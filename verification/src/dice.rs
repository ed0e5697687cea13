//! The random draws that the simulation makes, taken from the `rand` crate.

use rand::Rng;
use vstd::prelude::*;

verus! {

/// Draws a number from `low` up to, but not including, `high`.
///
/// Calls `Rng::gen_range` on the generator that `rand::thread_rng` returns.
/// Trusted: for a non-empty half-open range `gen_range` returns a value that
/// lies inside it. Nothing more is claimed of the value, and two calls may
/// differ.
#[verifier::external_body]
pub(crate) fn roll_between(low: u8, high: u8) -> (r: u8)
    requires
        low < high,
    ensures
        low <= r < high,
{
    rand::thread_rng().gen_range(low..high)
}

/// Draws a position into a list of `len` entries.
///
/// Calls `Rng::gen_range` on the generator that `rand::thread_rng` returns.
/// Trusted: for a non-empty range `0..len` the value returned is below `len`.
#[verifier::external_body]
pub(crate) fn roll_index(len: usize) -> (i: usize)
    requires
        len > 0,
    ensures
        i < len,
{
    rand::thread_rng().gen_range(0..len)
}

} // verus!

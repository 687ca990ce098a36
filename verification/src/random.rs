//! The source of random numbers.

use rand::Rng;
use vstd::prelude::*;

verus! {

/// Draws an integer from the generator that `rand::thread_rng` gives, with
/// `rand::Rng::gen_range`. The crate documents the draw as uniform over
/// the half-open range `low..high`, and panics when `low >= high`; the
/// contract keeps that call out and claims only that the result lies in
/// the range.
#[verifier::external_body]
pub(crate) fn gen_range(low: i32, high: i32) -> (r: i32)
    requires
        low < high,
    ensures
        low <= r < high,
{
    rand::thread_rng().gen_range(low, high)
}

} // verus!

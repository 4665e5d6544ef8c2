//! The random source behind a ball's launch direction.

use vstd::prelude::*;

verus! {

/// Draws a number from the global generator of the `quad-rand` crate by
/// calling `quad_rand::gen_range` at type `i32`.
///
/// Trusted, not proved: for `low <= high` the number drawn lies between
/// `low` and `high`, both included. `gen_range` scales a 32-bit draw into
/// `[low, high)` in floating point and converts the result back to `i32` by
/// rounding towards zero, which for bounds that are not positive can land on
/// `high` itself. Which number comes out depends on the generator's state,
/// so nothing more is claimed.
#[verifier::external_body]
pub(crate) fn random_between(low: i32, high: i32) -> (r: i32)
    requires
        low <= high,
    ensures
        low <= r <= high,
{
    quad_rand::gen_range(low, high)
}

} // verus!

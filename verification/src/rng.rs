//! The one source of chance.

use vstd::prelude::*;

verus! {

/// The widest range that [`random_between`] draws from.
pub const RANDOM_SPAN_LIMIT: u32 = 1_048_576;

/// Draws from the process-wide generator of `quad_rand` by its `gen_range`.
///
/// `gen_range` scales a 32-bit draw, divided by 2^32, to the span between
/// `low` and `high` in double precision, adds `low` and cuts the fraction
/// off. With both bounds at most 2^20 every step of that is exact, so the
/// result lies in `low..high`, or is `low` where the range is empty. Which
/// number comes is up to the generator's state and is not stated.
#[verifier::external_body]
pub(crate) fn random_between(low: u32, high: u32) -> (r: u32)
    requires
        low <= high <= RANDOM_SPAN_LIMIT,
    ensures
        low <= r <= high,
        low < high ==> r < high,
{
    quad_rand::gen_range(low, high)
}

} // verus!

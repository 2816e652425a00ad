//! The random draws that players make, each behind one call of the `rand` crate.
use vstd::prelude::*;

use rand::distr::weighted::WeightedIndex;

verus! {

/// A weighted index distribution of the `rand` crate over `i64` weights, held opaque.
#[verifier::external_body]
pub struct WeightedChoice {
    dist: WeightedIndex<i64>,
}

/// The weights that a weighted choice was made from.
pub uninterp spec fn weights_of(d: WeightedChoice) -> Seq<i64>;

/// The sum of a sequence of weights.
pub open spec fn weight_sum(w: Seq<i64>) -> int
    decreases w.len(),
{
    if w.len() == 0 {
        0
    } else {
        weight_sum(w.drop_last()) + w.last()
    }
}

/// Makes a distribution that draws an index with a chance proportional to its weight.
///
/// Calls `WeightedIndex::new`, which fails on no weights, on a negative weight, when the
/// running sum overflows, and when all weights are zero, and otherwise holds the weights.
/// The outside error is returned as `None`.
#[verifier::external_body]
pub fn weighted_index(weights: &Vec<i64>) -> (r: Option<WeightedChoice>)
    ensures
        r is Some <==> (weights@.len() > 0 && (forall|i: int|
            0 <= i < weights@.len() ==> #[trigger] weights@[i] >= 0) && 0 < weight_sum(weights@)
            <= i64::MAX),
        r matches Some(d) ==> weights_of(d) == weights@,
{
    match WeightedIndex::new(weights) {
        Ok(dist) => Some(WeightedChoice { dist }),
        Err(_) => None,
    }
}

/// Draws an index from a weighted index distribution.
///
/// Calls `Distribution::sample` with the thread's random number generator; the index drawn
/// is always one of a weight above zero.
#[verifier::external_body]
pub fn weighted_sample(d: &WeightedChoice) -> (r: usize)
    ensures
        r < weights_of(*d).len(),
        weights_of(*d)[r as int] > 0,
{
    rand::distr::Distribution::sample(&d.dist, &mut rand::rng())
}

/// Draws `true` with a chance of `numerator` in `denominator`.
///
/// Calls `rand::random_ratio`, which panics when `denominator` is zero or `numerator` is
/// larger (ruled out here), and whose documentation guarantees `true` when the two are
/// equal and `false` when `numerator` is zero. Nothing else is claimed of the draw.
#[verifier::external_body]
pub fn chance(numerator: u32, denominator: u32) -> (r: bool)
    requires
        0 < denominator,
        numerator <= denominator,
    ensures
        numerator == denominator ==> r,
        numerator == 0 ==> !r,
{
    rand::random_ratio(numerator, denominator)
}

/// Draws a number from `low` (included) to `high` (excluded).
///
/// Calls `rand::random_range` on `low..high`, which panics on an empty range (ruled out
/// here) and otherwise returns a value of the range.
#[verifier::external_body]
pub fn number_between(low: usize, high: usize) -> (r: usize)
    requires
        low < high,
    ensures
        low <= r < high,
{
    rand::random_range(low..high)
}

/// Draws a boolean.
///
/// Calls `rand::random::<bool>()`; nothing is claimed of the result.
#[verifier::external_body]
pub fn coin() -> (r: bool) {
    rand::random::<bool>()
}

/// Draws a 32-bit integer.
///
/// Calls `rand::random::<i32>()`; nothing is claimed of the result.
#[verifier::external_body]
pub fn any_i32() -> (r: i32) {
    rand::random::<i32>()
}

} // verus!

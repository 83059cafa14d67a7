use vstd::prelude::*;

verus! {

/// Sum of a sequence of weights, as a mathematical integer.
pub open spec fn weight_sum(weights: Seq<u32>) -> int
    decreases weights.len(),
{
    if weights.len() == 0 {
        0
    } else {
        weight_sum(weights.drop_last()) + weights.last()
    }
}

/// Draws an index with probability proportional to its weight, from the
/// thread-local generator (`rand::distr::weighted::WeightedIndex::new` followed
/// by `Distribution::sample` with `rand::rng()`).
///
/// Claimed of the outside code: construction fails exactly when the weights are
/// empty, all zero, or their total overflows `u32`; a successful draw is an index
/// whose weight is positive. Which index comes out is chance and is not stated.
#[verifier::external_body]
pub(crate) fn draw_weighted_index(weights: &Vec<u32>) -> (drawn: Option<usize>)
    ensures
        drawn is Some <==> (weights@.len() > 0 && 0 < weight_sum(weights@) <= u32::MAX),
        drawn matches Some(i) ==> i < weights@.len() && weights@[i as int] > 0,
{
    match rand::distr::weighted::WeightedIndex::new(weights.iter().copied()) {
        Ok(distribution) => Some(rand::distr::Distribution::sample(&distribution, &mut rand::rng())),
        Err(_) => None,
    }
}

/// Draws an integer uniformly from `low..=high` (`rand::random_range`).
///
/// Claimed of the outside code: the result lies in the inclusive range; which
/// value comes out is chance. `random_range` panics on an empty range, which
/// `requires` rules out.
#[verifier::external_body]
pub(crate) fn draw_in_range(low: u32, high: u32) -> (drawn: u32)
    requires
        low <= high,
    ensures
        low <= drawn <= high,
{
    rand::random_range(low..=high)
}

/// Draws a fair coin (`rand::random::<bool>`). Nothing is claimed of the result.
#[verifier::external_body]
pub(crate) fn draw_coin() -> (heads: bool) {
    rand::random::<bool>()
}

} // verus!

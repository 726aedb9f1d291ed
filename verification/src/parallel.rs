//! Scoring of many candidates at once on a pool of worker threads.

use rayon::iter::{IntoParallelRefIterator, ParallelIterator};
use vstd::prelude::*;

verus! {

/// Applies `score` to every item on rayon's thread pool and gathers the
/// results, through `par_iter`, `map` and `collect` of `rayon::iter`.
/// Trusted: `score` is called once on each item, and the result holds what
/// it returned for the items in their order, as rayon documents for
/// collecting an indexed parallel iterator into a `Vec`.
#[verifier::external_body]
pub(crate) fn score_in_parallel<T: Sync, F: Fn(&T) -> u64 + Sync + Send>(
    items: &Vec<T>,
    score: F,
) -> (scores: Vec<u64>)
    requires
        forall|i: int| 0 <= i < items@.len() ==> call_requires(score, (&#[trigger] items@[i],)),
    ensures
        scores@.len() == items@.len(),
        forall|i: int|
            0 <= i < items@.len() ==> call_ensures(score, (&items@[i],), #[trigger] scores@[i]),
{
    items.par_iter().map(score).collect()
}

} // verus!

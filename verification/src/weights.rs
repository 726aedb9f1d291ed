//! The weights of a query's fields: each field weighs as much as its share
//! of the query's characters.

use vstd::prelude::*;
use vstd::string::*;
use crate::error::Error;
use crate::feature::{char_count, slice_view, text_as_str, IssueFeatures, IssueFeaturesView};

verus! {

/// Counts the characters of an optional text.
pub fn count_chars(text: Option<&str>) -> (count: usize)
    ensures
        count == char_count(slice_view(text)),
{
    match text {
        Some(s) => s.unicode_len(),
        None => 0,
    }
}

/// The weights of the four fields of a query, as fractions with a common
/// denominator: the weight of a field is its entry divided by `total`.
#[derive(Debug, Clone, Copy, PartialEq, Eq, Structural)]
pub struct FeatureWeights {
    pub operation: usize,
    pub phenomenon: usize,
    pub expected_behavior: usize,
    pub actual_behavior: usize,
    pub total: u128,
}

impl FeatureWeights {
    /// Whether the weights add up to one.
    pub open spec fn sums_to_one(self) -> bool {
        &&& self.total > 0
        &&& self.operation + self.phenomenon + self.expected_behavior + self.actual_behavior
            == self.total
    }

    /// Whether these are the weights of `query`: each numerator is the
    /// number of characters of its field, the denominator that of all
    /// fields.
    pub open spec fn belongs_to(self, query: IssueFeaturesView) -> bool {
        &&& self.operation == char_count(query.operation)
        &&& self.phenomenon == char_count(query.phenomenon)
        &&& self.expected_behavior == char_count(query.expected_behavior)
        &&& self.actual_behavior == char_count(query.actual_behavior)
        &&& self.total == query.char_mass()
    }
}

/// Derives the weights of a query from its character counts. A query
/// without any character has no weights.
pub fn get_feature_weights(source: &IssueFeatures) -> (weights: Result<FeatureWeights, Error>)
    ensures
        weights is Err <==> source@.char_mass() == 0,
        weights is Err ==> weights == Err::<FeatureWeights, Error>(Error::InvalidQuery),
        weights is Ok ==> weights->Ok_0.belongs_to(source@) && weights->Ok_0.sums_to_one(),
{
    let operation_chars: usize = count_chars(text_as_str(&source.operation));
    let phenomenon_chars: usize = count_chars(text_as_str(&source.phenomenon));
    let expected_behavior_chars: usize = count_chars(text_as_str(&source.expected_behavior));
    let actual_behavior_chars: usize = count_chars(text_as_str(&source.actual_behavior));
    let total_chars: u128 = operation_chars as u128 + phenomenon_chars as u128
        + expected_behavior_chars as u128 + actual_behavior_chars as u128;

    if total_chars == 0 {
        Err(Error::InvalidQuery)
    } else {
        Ok(
            FeatureWeights {
                operation: operation_chars,
                phenomenon: phenomenon_chars,
                expected_behavior: expected_behavior_chars,
                actual_behavior: actual_behavior_chars,
                total: total_chars,
            },
        )
    }
}

} // verus!

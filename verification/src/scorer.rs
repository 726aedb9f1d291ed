//! The similarity score of a candidate against a query: the similarities
//! of the fields that both hold, blended by the query's weights.

use vstd::prelude::*;
use crate::distance::{
    lemma_similarity_bounds, lemma_similarity_identical, normalized_similarity, similarity,
    SCORE_ONE,
};
use crate::error::Error;
use crate::feature::{char_count, text_view, IssueFeatures, IssueFeaturesView};
use crate::weights::{get_feature_weights, FeatureWeights};

verus! {

/// The similarity of one field: that of the two texts where both records
/// hold the field, zero where either lacks it.
pub open spec fn field_similarity(query: Option<Seq<char>>, candidate: Option<Seq<char>>) -> nat {
    match (query, candidate) {
        (Some(q), Some(c)) => similarity(q, c),
        _ => 0,
    }
}

/// The share of one field in a score, before the division by the query's
/// number of characters.
pub open spec fn field_share(query: Option<Seq<char>>, candidate: Option<Seq<char>>) -> nat {
    field_similarity(query, candidate) * char_count(query)
}

/// The score of `candidate` against `query`: each field's similarity times
/// the field's weight, summed and rounded down. A query without characters
/// has no weights; the function is 0 there.
pub open spec fn issue_score(query: IssueFeaturesView, candidate: IssueFeaturesView) -> nat {
    if query.char_mass() == 0 {
        0
    } else {
        ((field_share(query.operation, candidate.operation) + field_share(
            query.phenomenon,
            candidate.phenomenon,
        ) + field_share(query.expected_behavior, candidate.expected_behavior) + field_share(
            query.actual_behavior,
            candidate.actual_behavior,
        )) / query.char_mass()) as nat
    }
}

/// The share of a field is at most the field's number of characters times
/// the score 1.
pub proof fn lemma_field_share_bound(query: Option<Seq<char>>, candidate: Option<Seq<char>>)
    ensures
        field_share(query, candidate) <= SCORE_ONE * char_count(query),
{
    if query is Some && candidate is Some {
        lemma_similarity_bounds(query->0, candidate->0);
    }
    let s = field_similarity(query, candidate);
    let n = char_count(query);
    assert(s * n <= SCORE_ONE * n) by (nonlinear_arith)
        requires
            s <= SCORE_ONE,
    ;
}

/// A score lies between 0 and 1.
pub proof fn lemma_issue_score_bounds(query: IssueFeaturesView, candidate: IssueFeaturesView)
    ensures
        issue_score(query, candidate) <= SCORE_ONE,
{
    lemma_field_share_bound(query.operation, candidate.operation);
    lemma_field_share_bound(query.phenomenon, candidate.phenomenon);
    lemma_field_share_bound(query.expected_behavior, candidate.expected_behavior);
    lemma_field_share_bound(query.actual_behavior, candidate.actual_behavior);
    let mass = query.char_mass();
    let sum = field_share(query.operation, candidate.operation) + field_share(
        query.phenomenon,
        candidate.phenomenon,
    ) + field_share(query.expected_behavior, candidate.expected_behavior) + field_share(
        query.actual_behavior,
        candidate.actual_behavior,
    );
    if mass != 0 {
        assert(SCORE_ONE * char_count(query.operation) + SCORE_ONE * char_count(query.phenomenon)
            + SCORE_ONE * char_count(query.expected_behavior) + SCORE_ONE * char_count(
            query.actual_behavior,
        ) == SCORE_ONE * mass) by (nonlinear_arith)
            requires
                mass == char_count(query.operation) + char_count(query.phenomenon) + char_count(
                    query.expected_behavior,
                ) + char_count(query.actual_behavior),
        ;
        assert(sum / mass <= SCORE_ONE && sum / mass >= 0) by (nonlinear_arith)
            requires
                0 <= sum <= SCORE_ONE * mass,
                mass > 0,
        ;
    }
}

/// The score is the weighted sum of the field similarities divided by the
/// query's number of characters, rounded down: it falls short of the exact
/// quotient by less than one unit of the scale.
pub proof fn lemma_issue_score_rounds_down(query: IssueFeaturesView, candidate: IssueFeaturesView)
    requires
        query.char_mass() > 0,
    ensures
        issue_score(query, candidate) * query.char_mass() <= field_share(
            query.operation,
            candidate.operation,
        ) + field_share(query.phenomenon, candidate.phenomenon) + field_share(
            query.expected_behavior,
            candidate.expected_behavior,
        ) + field_share(query.actual_behavior, candidate.actual_behavior),
        field_share(query.operation, candidate.operation) + field_share(
            query.phenomenon,
            candidate.phenomenon,
        ) + field_share(query.expected_behavior, candidate.expected_behavior) + field_share(
            query.actual_behavior,
            candidate.actual_behavior,
        ) < (issue_score(query, candidate) + 1) * query.char_mass(),
{
    let mass = query.char_mass();
    let sum = field_share(query.operation, candidate.operation) + field_share(
        query.phenomenon,
        candidate.phenomenon,
    ) + field_share(query.expected_behavior, candidate.expected_behavior) + field_share(
        query.actual_behavior,
        candidate.actual_behavior,
    );
    assert((sum / mass) * mass <= sum < (sum / mass + 1) * mass) by (nonlinear_arith)
        requires
            mass > 0,
    ;
}

/// A candidate that holds every field of the query with the same text
/// scores 1, whatever else it holds.
pub proof fn lemma_identical_fields_score_one(
    query: IssueFeaturesView,
    candidate: IssueFeaturesView,
)
    requires
        query.char_mass() > 0,
        query.operation is Some ==> candidate.operation == query.operation,
        query.phenomenon is Some ==> candidate.phenomenon == query.phenomenon,
        query.expected_behavior is Some ==> candidate.expected_behavior == query.expected_behavior,
        query.actual_behavior is Some ==> candidate.actual_behavior == query.actual_behavior,
    ensures
        issue_score(query, candidate) == SCORE_ONE,
{
    lemma_full_share(query.operation, candidate.operation);
    lemma_full_share(query.phenomenon, candidate.phenomenon);
    lemma_full_share(query.expected_behavior, candidate.expected_behavior);
    lemma_full_share(query.actual_behavior, candidate.actual_behavior);
    let mass = query.char_mass();
    assert(SCORE_ONE * char_count(query.operation) + SCORE_ONE * char_count(query.phenomenon)
        + SCORE_ONE * char_count(query.expected_behavior) + SCORE_ONE * char_count(
        query.actual_behavior,
    ) == SCORE_ONE * mass) by (nonlinear_arith)
        requires
            mass == char_count(query.operation) + char_count(query.phenomenon) + char_count(
                query.expected_behavior,
            ) + char_count(query.actual_behavior),
    ;
    assert((SCORE_ONE * mass) / (mass as int) == SCORE_ONE) by (nonlinear_arith)
        requires
            mass > 0,
    ;
}

/// Where the candidate repeats the query's field, or the query lacks it,
/// the field's share is its full weight.
proof fn lemma_full_share(query: Option<Seq<char>>, candidate: Option<Seq<char>>)
    requires
        query is Some ==> candidate == query,
    ensures
        field_share(query, candidate) == SCORE_ONE * char_count(query),
{
    if query is Some {
        lemma_similarity_identical(query->0);
    }
    let n = char_count(query);
    // Where the query lacks the field, both sides are zero.
    assert(0 * n == SCORE_ONE * 0) by (nonlinear_arith);
}

/// A candidate that shares no field with the query scores 0.
pub proof fn lemma_disjoint_fields_score_zero(
    query: IssueFeaturesView,
    candidate: IssueFeaturesView,
)
    requires
        !(query.operation is Some && candidate.operation is Some),
        !(query.phenomenon is Some && candidate.phenomenon is Some),
        !(query.expected_behavior is Some && candidate.expected_behavior is Some),
        !(query.actual_behavior is Some && candidate.actual_behavior is Some),
    ensures
        issue_score(query, candidate) == 0,
{
    let mass = query.char_mass();
    assert(0 * char_count(query.operation) == 0) by (nonlinear_arith);
    assert(0 * char_count(query.phenomenon) == 0) by (nonlinear_arith);
    assert(0 * char_count(query.expected_behavior) == 0) by (nonlinear_arith);
    assert(0 * char_count(query.actual_behavior) == 0) by (nonlinear_arith);
    if mass != 0 {
        assert(0nat / mass == 0) by (nonlinear_arith)
            requires
                mass > 0,
        ;
    }
}

/// Scores one field: the similarity of the two texts where both are
/// present, zero otherwise.
pub fn field_score(query: &Option<String>, candidate: &Option<String>) -> (score: u64)
    ensures
        score == field_similarity(text_view(*query), text_view(*candidate)),
        score <= SCORE_ONE,
{
    match (query, candidate) {
        (Some(q), Some(c)) => normalized_similarity(q.as_str(), c.as_str()),
        _ => 0,
    }
}

/// One field's similarity times the field's weight.
pub(crate) fn weighted(score: u64, weight: usize) -> (share: u128)
    requires
        score <= SCORE_ONE,
    ensures
        share == score * weight,
        share <= SCORE_ONE * u64::MAX,
{
    assert(score * weight <= SCORE_ONE * u64::MAX) by (nonlinear_arith)
        requires
            score <= SCORE_ONE,
            weight <= u64::MAX,
    ;
    (score as u128) * (weight as u128)
}

/// Scores a candidate against a query whose weights are at hand.
pub fn score_features(
    query: &IssueFeatures,
    weights: &FeatureWeights,
    candidate: &IssueFeatures,
) -> (score: u64)
    requires
        weights.belongs_to(query@),
        weights.total > 0,
    ensures
        score == issue_score(query@, candidate@),
        score <= SCORE_ONE,
{
    let operation_share = weighted(
        field_score(&query.operation, &candidate.operation),
        weights.operation,
    );
    let phenomenon_share = weighted(
        field_score(&query.phenomenon, &candidate.phenomenon),
        weights.phenomenon,
    );
    let expected_behavior_share = weighted(
        field_score(&query.expected_behavior, &candidate.expected_behavior),
        weights.expected_behavior,
    );
    let actual_behavior_share = weighted(
        field_score(&query.actual_behavior, &candidate.actual_behavior),
        weights.actual_behavior,
    );
    proof {
        lemma_issue_score_bounds(query@, candidate@);
    }
    let sum: u128 = operation_share + phenomenon_share + expected_behavior_share
        + actual_behavior_share;
    (sum / weights.total) as u64
}

/// Scores a candidate against a query. A query without any character is
/// refused.
pub fn similarity_score(query: &IssueFeatures, candidate: &IssueFeatures) -> (score: Result<
    u64,
    Error,
>)
    ensures
        score is Err <==> query@.char_mass() == 0,
        score is Err ==> score == Err::<u64, Error>(Error::InvalidQuery),
        score is Ok ==> score->Ok_0 == issue_score(query@, candidate@) && score->Ok_0 <= SCORE_ONE,
{
    match get_feature_weights(query) {
        Ok(weights) => Ok(score_features(query, &weights, candidate)),
        Err(e) => Err(e),
    }
}

} // verus!

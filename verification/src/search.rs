//! The search for the issue records most similar to a query.

use vstd::prelude::*;
use crate::distance::SCORE_ONE;
use crate::error::Error;
use crate::feature::{IssueFeatures, IssueFeaturesRecord, IssueFeaturesView};
use crate::parallel::score_in_parallel;
use crate::ranking::{
    count_matches, is_ranking, lemma_rankings_agree, rank_matches, MATCH_THRESHOLD,
};
use crate::scorer::{issue_score, lemma_issue_score_bounds, score_features};
use crate::weights::get_feature_weights;

verus! {

/// An issue record that matched a query, with its score.
#[derive(Debug, PartialEq, Eq)]
pub struct SimilarIssueFeaturesRecord {
    pub issue_id: String,
    pub features: IssueFeatures,
    /// The similarity to the query, from 0 to `SCORE_ONE`; higher is more
    /// similar.
    pub score: u64,
}

impl Clone for SimilarIssueFeaturesRecord {
    fn clone(&self) -> (copy: Self)
        ensures
            copy == *self,
    {
        SimilarIssueFeaturesRecord {
            issue_id: self.issue_id.clone(),
            features: self.features.clone(),
            score: self.score,
        }
    }
}

/// The scores of all candidates against `query`, in the candidates' order.
pub open spec fn issue_scores(query: IssueFeaturesView, candidates: Seq<IssueFeaturesRecord>) -> Seq<
    u64,
> {
    Seq::new(candidates.len(), |i: int| issue_score(query, candidates[i].features@) as u64)
}

/// Whether `matches` are the candidates at the positions `picked`, each
/// with its id, its features and its score.
pub open spec fn are_picked_records(
    candidates: Seq<IssueFeaturesRecord>,
    scores: Seq<u64>,
    picked: Seq<usize>,
    matches: Seq<SimilarIssueFeaturesRecord>,
) -> bool {
    &&& matches.len() == picked.len()
    &&& forall|i: int|
        0 <= i < picked.len() ==> #[trigger] matches[i] == (SimilarIssueFeaturesRecord {
            issue_id: candidates[picked[i] as int].issue_id,
            features: candidates[picked[i] as int].features,
            score: scores[picked[i] as int],
        })
}

/// Whether `matches` answer the query: they are the `top_n` best matches
/// among the candidates, best first.
pub open spec fn is_issue_result(
    query: IssueFeaturesView,
    candidates: Seq<IssueFeaturesRecord>,
    top_n: nat,
    matches: Seq<SimilarIssueFeaturesRecord>,
) -> bool {
    exists|picked: Seq<usize>|
        {
            &&& is_ranking(issue_scores(query, candidates), top_n, picked)
            &&& #[trigger] are_picked_records(
                candidates,
                issue_scores(query, candidates),
                picked,
                matches,
            )
        }
}

/// What a search promises of its matches: they are the `top_n` best
/// matches, there are no more of them than asked for nor than there are
/// candidates above the threshold, each score is above the threshold and
/// at most 1, and the scores never rise.
pub open spec fn is_issue_answer(
    query: IssueFeaturesView,
    candidates: Seq<IssueFeaturesRecord>,
    top_n: nat,
    matches: Seq<SimilarIssueFeaturesRecord>,
) -> bool {
    &&& is_issue_result(query, candidates, top_n, matches)
    &&& matches.len() <= top_n
    &&& matches.len() <= count_matches(issue_scores(query, candidates))
    &&& forall|i: int|
        0 <= i < matches.len() ==> MATCH_THRESHOLD < (#[trigger] matches[i]).score <= SCORE_ONE
    &&& forall|i: int, j: int| 0 <= i < j < matches.len() ==> matches[i].score >= matches[j].score
}

/// Two answers to one query differ at most in the order among equal
/// scores: they are equally long and hold the same score at every rank.
pub proof fn lemma_issue_answers_agree(
    query: IssueFeaturesView,
    candidates: Seq<IssueFeaturesRecord>,
    top_n: nat,
    one: Seq<SimilarIssueFeaturesRecord>,
    other: Seq<SimilarIssueFeaturesRecord>,
)
    requires
        is_issue_result(query, candidates, top_n, one),
        is_issue_result(query, candidates, top_n, other),
    ensures
        one.len() == other.len(),
        forall|rank: int| 0 <= rank < one.len() ==> (#[trigger] one[rank]).score == other[rank].score,
{
    let scores = issue_scores(query, candidates);
    let picked_one = choose|picked: Seq<usize>|
        is_ranking(scores, top_n, picked) && #[trigger] are_picked_records(
            candidates,
            scores,
            picked,
            one,
        );
    let picked_other = choose|picked: Seq<usize>|
        is_ranking(scores, top_n, picked) && #[trigger] are_picked_records(
            candidates,
            scores,
            picked,
            other,
        );
    lemma_rankings_agree(scores, top_n, picked_one, picked_other);
    assert forall|rank: int| 0 <= rank < one.len() implies (#[trigger] one[rank]).score
        == other[rank].score by {
        assert(scores[picked_one[rank] as int] == scores[picked_other[rank] as int]);
    }
}

/// Builds the matches for the picked positions.
fn gather_records(candidates: &Vec<IssueFeaturesRecord>, scores: &Vec<u64>, picked: &Vec<usize>) -> (matches:
    Vec<SimilarIssueFeaturesRecord>)
    requires
        scores@.len() == candidates@.len(),
        forall|i: int| 0 <= i < picked@.len() ==> (#[trigger] picked@[i]) < candidates@.len(),
    ensures
        are_picked_records(candidates@, scores@, picked@, matches@),
{
    let mut matches: Vec<SimilarIssueFeaturesRecord> = Vec::new();
    let mut at: usize = 0;
    while at < picked.len()
        invariant
            at <= picked@.len(),
            scores@.len() == candidates@.len(),
            forall|i: int| 0 <= i < picked@.len() ==> (#[trigger] picked@[i]) < candidates@.len(),
            are_picked_records(candidates@, scores@, picked@.take(at as int), matches@),
        decreases picked@.len() - at,
    {
        let position: usize = picked[at];
        let candidate = &candidates[position];
        matches.push(
            SimilarIssueFeaturesRecord {
                issue_id: candidate.issue_id.clone(),
                features: candidate.features.clone(),
                score: scores[position],
            },
        );
        at = at + 1;
    }
    proof {
        assert(picked@.take(at as int) =~= picked@);
    }
    matches
}

/// Finds the records most similar to `features` among `candidates`.
///
/// The query's weights are derived once; a query without any character is
/// refused before any candidate is looked at. Every candidate is scored,
/// on a pool of worker threads; those that score above the threshold are
/// ordered by descending score and the first `top_n` are returned, each
/// with its id and its score. The order among equal scores is not
/// specified.
pub fn find_similar_records_in_parallel(
    features: &IssueFeatures,
    candidates: &Vec<IssueFeaturesRecord>,
    top_n: u32,
) -> (found: Result<Vec<SimilarIssueFeaturesRecord>, Error>)
    ensures
        found is Err <==> features@.char_mass() == 0,
        found is Err ==> found == Err::<Vec<SimilarIssueFeaturesRecord>, Error>(
            Error::InvalidQuery,
        ),
        found is Ok ==> is_issue_answer(features@, candidates@, top_n as nat, found->Ok_0@),
{
    let weights = match get_feature_weights(features) {
        Ok(weights) => weights,
        Err(e) => {
            return Err(e);
        },
    };
    let score_one = |candidate: &IssueFeaturesRecord| -> (score: u64)
        ensures
            score == issue_score(features@, candidate.features@),
        { score_features(features, &weights, &candidate.features) };
    let scores = score_in_parallel(candidates, score_one);
    proof {
        assert forall|i: int| 0 <= i < candidates@.len() implies scores@[i] == issue_scores(
            features@,
            candidates@,
        )[i] by {
            lemma_issue_score_bounds(features@, candidates@[i].features@);
        }
        assert(scores@ =~= issue_scores(features@, candidates@));
    }
    let picked = rank_matches(&scores, top_n);
    let matches = gather_records(candidates, &scores, &picked);
    proof {
        assert forall|i: int| 0 <= i < matches@.len() implies MATCH_THRESHOLD < (
        #[trigger] matches@[i]).score <= SCORE_ONE by {
            lemma_issue_score_bounds(features@, candidates@[picked@[i] as int].features@);
        }
    }
    Ok(matches)
}

} // verus!

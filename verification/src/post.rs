//! Posts: a title and a content, ranked by similarity to a query post.

use std::time::Instant;
use vstd::prelude::*;
use vstd::string::*;
use crate::clock::millis_since;
use crate::distance::{lemma_similarity_identical, normalized_similarity, SCORE_ONE};
use crate::error::Error;
use crate::parallel::score_in_parallel;
use crate::ranking::{
    count_matches, is_ranking, lemma_rankings_agree, rank_matches, MATCH_THRESHOLD,
};
use crate::scorer::{field_share, lemma_field_share_bound, weighted};

verus! {

/// A post.
#[derive(Debug)]
pub struct PostData {
    pub title: String,
    pub content: String,
}

/// What a post holds, as character sequences.
pub struct PostDataView {
    pub title: Seq<char>,
    pub content: Seq<char>,
}

impl PostDataView {
    /// The number of characters of title and content together.
    pub open spec fn char_mass(self) -> nat {
        self.title.len() + self.content.len()
    }
}

impl View for PostData {
    type V = PostDataView;

    open spec fn view(&self) -> PostDataView {
        PostDataView { title: self.title@, content: self.content@ }
    }
}

impl Clone for PostData {
    fn clone(&self) -> (copy: Self)
        ensures
            copy == *self,
    {
        PostData { title: self.title.clone(), content: self.content.clone() }
    }
}

/// A post that matched a query, with its score.
#[derive(Debug)]
pub struct Match {
    pub target: PostData,
    /// The similarity to the query, from 0 to `SCORE_ONE`.
    pub score: u64,
}

impl Clone for Match {
    fn clone(&self) -> (copy: Self)
        ensures
            copy == *self,
    {
        Match { target: self.target.clone(), score: self.score }
    }
}

/// The answer to a query: the matches, best first, and a diagnostic.
#[derive(Debug)]
pub struct FindTopNResult {
    pub matches: Vec<Match>,
    /// The milliseconds that the search took. It has no bearing on the
    /// matches.
    pub process_time: i64,
}

impl Clone for FindTopNResult {
    fn clone(&self) -> (copy: Self)
        ensures
            copy.matches@ == self.matches@,
            copy.process_time == self.process_time,
    {
        let mut matches: Vec<Match> = Vec::new();
        let mut at: usize = 0;
        while at < self.matches.len()
            invariant
                at <= self.matches@.len(),
                matches@ == self.matches@.take(at as int),
            decreases self.matches@.len() - at,
        {
            matches.push(self.matches[at].clone());
            assert(self.matches@.take(at + 1) =~= self.matches@.take(at as int).push(
                self.matches@[at as int],
            ));
            at = at + 1;
        }
        assert(self.matches@.take(at as int) =~= self.matches@);
        FindTopNResult { matches, process_time: self.process_time }
    }
}

/// The weights of title and content of a query post, as fractions with a
/// common denominator.
#[derive(Debug, Clone, Copy, PartialEq, Eq, Structural)]
pub struct PostWeights {
    pub title: usize,
    pub content: usize,
    pub total: u128,
}

impl PostWeights {
    /// Whether the weights add up to one.
    pub open spec fn sums_to_one(self) -> bool {
        self.total > 0 && self.title + self.content == self.total
    }

    /// Whether these are the weights of `query`.
    pub open spec fn belongs_to(self, query: PostDataView) -> bool {
        &&& self.title == query.title.len()
        &&& self.content == query.content.len()
        &&& self.total == query.char_mass()
    }
}

/// The score of `candidate` against `query`: the similarities of the
/// titles and of the contents, each times its weight, summed and rounded
/// down. A query without characters has no weights; the function is 0
/// there.
pub open spec fn post_score(query: PostDataView, candidate: PostDataView) -> nat {
    if query.char_mass() == 0 {
        0
    } else {
        ((field_share(Some(query.title), Some(candidate.title)) + field_share(
            Some(query.content),
            Some(candidate.content),
        )) / query.char_mass()) as nat
    }
}

/// A score lies between 0 and 1.
pub proof fn lemma_post_score_bounds(query: PostDataView, candidate: PostDataView)
    ensures
        post_score(query, candidate) <= SCORE_ONE,
{
    lemma_field_share_bound(Some(query.title), Some(candidate.title));
    lemma_field_share_bound(Some(query.content), Some(candidate.content));
    let mass = query.char_mass();
    let sum = field_share(Some(query.title), Some(candidate.title)) + field_share(
        Some(query.content),
        Some(candidate.content),
    );
    if mass != 0 {
        assert(SCORE_ONE * query.title.len() + SCORE_ONE * query.content.len() == SCORE_ONE
            * mass) by (nonlinear_arith)
            requires
                mass == query.title.len() + query.content.len(),
        ;
        assert(sum / mass <= SCORE_ONE && sum / mass >= 0) by (nonlinear_arith)
            requires
                0 <= sum <= SCORE_ONE * mass,
                mass > 0,
        ;
    }
}

/// The score is the weighted sum of the two similarities divided by the
/// query's number of characters, rounded down: it falls short of the exact
/// quotient by less than one unit of the scale.
pub proof fn lemma_post_score_rounds_down(query: PostDataView, candidate: PostDataView)
    requires
        query.char_mass() > 0,
    ensures
        post_score(query, candidate) * query.char_mass() <= field_share(
            Some(query.title),
            Some(candidate.title),
        ) + field_share(Some(query.content), Some(candidate.content)),
        field_share(Some(query.title), Some(candidate.title)) + field_share(
            Some(query.content),
            Some(candidate.content),
        ) < (post_score(query, candidate) + 1) * query.char_mass(),
{
    let mass = query.char_mass();
    let sum = field_share(Some(query.title), Some(candidate.title)) + field_share(
        Some(query.content),
        Some(candidate.content),
    );
    assert((sum / mass) * mass <= sum < (sum / mass + 1) * mass) by (nonlinear_arith)
        requires
            mass > 0,
    ;
}

/// A candidate with the title and the content of the query scores 1.
pub proof fn lemma_identical_post_scores_one(query: PostDataView)
    requires
        query.char_mass() > 0,
    ensures
        post_score(query, query) == SCORE_ONE,
{
    lemma_similarity_identical(query.title);
    lemma_similarity_identical(query.content);
    let mass = query.char_mass();
    assert(SCORE_ONE * query.title.len() + SCORE_ONE * query.content.len() == SCORE_ONE * mass)
        by (nonlinear_arith)
        requires
            mass == query.title.len() + query.content.len(),
    ;
    assert((SCORE_ONE * mass) / (mass as int) == SCORE_ONE) by (nonlinear_arith)
        requires
            mass > 0,
    ;
}

/// The scores of all candidates against `query`, in the candidates' order.
pub open spec fn post_scores(query: PostDataView, candidates: Seq<PostData>) -> Seq<u64> {
    Seq::new(candidates.len(), |i: int| post_score(query, candidates[i]@) as u64)
}

/// Whether `matches` are the candidates at the positions `picked`, each
/// with its score.
pub open spec fn are_picked_posts(
    candidates: Seq<PostData>,
    scores: Seq<u64>,
    picked: Seq<usize>,
    matches: Seq<Match>,
) -> bool {
    &&& matches.len() == picked.len()
    &&& forall|i: int|
        0 <= i < picked.len() ==> #[trigger] matches[i] == (Match {
            target: candidates[picked[i] as int],
            score: scores[picked[i] as int],
        })
}

/// Whether `matches` answer the query: they are the `top_n` best matches
/// among the candidates, best first.
pub open spec fn is_post_result(
    query: PostDataView,
    candidates: Seq<PostData>,
    top_n: nat,
    matches: Seq<Match>,
) -> bool {
    exists|picked: Seq<usize>|
        {
            &&& is_ranking(post_scores(query, candidates), top_n, picked)
            &&& #[trigger] are_picked_posts(
                candidates,
                post_scores(query, candidates),
                picked,
                matches,
            )
        }
}

/// What every search promises of its matches: they are the `top_n` best
/// matches, there are no more of them than asked for nor than there are
/// candidates above the threshold, each score is above the threshold and
/// at most 1, and the scores never rise.
pub open spec fn is_post_answer(
    query: PostDataView,
    candidates: Seq<PostData>,
    top_n: nat,
    matches: Seq<Match>,
) -> bool {
    &&& is_post_result(query, candidates, top_n, matches)
    &&& matches.len() <= top_n
    &&& matches.len() <= count_matches(post_scores(query, candidates))
    &&& forall|i: int|
        0 <= i < matches.len() ==> MATCH_THRESHOLD < (#[trigger] matches[i]).score <= SCORE_ONE
    &&& forall|i: int, j: int| 0 <= i < j < matches.len() ==> matches[i].score >= matches[j].score
}

/// Two answers to one query differ at most in the order among equal
/// scores: they are equally long and hold the same score at every rank.
/// So a search on worker threads answers as a search on one thread does.
pub proof fn lemma_post_answers_agree(
    query: PostDataView,
    candidates: Seq<PostData>,
    top_n: nat,
    one: Seq<Match>,
    other: Seq<Match>,
)
    requires
        is_post_result(query, candidates, top_n, one),
        is_post_result(query, candidates, top_n, other),
    ensures
        one.len() == other.len(),
        forall|rank: int| 0 <= rank < one.len() ==> (#[trigger] one[rank]).score == other[rank].score,
{
    let scores = post_scores(query, candidates);
    let picked_one = choose|picked: Seq<usize>|
        is_ranking(scores, top_n, picked) && #[trigger] are_picked_posts(
            candidates,
            scores,
            picked,
            one,
        );
    let picked_other = choose|picked: Seq<usize>|
        is_ranking(scores, top_n, picked) && #[trigger] are_picked_posts(
            candidates,
            scores,
            picked,
            other,
        );
    lemma_rankings_agree(scores, top_n, picked_one, picked_other);
    assert forall|rank: int| 0 <= rank < one.len() implies (#[trigger] one[rank]).score
        == other[rank].score by {
        assert(scores[picked_one[rank] as int] == scores[picked_other[rank] as int]);
    }
}

/// Derives the weights of a query post from its character counts. A query
/// without any character has no weights.
pub fn get_weights(source: &PostData) -> (weights: Result<PostWeights, Error>)
    ensures
        weights is Err <==> source@.char_mass() == 0,
        weights is Err ==> weights == Err::<PostWeights, Error>(Error::InvalidQuery),
        weights is Ok ==> weights->Ok_0.belongs_to(source@) && weights->Ok_0.sums_to_one(),
{
    let title_chars: usize = source.title.as_str().unicode_len();
    let content_chars: usize = source.content.as_str().unicode_len();
    let total_chars: u128 = title_chars as u128 + content_chars as u128;

    if total_chars == 0 {
        Err(Error::InvalidQuery)
    } else {
        Ok(PostWeights { title: title_chars, content: content_chars, total: total_chars })
    }
}

/// Scores a candidate against a query post whose weights are at hand.
pub fn score_post(source: &PostData, weights: &PostWeights, candidate: &PostData) -> (score: u64)
    requires
        weights.belongs_to(source@),
        weights.total > 0,
    ensures
        score == post_score(source@, candidate@),
        score <= SCORE_ONE,
{
    let title_score = weighted(
        normalized_similarity(source.title.as_str(), candidate.title.as_str()),
        weights.title,
    );
    let content_score = weighted(
        normalized_similarity(source.content.as_str(), candidate.content.as_str()),
        weights.content,
    );
    proof {
        lemma_post_score_bounds(source@, candidate@);
    }
    ((title_score + content_score) / weights.total) as u64
}

/// Builds the matches for the picked positions.
fn gather_posts(candidates: &Vec<PostData>, scores: &Vec<u64>, picked: &Vec<usize>) -> (matches:
    Vec<Match>)
    requires
        scores@.len() == candidates@.len(),
        forall|i: int| 0 <= i < picked@.len() ==> (#[trigger] picked@[i]) < candidates@.len(),
    ensures
        are_picked_posts(candidates@, scores@, picked@, matches@),
{
    let mut matches: Vec<Match> = Vec::new();
    let mut at: usize = 0;
    while at < picked.len()
        invariant
            at <= picked@.len(),
            scores@.len() == candidates@.len(),
            forall|i: int| 0 <= i < picked@.len() ==> (#[trigger] picked@[i]) < candidates@.len(),
            are_picked_posts(candidates@, scores@, picked@.take(at as int), matches@),
        decreases picked@.len() - at,
    {
        let position: usize = picked[at];
        matches.push(Match { target: candidates[position].clone(), score: scores[position] });
        at = at + 1;
    }
    proof {
        assert(picked@.take(at as int) =~= picked@);
    }
    matches
}

/// Ranks the candidates by their scores and builds the matches.
fn select_posts(
    source: &PostData,
    candidates: &Vec<PostData>,
    scores: &Vec<u64>,
    top_n: u32,
) -> (matches: Vec<Match>)
    requires
        source@.char_mass() > 0,
        scores@ == post_scores(source@, candidates@),
    ensures
        is_post_answer(source@, candidates@, top_n as nat, matches@),
{
    let picked = rank_matches(scores, top_n);
    let matches = gather_posts(candidates, scores, &picked);
    proof {
        assert forall|i: int| 0 <= i < matches@.len() implies MATCH_THRESHOLD < (
        #[trigger] matches@[i]).score <= SCORE_ONE by {
            lemma_post_score_bounds(source@, candidates@[picked@[i] as int]@);
        }
    }
    matches
}

/// Finds the posts most similar to `source` among `candidates`, scoring
/// one candidate after the other.
///
/// The query's weights are derived once; a query without any character is
/// refused before any candidate is looked at. The candidates that score
/// above the threshold are ordered by descending score and the first
/// `top_n` are returned. The order among equal scores is not specified.
pub fn find_similar_posts_native(source: PostData, candidates: Vec<PostData>, top_n: u32) -> (found:
    Result<FindTopNResult, Error>)
    ensures
        found is Err <==> source@.char_mass() == 0,
        found is Err ==> found == Err::<FindTopNResult, Error>(Error::InvalidQuery),
        found is Ok ==> is_post_answer(
            source@,
            candidates@,
            top_n as nat,
            found->Ok_0.matches@,
        ),
        found is Ok ==> found->Ok_0.process_time >= 0,
{
    let start = Instant::now();
    let weights = match get_weights(&source) {
        Ok(weights) => weights,
        Err(e) => {
            return Err(e);
        },
    };
    let mut scores: Vec<u64> = Vec::new();
    let mut at: usize = 0;
    while at < candidates.len()
        invariant
            at <= candidates@.len(),
            weights.belongs_to(source@),
            weights.total > 0,
            scores@.len() == at,
            forall|i: int|
                0 <= i < at ==> #[trigger] scores@[i] == post_score(source@, candidates@[i]@),
        decreases candidates@.len() - at,
    {
        let score = score_post(&source, &weights, &candidates[at]);
        scores.push(score);
        at = at + 1;
    }
    proof {
        assert(scores@ =~= post_scores(source@, candidates@));
    }
    let matches = select_posts(&source, &candidates, &scores, top_n);
    let process_time = millis_since(&start);
    Ok(FindTopNResult { matches, process_time })
}

/// Finds the posts most similar to `source` among `candidates`, scoring
/// the candidates on a pool of worker threads. The answer holds the same
/// matches as that of `find_similar_posts_native`.
pub fn find_similar_posts_native_parallel(
    source: PostData,
    candidates: Vec<PostData>,
    top_n: u32,
) -> (found: Result<FindTopNResult, Error>)
    ensures
        found is Err <==> source@.char_mass() == 0,
        found is Err ==> found == Err::<FindTopNResult, Error>(Error::InvalidQuery),
        found is Ok ==> is_post_answer(
            source@,
            candidates@,
            top_n as nat,
            found->Ok_0.matches@,
        ),
        found is Ok ==> found->Ok_0.process_time >= 0,
{
    do_find_similar_posts_native_parallel(&source, &candidates, top_n)
}

/// The parallel search on borrowed arguments.
pub fn do_find_similar_posts_native_parallel(
    source: &PostData,
    candidates: &Vec<PostData>,
    top_n: u32,
) -> (found: Result<FindTopNResult, Error>)
    ensures
        found is Err <==> source@.char_mass() == 0,
        found is Err ==> found == Err::<FindTopNResult, Error>(Error::InvalidQuery),
        found is Ok ==> is_post_answer(
            source@,
            candidates@,
            top_n as nat,
            found->Ok_0.matches@,
        ),
        found is Ok ==> found->Ok_0.process_time >= 0,
{
    let start = Instant::now();
    let weights = match get_weights(source) {
        Ok(weights) => weights,
        Err(e) => {
            return Err(e);
        },
    };
    let score_one = |candidate: &PostData| -> (score: u64)
        ensures
            score == post_score(source@, candidate@),
        { score_post(source, &weights, candidate) };
    let scores = score_in_parallel(candidates, score_one);
    proof {
        assert forall|i: int| 0 <= i < candidates@.len() implies scores@[i] == post_scores(
            source@,
            candidates@,
        )[i] by {
            lemma_post_score_bounds(source@, candidates@[i]@);
        }
        assert(scores@ =~= post_scores(source@, candidates@));
    }
    let matches = select_posts(source, candidates, &scores, top_n);
    let process_time = millis_since(&start);
    Ok(FindTopNResult { matches, process_time })
}

/// A search that was asked for and is yet to run: the query, the
/// candidates and the number of matches wanted.
pub struct AsyncFindSimilarPosts {
    source: PostData,
    candidates: Vec<PostData>,
    top_n: u32,
}

impl AsyncFindSimilarPosts {
    /// The query of the search.
    pub closed spec fn source(&self) -> PostData {
        self.source
    }

    /// The candidates of the search.
    pub closed spec fn candidates(&self) -> Seq<PostData> {
        self.candidates@
    }

    /// The number of matches wanted.
    pub closed spec fn top_n(&self) -> u32 {
        self.top_n
    }

    /// Runs the search. It neither changes the task nor depends on
    /// anything but the task.
    pub fn compute(&mut self) -> (found: Result<FindTopNResult, Error>)
        ensures
            *final(self) == *old(self),
            found is Err <==> old(self).source()@.char_mass() == 0,
            found is Err ==> found == Err::<FindTopNResult, Error>(Error::InvalidQuery),
            found is Ok ==> is_post_answer(
                old(self).source()@,
                old(self).candidates(),
                old(self).top_n() as nat,
                found->Ok_0.matches@,
            ),
            found is Ok ==> found->Ok_0.process_time >= 0,
    {
        do_find_similar_posts_native_parallel(&self.source, &self.candidates, self.top_n)
    }
}

/// Prepares a search without running it: the caller hands the task to a
/// worker and goes on.
pub fn find_similar_posts_native_async(
    source: PostData,
    candidates: Vec<PostData>,
    top_n: u32,
) -> (task: AsyncFindSimilarPosts)
    ensures
        task.source() == source,
        task.candidates() == candidates@,
        task.top_n() == top_n,
{
    AsyncFindSimilarPosts { source, candidates, top_n }
}

} // verus!

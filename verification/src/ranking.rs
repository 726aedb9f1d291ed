//! Selection of the best matches: candidates whose score passes the
//! relevance threshold, ordered by descending score, cut to a requested
//! number.
//!
//! The functions here work on the scores alone and name candidates by their
//! position, so they serve every shape of record.

use vstd::prelude::*;
use vstd::seq_lib::*;
use vstd::set_lib::*;

verus! {

/// A candidate is a match when its score is strictly above this value,
/// which stands for 0.5.
pub const MATCH_THRESHOLD: u64 = 500_000_000;

/// Whether a score passes the relevance threshold.
///
/// The score that is tested is the fixed-point one. It was rounded down
/// twice, once when each field's similarity was put on the scale and once
/// when the weighted sum was divided, so it never exceeds the exact score
/// and falls short of it by less than two units of the scale. No candidate
/// passes whose exact score is one half or less. A candidate whose exact
/// score is above one half by less than two units of the scale, that is by
/// less than 0.000000002, may fail to pass.
pub open spec fn is_match(score: u64) -> bool {
    score > MATCH_THRESHOLD
}

/// The number of scores that pass the relevance threshold.
pub open spec fn count_matches(scores: Seq<u64>) -> nat
    decreases scores.len(),
{
    if scores.len() == 0 {
        0
    } else {
        count_matches(scores.drop_last()) + if is_match(scores.last()) {
            1nat
        } else {
            0nat
        }
    }
}

/// Whether the positions in `order` are in range and their scores never
/// rise from one to the next.
pub open spec fn is_descending(scores: Seq<u64>, order: Seq<usize>) -> bool {
    &&& forall|i: int| 0 <= i < order.len() ==> (#[trigger] order[i]) < scores.len()
    &&& forall|i: int, j: int|
        0 <= i < j < order.len() ==> scores[order[i] as int] >= scores[order[j] as int]
}

/// Whether `picked` lists the positions of the `top_n` best matches among
/// `scores`, best first: every picked position is a match, none occurs
/// twice, the scores never rise, as many are picked as `top_n` and the
/// number of matches allow, and no match that was left out scores higher
/// than a picked one. The order among equal scores is left open.
pub open spec fn is_ranking(scores: Seq<u64>, top_n: nat, picked: Seq<usize>) -> bool {
    &&& is_descending(scores, picked)
    &&& picked.no_duplicates()
    &&& forall|i: int| 0 <= i < picked.len() ==> is_match(#[trigger] scores[picked[i] as int])
    &&& picked.len() == if top_n <= count_matches(scores) {
        top_n
    } else {
        count_matches(scores)
    }
    &&& forall|i: int, k: usize|
        #![trigger picked[i], scores[k as int]]
        0 <= i < picked.len() && k < scores.len() && is_match(scores[k as int])
            && !picked.contains(k) ==> scores[picked[i] as int] >= scores[k as int]
}

/// More distinct numbers than `bound` cannot all lie below `bound`.
proof fn lemma_pigeonhole(places: Seq<int>, bound: int)
    requires
        0 <= bound,
        places.no_duplicates(),
        forall|k: int| 0 <= k < places.len() ==> 0 <= #[trigger] places[k] < bound,
    ensures
        places.len() <= bound,
{
    if places.len() > 0 {
        assert(0 <= places[0] < bound);
        places.unique_seq_to_set();
        lemma_int_range(0, bound);
        assert(places.to_set().subset_of(set_int_range(0, bound))) by {
            assert forall|x: int| places.to_set().contains(x) implies set_int_range(
                0,
                bound,
            ).contains(x) by {
                let k = choose|k: int| 0 <= k < places.len() && places[k] == x;
                assert(0 <= places[k] < bound);
            }
        }
        lemma_len_subset(places.to_set(), set_int_range(0, bound));
    }
}

/// At no rank does one ranking hold a higher score than another ranking
/// of the same scores.
proof fn lemma_ranking_dominates(
    scores: Seq<u64>,
    top_n: nat,
    one: Seq<usize>,
    other: Seq<usize>,
    rank: int,
)
    requires
        is_ranking(scores, top_n, one),
        is_ranking(scores, top_n, other),
        0 <= rank < one.len(),
    ensures
        scores[one[rank] as int] <= scores[other[rank] as int],
{
    if scores[one[rank] as int] > scores[other[rank] as int] {
        // Each of the first `rank + 1` positions of `one` scores higher than
        // `other[rank]`, so it stands in `other` before `rank`.
        let place = |k: int| choose|j: int| 0 <= j < other.len() && other[j] == one[k];
        let places = Seq::new((rank + 1) as nat, place);
        assert forall|k: int| 0 <= k < places.len() implies 0 <= #[trigger] places[k] < rank by {
            assert(scores[one[k] as int] >= scores[one[rank] as int]);
            assert(is_match(scores[one[k] as int]));
            if !other.contains(one[k]) {
                assert(scores[other[rank] as int] >= scores[one[k] as int]);
            }
            let j = choose|j: int| 0 <= j < other.len() && other[j] == one[k];
            assert(other[j] == one[k]);
            if j >= rank {
                if j > rank {
                    assert(scores[other[rank] as int] >= scores[other[j] as int]);
                }
            }
        }
        assert forall|k: int, l: int|
            0 <= k < places.len() && 0 <= l < places.len() && k != l implies places[k]
            != places[l] by {
            assert(0 <= places[k] < rank);
            assert(0 <= places[l] < rank);
            assert(other[places[k]] == one[k]);
            assert(other[places[l]] == one[l]);
        }
        lemma_pigeonhole(places, rank);
    }
}

/// The contract of a ranking leaves nothing open but the order among
/// equal scores: two rankings of the same scores for the same number are
/// equally long and hold the same score at every rank.
pub proof fn lemma_rankings_agree(
    scores: Seq<u64>,
    top_n: nat,
    one: Seq<usize>,
    other: Seq<usize>,
)
    requires
        is_ranking(scores, top_n, one),
        is_ranking(scores, top_n, other),
    ensures
        one.len() == other.len(),
        forall|rank: int|
            0 <= rank < one.len() ==> scores[#[trigger] one[rank] as int] == scores[other[rank] as int],
{
    assert forall|rank: int| 0 <= rank < one.len() implies scores[#[trigger] one[rank] as int]
        == scores[other[rank] as int] by {
        lemma_ranking_dominates(scores, top_n, one, other, rank);
        lemma_ranking_dominates(scores, top_n, other, one, rank);
    }
}

/// The positions of all matches, in rising order.
fn collect_matches(scores: &Vec<u64>) -> (matched: Vec<usize>)
    ensures
        matched@.len() == count_matches(scores@),
        forall|i: int| 0 <= i < matched@.len() ==> (#[trigger] matched@[i]) < scores@.len(),
        forall|i: int| 0 <= i < matched@.len() ==> is_match(#[trigger] scores@[matched@[i] as int]),
        forall|i: int, j: int| 0 <= i < j < matched@.len() ==> matched@[i] < matched@[j],
        forall|k: usize|
            k < scores@.len() && is_match(#[trigger] scores@[k as int]) ==> matched@.contains(k),
{
    let mut matched: Vec<usize> = Vec::new();
    let mut at: usize = 0;
    while at < scores.len()
        invariant
            at <= scores@.len(),
            matched@.len() == count_matches(scores@.take(at as int)),
            forall|i: int| 0 <= i < matched@.len() ==> (#[trigger] matched@[i]) < at,
            forall|i: int|
                0 <= i < matched@.len() ==> is_match(#[trigger] scores@[matched@[i] as int]),
            forall|i: int, j: int| 0 <= i < j < matched@.len() ==> matched@[i] < matched@[j],
            forall|k: usize|
                k < at && is_match(#[trigger] scores@[k as int]) ==> matched@.contains(k),
        decreases scores@.len() - at,
    {
        let ghost before = matched@;
        proof {
            assert(scores@.take(at + 1).drop_last() =~= scores@.take(at as int));
        }
        if scores[at] > MATCH_THRESHOLD {
            matched.push(at);
            proof {
                assert(matched@[before.len() as int] == at);
                assert forall|k: usize|
                    k < at + 1 && is_match(#[trigger] scores@[k as int]) implies matched@.contains(
                    k,
                ) by {
                    if k < at {
                        let i = choose|i: int| 0 <= i < before.len() && before[i] == k;
                        assert(matched@[i] == k);
                    }
                }
            }
        }
        at = at + 1;
    }
    proof {
        assert(scores@.take(at as int) =~= scores@);
    }
    matched
}

/// Merges two descending runs of positions into one.
fn merge_runs(scores: &Vec<u64>, left: &Vec<usize>, right: &Vec<usize>) -> (merged: Vec<usize>)
    requires
        is_descending(scores@, left@),
        is_descending(scores@, right@),
    ensures
        is_descending(scores@, merged@),
        merged@.to_multiset() == left@.to_multiset().add(right@.to_multiset()),
{
    let mut merged: Vec<usize> = Vec::new();
    let mut i: usize = 0;
    let mut j: usize = 0;
    proof {
        assert(left@.take(0) =~= Seq::<usize>::empty());
        assert(right@.take(0) =~= Seq::<usize>::empty());
        assert(merged@.to_multiset() =~= left@.take(0).to_multiset().add(
            right@.take(0).to_multiset(),
        )) by {
            broadcast use group_to_multiset_ensures;

        }
    }
    while i < left.len() || j < right.len()
        invariant
            i <= left@.len(),
            j <= right@.len(),
            is_descending(scores@, left@),
            is_descending(scores@, right@),
            is_descending(scores@, merged@),
            merged@.to_multiset() == left@.take(i as int).to_multiset().add(
                right@.take(j as int).to_multiset(),
            ),
            forall|k: int, x: int|
                0 <= k < merged@.len() && i <= x < left@.len() ==> scores@[merged@[k] as int]
                    >= scores@[left@[x] as int],
            forall|k: int, x: int|
                0 <= k < merged@.len() && j <= x < right@.len() ==> scores@[merged@[k] as int]
                    >= scores@[right@[x] as int],
        decreases left@.len() - i + right@.len() - j,
    {
        let from_left: bool = if i == left.len() {
            false
        } else if j == right.len() {
            true
        } else {
            scores[left[i]] >= scores[right[j]]
        };
        if from_left {
            proof {
                assert(left@.take(i + 1) =~= left@.take(i as int).push(left@[i as int]));
                broadcast use group_to_multiset_ensures;

            }
            merged.push(left[i]);
            i = i + 1;
        } else {
            proof {
                assert(right@.take(j + 1) =~= right@.take(j as int).push(right@[j as int]));
                broadcast use group_to_multiset_ensures;

            }
            merged.push(right[j]);
            j = j + 1;
        }
    }
    proof {
        assert(left@.take(i as int) =~= left@);
        assert(right@.take(j as int) =~= right@);
    }
    merged
}

/// Sorts the positions `items[from..to]` by descending score.
fn sort_run(scores: &Vec<u64>, items: &Vec<usize>, from: usize, to: usize) -> (sorted: Vec<usize>)
    requires
        from <= to <= items@.len(),
        forall|i: int| 0 <= i < items@.len() ==> (#[trigger] items@[i]) < scores@.len(),
    ensures
        is_descending(scores@, sorted@),
        sorted@.to_multiset() == items@.subrange(from as int, to as int).to_multiset(),
    decreases to - from,
{
    if to - from <= 1 {
        let mut sorted: Vec<usize> = Vec::new();
        if to - from == 1 {
            sorted.push(items[from]);
        }
        proof {
            assert(sorted@ =~= items@.subrange(from as int, to as int));
        }
        sorted
    } else {
        let middle: usize = from + (to - from) / 2;
        let left = sort_run(scores, items, from, middle);
        let right = sort_run(scores, items, middle, to);
        proof {
            let first = items@.subrange(from as int, middle as int);
            let second = items@.subrange(middle as int, to as int);
            assert(items@.subrange(from as int, to as int) =~= first + second);
            lemma_multiset_commutative(first, second);
        }
        merge_runs(scores, &left, &right)
    }
}

/// A descending arrangement of all matches, cut to its first `top_n`
/// positions, is a ranking.
proof fn lemma_prefix_is_ranking(
    scores: Seq<u64>,
    top_n: nat,
    matched: Seq<usize>,
    sorted: Seq<usize>,
    picked: Seq<usize>,
)
    requires
        matched.len() == count_matches(scores),
        forall|i: int| 0 <= i < matched.len() ==> (#[trigger] matched[i]) < scores.len(),
        forall|i: int| 0 <= i < matched.len() ==> is_match(#[trigger] scores[matched[i] as int]),
        forall|i: int, j: int| 0 <= i < j < matched.len() ==> matched[i] < matched[j],
        forall|k: usize|
            k < scores.len() && is_match(#[trigger] scores[k as int]) ==> matched.contains(k),
        is_descending(scores, sorted),
        sorted.to_multiset() == matched.to_multiset(),
        picked == sorted.take(
            if top_n <= sorted.len() {
                top_n as int
            } else {
                sorted.len() as int
            },
        ),
    ensures
        is_ranking(scores, top_n, picked),
{
    sorted.to_multiset_ensures();
    matched.to_multiset_ensures();
    assert(sorted.len() == matched.len());
    assert(matched.no_duplicates());
    matched.lemma_multiset_has_no_duplicates();
    sorted.lemma_multiset_has_no_duplicates_conv();
    assert forall|i: int| 0 <= i < sorted.len() implies is_match(
        #[trigger] scores[sorted[i] as int],
    ) by {
        assert(sorted.contains(sorted[i]));
        assert(matched.to_multiset().count(sorted[i]) > 0);
    }
    assert forall|i: int, k: usize|
        #![trigger picked[i], scores[k as int]]
        0 <= i < picked.len() && k < scores.len() && is_match(scores[k as int])
            && !picked.contains(k) implies scores[picked[i] as int] >= scores[k as int] by {
        assert(matched.contains(k));
        assert(sorted.to_multiset().count(k) > 0);
        let at = choose|at: int| 0 <= at < sorted.len() && sorted[at] == k;
        if at < picked.len() {
            assert(picked[at] == k);
        }
        assert(picked[i] == sorted[i]);
    }
}

/// Picks the `top_n` best matches among `scores`: the positions whose score
/// is above the threshold, by descending score, at most `top_n` of them.
pub fn rank_matches(scores: &Vec<u64>, top_n: u32) -> (picked: Vec<usize>)
    ensures
        is_ranking(scores@, top_n as nat, picked@),
{
    let matched = collect_matches(scores);
    let mut sorted = sort_run(scores, &matched, 0, matched.len());
    let ghost whole = sorted@;
    proof {
        assert(matched@.subrange(0, matched@.len() as int) =~= matched@);
    }
    if sorted.len() > top_n as usize {
        sorted.truncate(top_n as usize);
    }
    proof {
        let keep: int = if top_n as nat <= whole.len() {
            top_n as int
        } else {
            whole.len() as int
        };
        assert(sorted@ =~= whole.take(keep));
        lemma_prefix_is_ranking(scores@, top_n as nat, matched@, whole, sorted@);
    }
    sorted
}

} // verus!

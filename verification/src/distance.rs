//! Edit distance between character sequences and the similarity derived
//! from it.

use vstd::prelude::*;

verus! {

/// The score 1 on the fixed-point scale: a score `s` stands for the
/// fraction `s / SCORE_ONE`.
pub const SCORE_ONE: u64 = 1_000_000_000;

/// The least of three numbers.
pub open spec fn min3(a: nat, b: nat, c: nat) -> nat {
    if a <= b && a <= c {
        a
    } else if b <= c {
        b
    } else {
        c
    }
}

/// The length of the longer of two sequences.
pub open spec fn max_len(a: Seq<char>, b: Seq<char>) -> nat {
    if a.len() >= b.len() {
        a.len()
    } else {
        b.len()
    }
}

/// The Levenshtein distance: the least number of single-character
/// insertions, deletions and substitutions that turn `a` into `b`.
pub open spec fn levenshtein(a: Seq<char>, b: Seq<char>) -> nat
    decreases a.len() + b.len(),
{
    if a.len() == 0 {
        b.len()
    } else if b.len() == 0 {
        a.len()
    } else {
        let keep: nat = if a.last() == b.last() { 0 } else { 1 };
        min3(
            levenshtein(a.drop_last(), b.drop_last()) + keep,
            levenshtein(a.drop_last(), b) + 1,
            levenshtein(a, b.drop_last()) + 1,
        )
    }
}

/// The distance never exceeds the length of the longer sequence.
pub proof fn lemma_levenshtein_upper_bound(a: Seq<char>, b: Seq<char>)
    ensures
        levenshtein(a, b) <= max_len(a, b),
    decreases a.len() + b.len(),
{
    if a.len() != 0 && b.len() != 0 {
        lemma_levenshtein_upper_bound(a.drop_last(), b.drop_last());
    }
}

/// The distance is at least the difference of the lengths.
pub proof fn lemma_levenshtein_lower_bound(a: Seq<char>, b: Seq<char>)
    ensures
        levenshtein(a, b) >= a.len() - b.len(),
        levenshtein(a, b) >= b.len() - a.len(),
    decreases a.len() + b.len(),
{
    if a.len() != 0 && b.len() != 0 {
        lemma_levenshtein_lower_bound(a.drop_last(), b.drop_last());
        lemma_levenshtein_lower_bound(a.drop_last(), b);
        lemma_levenshtein_lower_bound(a, b.drop_last());
    }
}

/// A sequence is at distance zero from itself.
pub proof fn lemma_levenshtein_identical(a: Seq<char>)
    ensures
        levenshtein(a, a) == 0,
    decreases a.len(),
{
    if a.len() != 0 {
        lemma_levenshtein_identical(a.drop_last());
    }
}

/// Only equal sequences are at distance zero.
pub proof fn lemma_levenshtein_zero(a: Seq<char>, b: Seq<char>)
    requires
        levenshtein(a, b) == 0,
    ensures
        a == b,
    decreases a.len() + b.len(),
{
    if a.len() == 0 || b.len() == 0 {
        assert(a =~= b);
    } else {
        lemma_levenshtein_zero(a.drop_last(), b.drop_last());
        assert(a =~= a.drop_last().push(a.last()));
        assert(b =~= b.drop_last().push(b.last()));
    }
}

/// The distance does not depend on the direction of the comparison.
pub proof fn lemma_levenshtein_symmetric(a: Seq<char>, b: Seq<char>)
    ensures
        levenshtein(a, b) == levenshtein(b, a),
    decreases a.len() + b.len(),
{
    if a.len() != 0 && b.len() != 0 {
        lemma_levenshtein_symmetric(a.drop_last(), b.drop_last());
        lemma_levenshtein_symmetric(a.drop_last(), b);
        lemma_levenshtein_symmetric(a, b.drop_last());
    }
}

/// The normalized similarity of two sequences on the scale of `SCORE_ONE`:
/// the share of the longer length that the distance leaves over, rounded
/// down. Two empty sequences are fully similar.
pub open spec fn similarity(a: Seq<char>, b: Seq<char>) -> nat {
    let longest = max_len(a, b);
    if longest == 0 {
        SCORE_ONE as nat
    } else {
        ((longest - levenshtein(a, b)) * SCORE_ONE / longest as int) as nat
    }
}

/// A similarity is a score between 0 and 1.
pub proof fn lemma_similarity_bounds(a: Seq<char>, b: Seq<char>)
    ensures
        similarity(a, b) <= SCORE_ONE,
{
    lemma_levenshtein_upper_bound(a, b);
    let longest = max_len(a, b) as int;
    let rest = longest - levenshtein(a, b);
    if longest != 0 {
        assert(rest * SCORE_ONE / longest <= SCORE_ONE && rest * SCORE_ONE / longest >= 0)
            by (nonlinear_arith)
            requires
                0 <= rest <= longest,
                longest > 0,
        ;
    }
}

/// The similarity is the exact share rounded down to the scale: it falls
/// short of `(longest - distance) / longest` by less than one unit.
pub proof fn lemma_similarity_rounds_down(a: Seq<char>, b: Seq<char>)
    requires
        max_len(a, b) > 0,
    ensures
        similarity(a, b) * max_len(a, b) <= (max_len(a, b) - levenshtein(a, b)) * SCORE_ONE,
        (max_len(a, b) - levenshtein(a, b)) * SCORE_ONE < (similarity(a, b) + 1) * max_len(a, b),
{
    lemma_levenshtein_upper_bound(a, b);
    let longest = max_len(a, b) as int;
    let exact = (longest - levenshtein(a, b)) * SCORE_ONE;
    assert(0 <= exact) by (nonlinear_arith)
        requires
            exact == (longest - levenshtein(a, b)) * SCORE_ONE,
            levenshtein(a, b) <= longest,
    ;
    assert((exact / longest) * longest <= exact < (exact / longest + 1) * longest
        && exact / longest >= 0) by (nonlinear_arith)
        requires
            longest > 0,
            exact >= 0,
    ;
}

/// Identical sequences have similarity 1.
pub proof fn lemma_similarity_identical(a: Seq<char>)
    ensures
        similarity(a, a) == SCORE_ONE,
{
    lemma_levenshtein_identical(a);
    let longest = a.len() as int;
    if longest != 0 {
        assert(longest * SCORE_ONE / longest == SCORE_ONE) by (nonlinear_arith)
            requires
                longest > 0,
        ;
    }
}

/// Only identical sequences have similarity 1.
pub proof fn lemma_similarity_one_iff_identical(a: Seq<char>, b: Seq<char>)
    ensures
        similarity(a, b) == SCORE_ONE <==> a == b,
{
    if a == b {
        lemma_similarity_identical(a);
    } else {
        let longest = max_len(a, b) as int;
        let distance = levenshtein(a, b) as int;
        if longest == 0 {
            assert(a =~= b);
        } else {
            lemma_levenshtein_upper_bound(a, b);
            if distance == 0 {
                lemma_levenshtein_zero(a, b);
            }
            assert((longest - distance) * SCORE_ONE / longest < SCORE_ONE) by (nonlinear_arith)
                requires
                    0 < distance <= longest,
            ;
        }
    }
}

/// Sequences as far apart as the longer one is long have similarity 0.
pub proof fn lemma_similarity_zero_at_full_distance(a: Seq<char>, b: Seq<char>)
    requires
        max_len(a, b) > 0,
        levenshtein(a, b) == max_len(a, b),
    ensures
        similarity(a, b) == 0,
{
    let longest = max_len(a, b) as int;
    assert(0 * SCORE_ONE / longest == 0) by (nonlinear_arith)
        requires
            longest > 0,
    ;
}

/// The similarity does not depend on the direction of the comparison.
pub proof fn lemma_similarity_symmetric(a: Seq<char>, b: Seq<char>)
    ensures
        similarity(a, b) == similarity(b, a),
{
    lemma_levenshtein_symmetric(a, b);
}

/// Calls `rapidfuzz::distance::levenshtein::distance` on the characters of
/// the two strings. Trusted: with its default unit costs that function
/// returns the Levenshtein distance of the two character sequences.
#[verifier::external_body]
fn edit_distance(a: &str, b: &str) -> (d: usize)
    ensures
        d == levenshtein(a@, b@),
{
    rapidfuzz::distance::levenshtein::distance(a.chars(), b.chars())
}

/// Computes the normalized similarity of two strings.
pub fn normalized_similarity(a: &str, b: &str) -> (s: u64)
    ensures
        s == similarity(a@, b@),
        s <= SCORE_ONE,
{
    let len_a: usize = a.unicode_len();
    let len_b: usize = b.unicode_len();
    let longest: usize = if len_a >= len_b { len_a } else { len_b };
    proof {
        lemma_levenshtein_upper_bound(a@, b@);
        lemma_similarity_bounds(a@, b@);
    }
    if longest == 0 {
        SCORE_ONE
    } else {
        let d: usize = edit_distance(a, b);
        let rest: u128 = (longest - d) as u128;
        assert(rest * SCORE_ONE <= u128::MAX) by (nonlinear_arith)
            requires
                rest <= u64::MAX,
                SCORE_ONE == 1_000_000_000,
        ;
        let scaled: u128 = rest * (SCORE_ONE as u128) / (longest as u128);
        scaled as u64
    }
}

} // verus!

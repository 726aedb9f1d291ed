use find_similar::distance::{normalized_similarity, SCORE_ONE};
use find_similar::error::Error;
use find_similar::feature::{clone_text, holds_text, text_as_str, IssueFeatures};
use find_similar::scorer::{field_score, score_features, similarity_score};
use find_similar::weights::{count_chars, get_feature_weights};

fn text(s: &str) -> Option<String> {
    Some(s.to_string())
}

fn features(
    operation: Option<&str>,
    phenomenon: Option<&str>,
    expected_behavior: Option<&str>,
    actual_behavior: Option<&str>,
) -> IssueFeatures {
    IssueFeatures {
        operation: operation.map(|s| s.to_string()),
        phenomenon: phenomenon.map(|s| s.to_string()),
        expected_behavior: expected_behavior.map(|s| s.to_string()),
        actual_behavior: actual_behavior.map(|s| s.to_string()),
    }
}

#[test]
fn score_one_is_a_billion() {
    assert_eq!(SCORE_ONE, 1_000_000_000);
}

#[test]
fn similarity_follows_the_edit_distance() {
    // "kitten" and "sitting" are three edits apart, the longer has seven characters.
    assert_eq!(normalized_similarity("kitten", "sitting"), 571_428_571);
    assert_eq!(normalized_similarity("sitting", "kitten"), 571_428_571);
    // "CA" and "ABC" are three edits apart: nothing is left over.
    assert_eq!(normalized_similarity("CA", "ABC"), 0);
    assert_eq!(normalized_similarity("abcd", "abcx"), 750_000_000);
    assert_eq!(normalized_similarity("abc", "ab"), 666_666_666);
}

#[test]
fn similarity_of_equal_texts_is_one() {
    assert_eq!(normalized_similarity("Turn on the switch", "Turn on the switch"), SCORE_ONE);
    assert_eq!(normalized_similarity("", ""), SCORE_ONE);
}

#[test]
fn similarity_of_a_text_and_nothing_is_zero() {
    assert_eq!(normalized_similarity("abc", ""), 0);
    assert_eq!(normalized_similarity("", "abc"), 0);
    assert_eq!(normalized_similarity("abc", "xyz"), 0);
}

#[test]
fn similarity_counts_characters_not_bytes() {
    // One substitution among four characters, each of several bytes.
    assert_eq!(normalized_similarity("äöüß", "äöüs"), 750_000_000);
    assert_eq!(normalized_similarity("日本語", "日本"), 666_666_666);
}

#[test]
fn count_chars_counts_characters() {
    assert_eq!(count_chars(None), 0);
    assert_eq!(count_chars(Some("")), 0);
    assert_eq!(count_chars(Some("Turn on the switch")), 18);
    assert_eq!(count_chars(Some("äöüß")), 4);
}

#[test]
fn optional_texts_are_borrowed_and_copied() {
    let some = text("abc");
    assert_eq!(text_as_str(&some), Some("abc"));
    assert_eq!(text_as_str(&None), None);
    assert_eq!(clone_text(&some), some);
    assert_eq!(clone_text(&None), None);
}

#[test]
fn weights_are_the_shares_of_the_characters() {
    let query = features(
        Some("Turn on the switch"),
        None,
        Some("The device turns on"),
        Some("The device does not turn on"),
    );
    let weights = get_feature_weights(&query).unwrap();
    assert_eq!(weights.operation, 18);
    assert_eq!(weights.phenomenon, 0);
    assert_eq!(weights.expected_behavior, 19);
    assert_eq!(weights.actual_behavior, 27);
    assert_eq!(weights.total, 64);
    let sum = weights.operation + weights.phenomenon + weights.expected_behavior
        + weights.actual_behavior;
    assert_eq!(sum as u128, weights.total);
    let as_fractions = [
        weights.operation as f64 / weights.total as f64,
        weights.phenomenon as f64 / weights.total as f64,
        weights.expected_behavior as f64 / weights.total as f64,
        weights.actual_behavior as f64 / weights.total as f64,
    ];
    let one: f64 = as_fractions.iter().sum();
    assert!((one - 1.0).abs() < 1e-12);
}

#[test]
fn weights_of_a_query_without_characters_are_refused() {
    assert_eq!(get_feature_weights(&features(None, None, None, None)), Err(Error::InvalidQuery));
    assert_eq!(
        get_feature_weights(&features(Some(""), Some(""), Some(""), Some(""))),
        Err(Error::InvalidQuery)
    );
    assert!(get_feature_weights(&features(None, Some("x"), None, None)).is_ok());
}

#[test]
fn field_score_needs_both_sides() {
    assert_eq!(field_score(&text("abcd"), &text("abcx")), 750_000_000);
    assert_eq!(field_score(&text("abcd"), &None), 0);
    assert_eq!(field_score(&None, &text("abcd")), 0);
    assert_eq!(field_score(&None, &None), 0);
    assert_eq!(field_score(&text(""), &text("")), SCORE_ONE);
}

#[test]
fn score_blends_the_fields_by_weight() {
    // operation: 4 of 12 characters, similarity 0.75; phenomenon: 8 of 12, similarity 0.5.
    let query = features(Some("abcd"), Some("abcdefgh"), None, None);
    let candidate = features(Some("abcx"), Some("abcdwxyz"), Some("more"), None);
    // (750_000_000 * 4 + 500_000_000 * 8) / 12, rounded down
    assert_eq!(similarity_score(&query, &candidate), Ok(583_333_333));
    let weights = get_feature_weights(&query).unwrap();
    assert_eq!(score_features(&query, &weights, &candidate), 583_333_333);
}

#[test]
fn score_is_zero_where_no_field_is_shared() {
    let query = features(Some("Turn on the switch"), None, None, Some("It stays off"));
    let candidate = features(None, Some("Turn on the switch"), Some("It stays off"), None);
    assert_eq!(similarity_score(&query, &candidate), Ok(0));
}

#[test]
fn score_is_one_for_the_query_itself() {
    let query = features(
        Some("Turn on the switch"),
        None,
        Some("The device is turned on"),
        Some("The device is not turned on"),
    );
    assert_eq!(similarity_score(&query, &query), Ok(SCORE_ONE));
    // What the candidate holds beyond the query's fields does not count.
    let mut richer = query.clone();
    richer.phenomenon = text("It hums");
    assert_eq!(similarity_score(&query, &richer), Ok(SCORE_ONE));
}

#[test]
fn score_is_the_same_each_time() {
    let query = features(Some("Turn on the switch"), None, Some("The device turns on"), None);
    let candidate = features(Some("Turn off the switch"), None, Some("The device is on"), None);
    let first = similarity_score(&query, &candidate);
    let second = similarity_score(&query.clone(), &candidate.clone());
    assert_eq!(first, second);
    assert!(first.unwrap() <= SCORE_ONE);
}

#[test]
fn score_of_an_invalid_query_is_an_error() {
    let blank = features(None, Some(""), None, None);
    let candidate = features(Some("Turn on the switch"), None, None, None);
    assert_eq!(similarity_score(&blank, &candidate), Err(Error::InvalidQuery));
}

#[test]
fn errors_have_their_messages() {
    assert_eq!(Error::InvalidQuery.message(), "source is invalid");
    assert_eq!(Error::EmptyId.message(), "issue_id must not be empty");
    assert_eq!(Error::EmptyFeatures.message(), "features must not be empty");
}

#[test]
fn a_field_holds_a_text_when_it_has_a_character() {
    assert!(holds_text(&text("a")));
    assert!(holds_text(&text(" ")));
    assert!(!holds_text(&text("")));
    assert!(!holds_text(&None));
}

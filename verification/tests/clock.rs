use find_similar::clock::{fit_millis, millis_since};
use std::time::Instant;

#[test]
fn milliseconds_are_reported_as_they_are_where_they_fit() {
    assert_eq!(fit_millis(0), 0);
    assert_eq!(fit_millis(1), 1);
    assert_eq!(fit_millis(1_500), 1_500);
    assert_eq!(fit_millis(i64::MAX as u128), i64::MAX);
}

#[test]
fn milliseconds_that_do_not_fit_are_reported_as_the_largest_number() {
    assert_eq!(fit_millis(i64::MAX as u128 + 1), i64::MAX);
    assert_eq!(fit_millis(u64::MAX as u128), i64::MAX);
    assert_eq!(fit_millis(u128::MAX), i64::MAX);
}

#[test]
fn time_since_a_reading_is_not_negative() {
    let start = Instant::now();
    let first = millis_since(&start);
    assert!(first >= 0);
    // A reading of a moment ago has not aged by an hour.
    assert!(first < 3_600_000);
}

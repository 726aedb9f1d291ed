//! The wall clock, for the diagnostic that tells how long a search took.

use std::time::{Duration, Instant};
use vstd::prelude::*;

verus! {

/// `std::time::Instant`: a reading of the monotonic clock, opaque here.
#[verifier::external_type_specification]
#[verifier::external_body]
pub struct ExInstant(std::time::Instant);

/// `Instant::now` reads the clock. Nothing is known of the reading.
pub assume_specification[ std::time::Instant::now ]() -> Instant;

/// `Instant::elapsed` tells how much time went by since the reading.
/// Nothing is known of the span.
pub assume_specification[ std::time::Instant::elapsed ](start: &Instant) -> Duration;

/// `Duration::as_millis` gives a span in whole milliseconds. Nothing is
/// known of the number.
pub assume_specification[ std::time::Duration::as_millis ](span: &Duration) -> u128;

/// The milliseconds that went by since `start`, or `i64::MAX` where they
/// do not fit.
pub fn millis_since(start: &Instant) -> (millis: i64)
    ensures
        millis >= 0,
{
    fit_millis(start.elapsed().as_millis())
}

/// The number that reports a span of `millis` milliseconds: the span
/// itself, or `i64::MAX` where it does not fit.
pub open spec fn fitted_millis(millis: u128) -> i64 {
    if millis > i64::MAX as u128 {
        i64::MAX
    } else {
        millis as i64
    }
}

/// Fits a number of milliseconds, as the clock gives it, into the number
/// that a result reports.
pub fn fit_millis(millis: u128) -> (fitted: i64)
    ensures
        fitted == fitted_millis(millis),
        fitted >= 0,
{
    if millis > i64::MAX as u128 {
        i64::MAX
    } else {
        millis as i64
    }
}

} // verus!

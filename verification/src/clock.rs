//! The clock, for what ends or moves on with time.

use std::time::{Duration, Instant};
use vstd::prelude::*;

verus! {

/// A point in time (`std::time::Instant`), carried opaquely.
#[verifier::external_type_specification]
#[verifier::external_body]
pub struct ExInstant(Instant);

/// The current time (`Instant::now`). Nothing is stated of the result.
#[verifier::external_body]
pub(crate) fn now() -> Instant {
    Instant::now()
}

/// The time passed since `since` (`Instant::elapsed`). It rests on the
/// clock; nothing is stated of it.
#[verifier::external_body]
pub(crate) fn elapsed(since: &Instant) -> Duration {
    since.elapsed()
}

/// A duration in whole nanoseconds (`Duration::as_nanos`). `Duration` is
/// opaque here, so nothing is stated of the number.
#[verifier::external_body]
pub(crate) fn duration_nanos(d: &Duration) -> u128 {
    d.as_nanos()
}

/// `ms` milliseconds (`Duration::from_millis`). `Duration` is opaque
/// here, so nothing is stated of it.
#[verifier::external_body]
pub(crate) fn millis(ms: u64) -> Duration {
    Duration::from_millis(ms)
}

} // verus!

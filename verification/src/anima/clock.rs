//! The wall clock, as far as a session reads it.

use std::time::{Duration, Instant};
use vstd::prelude::*;

verus! {

/// A point in time of std's monotonic clock. Nothing is known of its value.
#[verifier::external_type_specification]
#[verifier::external_body]
pub struct ExInstant(Instant);

/// `Instant::now` of std: the present moment. Every call may give another one.
pub assume_specification[ Instant::now ]() -> (now: Instant)
;

/// `Instant::elapsed` of std: the time gone by since `start`, which every call
/// measures anew.
pub assume_specification[ Instant::elapsed ](start: &Instant) -> (gone: Duration)
;

/// `Duration::as_millis` of std: the whole milliseconds that `span` holds.
pub assume_specification[ Duration::as_millis ](span: &Duration) -> (millis: u128)
;

/// Whole milliseconds gone by since `start`.
pub(crate) fn millis_since(start: &Instant) -> (millis: u128) {
    let gone = start.elapsed();
    gone.as_millis()
}

} // verus!

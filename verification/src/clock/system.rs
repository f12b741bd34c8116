//! Readings of the machine's clocks.
use std::time::Instant;
use vstd::prelude::*;

verus! {

#[verifier::external_type_specification]
#[verifier::external_body]
pub struct ExInstant(Instant);

/// `Instant::now`: the current reading of the monotonic clock. It depends
/// on when it is called, so nothing is stated of it.
#[verifier::external_body]
pub fn monotonic_now() -> (i: Instant) {
    Instant::now()
}

/// `Instant::duration_since` in nanoseconds: how long after `earlier` the
/// instant `later` is, zero when it is not after it. The instants are opaque
/// here, so nothing is stated of the result; callers that need readings in
/// order keep them in order themselves.
#[verifier::external_body]
pub fn nanos_between(later: &Instant, earlier: &Instant) -> (n: u128) {
    later.duration_since(*earlier).as_nanos()
}

/// `time::OffsetDateTime::now_utc` in nanoseconds since the Unix epoch: the
/// current wall-clock time. It depends on when it is called, so nothing is
/// stated of it.
#[verifier::external_body]
pub fn wall_clock_now() -> (t: i128) {
    time::OffsetDateTime::now_utc().unix_timestamp_nanos()
}

} // verus!

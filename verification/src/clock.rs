//! The clock: Unix timestamps from the `time` crate.

use vstd::prelude::*;

verus! {

#[verifier::external_type_specification]
#[verifier::external_body]
pub struct ExOffsetDateTime(time::OffsetDateTime);

/// The greatest distance from the epoch, in seconds, that a date of the `time` crate can have.
/// A date keeps its year in 23 bits, so it lies within 4.2 million years of the epoch, which
/// is less than this many seconds.
pub const MAX_SECONDS: i64 = 1_000_000_000_000_000;

/// The Unix timestamp of a date: the whole seconds from the epoch to it.
pub uninterp spec fn unix_seconds_of(date: time::OffsetDateTime) -> i64;

/// Calls `time::OffsetDateTime::unix_timestamp`. The contract claims that the result is the
/// Unix timestamp of `date`, and that it is within `MAX_SECONDS` of the epoch.
#[verifier::external_body]
pub(crate) fn unix_seconds(date: &time::OffsetDateTime) -> (seconds: i64)
    ensures
        seconds == unix_seconds_of(*date),
        -MAX_SECONDS <= seconds <= MAX_SECONDS,
{
    date.unix_timestamp()
}

/// Calls `time::OffsetDateTime::now_utc`. Nothing is claimed of the moment that it gives.
#[verifier::external_body]
pub(crate) fn now() -> time::OffsetDateTime {
    time::OffsetDateTime::now_utc()
}

} // verus!

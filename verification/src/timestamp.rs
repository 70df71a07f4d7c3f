//! Timestamps as the address-book and telemetry records store them: epoch
//! seconds plus nanoseconds, the shape of a protobuf `Timestamp`.
//!
//! The records only carry timestamps; turning one into a calendar date is
//! chrono's work, reached through one trusted wrapper.

use vstd::prelude::*;

verus! {

/// A point in time: non-leap seconds since the Unix epoch, and nanoseconds
/// within that second.
#[derive(Debug, Clone, Copy, PartialEq, Eq, Structural)]
pub struct Timestamp {
    pub seconds: i64,
    pub nanos: i32,
}

impl Timestamp {
    /// Whether the nanosecond part is a valid sub-second count and the
    /// second count lies in the era the records use (from the epoch to the
    /// year 9999).
    pub open spec fn in_range(&self) -> bool {
        &&& 0 <= self.seconds < 253402300800
        &&& 0 <= self.nanos < 1000000000
    }
}

#[verifier::external_type_specification]
#[verifier::external_body]
pub struct ExNaiveDateTime(chrono::NaiveDateTime);

/// The calendar date-time denoted by an epoch-second and nanosecond pair;
/// a function of the pair alone.
pub uninterp spec fn naive_date_time_of(seconds: i64, nanos: i32) -> chrono::NaiveDateTime;

/// Relies on chrono's `DateTime::<Utc>::from_timestamp`, which returns
/// `Some` for every in-range timestamp, and on `naive_utc`, which strips
/// the (zero) offset; the result depends on the timestamp alone.
#[verifier::external_body]
pub fn protobuf_timestamp_to_naive_date_time(timestamp: Timestamp) -> (r: chrono::NaiveDateTime)
    requires
        timestamp.in_range(),
    ensures
        r == naive_date_time_of(timestamp.seconds, timestamp.nanos),
{
    let datetime_utc: chrono::DateTime<chrono::Utc> = chrono::DateTime::from_timestamp(
        timestamp.seconds,
        timestamp.nanos as u32,
    ).unwrap();
    datetime_utc.naive_utc()
}

} // verus!

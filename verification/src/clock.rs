//! Points in time.

use std::time::{Duration, Instant};

use vstd::prelude::*;

verus! {

/// A point in time in UTC: whole seconds since the Unix epoch and the
/// nanoseconds after them.
#[derive(Clone, Copy, Debug, PartialEq, Eq, Structural)]
pub struct Timestamp {
    pub seconds: i64,
    pub nanos: u32,
}

/// The point in time `ns` nanoseconds after the Unix epoch.
pub open spec fn time_of_ns(ns: int) -> Timestamp {
    Timestamp { seconds: (ns / 1_000_000_000) as i64, nanos: (ns % 1_000_000_000) as u32 }
}

/// Calls `chrono::DateTime::from_timestamp`, which builds a UTC date and time
/// from whole seconds since the Unix epoch and the nanoseconds after them.
///
/// For nanoseconds below one second it succeeds exactly on the seconds of the
/// years -262143 to 262142, and the date and time it builds is made of the same
/// seconds and nanoseconds.
#[verifier::external_body]
fn utc_date_time(seconds: i64, nanos: u32) -> (r: Option<Timestamp>)
    requires
        nanos < 1_000_000_000,
    ensures
        r == if -8_334_601_228_800 <= seconds <= 8_210_266_876_799 {
            Some(Timestamp { seconds, nanos })
        } else {
            None
        },
{
    chrono::DateTime::from_timestamp(seconds, nanos).map(
        |t| Timestamp { seconds: t.timestamp(), nanos: t.timestamp_subsec_nanos() },
    )
}

/// Calls `chrono::Utc::now`. Nothing is claimed of the time it reads.
#[verifier::external_body]
pub(crate) fn utc_now() -> Timestamp {
    let now = chrono::Utc::now();
    Timestamp { seconds: now.timestamp(), nanos: now.timestamp_subsec_nanos() }
}

/// The point in time `timestamp_ns` nanoseconds after the Unix epoch.
pub fn datetime_from_ns(timestamp_ns: u64) -> (r: Timestamp)
    ensures
        r == time_of_ns(timestamp_ns as int),
{
    let seconds: i64 = (timestamp_ns / 1_000_000_000) as i64;
    let nanos: u32 = (timestamp_ns % 1_000_000_000) as u32;
    match utc_date_time(seconds, nanos) {
        Some(at) => at,
        None => Timestamp { seconds: 0, nanos: 0 },
    }
}

/// `std::time::Instant`, a reading of a monotonic clock.
#[verifier::external_type_specification]
#[verifier::external_body]
pub struct ExInstant(std::time::Instant);

/// `Instant::now` reads the monotonic clock. Nothing is claimed of the reading.
pub assume_specification[ std::time::Instant::now ]() -> (r: Instant)
;

/// `Instant::elapsed` gives the time since a reading. Nothing is claimed of it.
pub assume_specification[ std::time::Instant::elapsed ](started: &Instant) -> (r: Duration)
;

/// The nanoseconds of a duration.
pub uninterp spec fn duration_nanos(duration: Duration) -> u128;

/// `Duration::as_nanos` gives the nanoseconds of a duration. Their number is a
/// function of the duration alone, named `duration_nanos`.
pub assume_specification[ std::time::Duration::as_nanos ](duration: &Duration) -> (r: u128)
    ensures
        r == duration_nanos(*duration),
;

/// A number of nanoseconds, or the largest 64-bit number where it is larger.
pub open spec fn capped(nanos: u128) -> u64 {
    if nanos <= u64::MAX {
        nanos as u64
    } else {
        u64::MAX
    }
}

/// Holds a number of nanoseconds within 64 bits.
pub fn capped_nanos(nanos: u128) -> (r: u64)
    ensures
        r == capped(nanos),
{
    if nanos > 0xffff_ffff_ffff_ffff {
        u64::MAX
    } else {
        nanos as u64
    }
}

/// The nanoseconds since `started`, at most the largest 64-bit number. How long
/// ago that was comes from the clock, so nothing is claimed of it.
pub(crate) fn nanos_since(started: &Instant) -> (r: u64)
    ensures
        exists|elapsed: Duration| r == capped(#[trigger] duration_nanos(elapsed)),
{
    let elapsed = started.elapsed();
    capped_nanos(elapsed.as_nanos())
}

} // verus!

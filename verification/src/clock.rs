//! Wall-clock time in milliseconds.

use std::time::{Duration, SystemTime, SystemTimeError, UNIX_EPOCH};
use vstd::prelude::*;

verus! {

/// A point in time of the standard library, carried as it is.
#[verifier::external_type_specification]
#[verifier::external_body]
pub struct ExSystemTime(SystemTime);

/// The standard library's error for a point in time that lies before another.
#[verifier::external_type_specification]
#[verifier::external_body]
pub struct ExSystemTimeError(SystemTimeError);

/// `SystemTime::now`: the current time. Nothing is known of it.
pub assume_specification[ SystemTime::now ]() -> (now: SystemTime)
;

/// `Duration::as_nanos`: the nanoseconds of a duration. How many they are is not said: the
/// durations here are measured.
pub assume_specification[ Duration::as_nanos ](duration: &Duration) -> (nanos: u128)
;

/// `SystemTime::duration_since` with the Unix epoch: the time passed since then, or an
/// error when the time lies before it. Which of them comes depends on the clock.
#[verifier::external_body]
fn since_epoch(now: SystemTime) -> (elapsed: Result<Duration, SystemTimeError>) {
    now.duration_since(UNIX_EPOCH)
}

/// Why the clock gives no timestamp.
#[derive(Clone, Copy, Debug, PartialEq, Eq)]
pub enum ClockError {
    /// The system time lies before the Unix epoch.
    BeforeEpoch,
    /// The number of milliseconds does not fit in 64 bits.
    TooLate,
}

/// The timestamp for the nanoseconds since the Unix epoch, where the clock gives them: the
/// whole milliseconds among them, where they fit.
pub open spec fn timestamp_of(elapsed: Option<u128>) -> Result<u64, ClockError> {
    match elapsed {
        None => Err(ClockError::BeforeEpoch),
        Some(nanos) => if nanos / 1_000_000 <= u64::MAX {
            Ok((nanos / 1_000_000) as u64)
        } else {
            Err(ClockError::TooLate)
        },
    }
}

/// The timestamp for the nanoseconds since the Unix epoch: the clock must give them, and
/// their whole milliseconds must fit in 64 bits.
pub fn timestamp(elapsed: Option<u128>) -> (millis: u64)
    requires
        elapsed matches Some(nanos) && nanos / 1_000_000 <= u64::MAX,
    ensures
        elapsed matches Some(nanos) && millis == nanos / 1_000_000,
{
    (elapsed.unwrap() / 1_000_000) as u64
}

/// The timestamp for the nanoseconds since the Unix epoch, where the clock gives them.
pub fn try_timestamp(elapsed: Option<u128>) -> (millis: Result<u64, ClockError>)
    ensures
        millis == timestamp_of(elapsed),
{
    match elapsed {
        None => Err(ClockError::BeforeEpoch),
        Some(nanos) => if nanos / 1_000_000 <= u64::MAX as u128 {
            Ok(timestamp(elapsed))
        } else {
            Err(ClockError::TooLate)
        },
    }
}

/// The current timestamp in milliseconds since the Unix epoch.
pub fn now_millis() -> (now: Result<u64, ClockError>)
    ensures
        exists|elapsed: Option<u128>| now == #[trigger] timestamp_of(elapsed),
{
    let elapsed = match since_epoch(SystemTime::now()) {
        Ok(elapsed) => Some(elapsed.as_nanos()),
        Err(_) => None,
    };
    try_timestamp(elapsed)
}

/// A timestamp counts the whole milliseconds that have passed since the epoch, and fails
/// only before the epoch or where they do not fit in 64 bits.
pub proof fn law_timestamps_count_whole_milliseconds(
    nanos: u128,
    tried: Result<u64, ClockError>,
    early: Result<u64, ClockError>,
)
    requires
        call_ensures(try_timestamp, (Some(nanos),), tried),
        call_ensures(try_timestamp, (None,), early),
    ensures
        tried matches Ok(found) ==> found * 1_000_000 <= nanos < (found + 1) * 1_000_000,
        tried matches Err(error) ==> error == ClockError::TooLate && nanos >= (u64::MAX + 1)
            * 1_000_000,
        early == Err::<u64, ClockError>(ClockError::BeforeEpoch),
{
}

/// Where the clock gives a timestamp, asking for it and trying to give the same.
pub proof fn law_timestamp_is_try_timestamp(
    nanos: u128,
    millis: u64,
    tried: Result<u64, ClockError>,
)
    requires
        nanos / 1_000_000 <= u64::MAX,
        call_ensures(timestamp, (Some(nanos),), millis),
        call_ensures(try_timestamp, (Some(nanos),), tried),
    ensures
        tried == Ok::<u64, ClockError>(millis),
{
}

} // verus!

//! Reading the system clock (trusted, nothing is claimed about the readings).
use vstd::prelude::*;

use std::time::{Duration, SystemTime, SystemTimeError, UNIX_EPOCH};

verus! {

#[verifier::external_type_specification]
#[verifier::external_body]
pub struct ExSystemTime(SystemTime);

#[verifier::external_type_specification]
#[verifier::external_body]
pub struct ExSystemTimeError(SystemTimeError);

/// `std::time::SystemTime::now`: the current wall-clock time; nothing is claimed about it.
#[verifier::external_body]
fn system_now() -> SystemTime {
    SystemTime::now()
}

/// `SystemTime::duration_since(UNIX_EPOCH)`: time elapsed since the Unix epoch, or an
/// error for clocks set before it; nothing is claimed about the value.
#[verifier::external_body]
fn since_unix_epoch(t: &SystemTime) -> Result<Duration, SystemTimeError> {
    t.duration_since(UNIX_EPOCH)
}

/// `Duration::as_micros`: whole microseconds of a duration.
#[verifier::external_body]
fn duration_micros(d: &Duration) -> u128 {
    d.as_micros()
}

/// `Duration::as_nanos`: whole nanoseconds of a duration.
#[verifier::external_body]
fn duration_nanos(d: &Duration) -> u128 {
    d.as_nanos()
}

/// `Duration::as_secs`: whole seconds of a duration.
#[verifier::external_body]
fn duration_secs(d: &Duration) -> u64 {
    d.as_secs()
}

/// Microseconds since the Unix epoch (0 when the clock reads before the epoch).
pub(crate) fn unix_time_micros() -> u128 {
    match since_unix_epoch(&system_now()) {
        Ok(d) => duration_micros(&d),
        Err(_) => 0,
    }
}

/// Seconds since the Unix epoch (0 when the clock reads before the epoch).
pub(crate) fn unix_time_secs() -> u64 {
    match since_unix_epoch(&system_now()) {
        Ok(d) => duration_secs(&d),
        Err(_) => 0,
    }
}

/// Nanoseconds since the Unix epoch, truncated to 64 bits, or `None` when the
/// clock reads before the epoch.
pub(crate) fn unix_time_nanos() -> Option<u64> {
    match since_unix_epoch(&system_now()) {
        Ok(d) => Some(duration_nanos(&d) as u64),
        Err(_) => None,
    }
}

} // verus!

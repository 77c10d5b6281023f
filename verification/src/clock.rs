//! Wall-clock time.
//!
//! Timestamps come from the system clock, so nothing is known of a reading
//! before it is taken. The functions at the end of this module read the
//! clock; what a reading is turned into is decided by functions that take the
//! reading as an argument and are proved for all readings.

use std::time::Duration;
use std::time::SystemTime;
use std::time::SystemTimeError;
use vstd::prelude::*;

verus! {

/// `std::time::SystemTime`: a reading of the system clock.
#[verifier::external_type_specification]
#[verifier::external_body]
pub struct ExSystemTime(SystemTime);

/// `std::time::SystemTimeError`: the clock was set before the reference point.
#[verifier::external_type_specification]
#[verifier::external_body]
pub struct ExSystemTimeError(SystemTimeError);

/// `SystemTime::now`: the current reading of the system clock.
#[verifier::external_body]
fn system_now() -> (now: SystemTime) {
    SystemTime::now()
}

/// `SystemTime::duration_since` with the Unix epoch as reference: the time
/// elapsed since the epoch, or an error when the clock reads earlier.
#[verifier::external_body]
fn since_epoch(time: &SystemTime) -> (elapsed: Result<Duration, SystemTimeError>) {
    time.duration_since(std::time::UNIX_EPOCH)
}

/// The number of whole nanoseconds in a duration.
pub uninterp spec fn nanos_of(d: Duration) -> u128;

/// `Duration::as_nanos`: the whole duration in nanoseconds.
#[verifier::external_body]
fn whole_nanos(d: &Duration) -> (nanos: u128)
    ensures
        nanos == nanos_of(*d),
{
    d.as_nanos()
}

/// The number of whole milliseconds in a duration.
pub uninterp spec fn millis_of(d: Duration) -> u128;

/// `Duration::as_millis`: the whole duration in milliseconds, rounded down.
#[verifier::external_body]
pub(crate) fn whole_millis(d: &Duration) -> (millis: u128)
    ensures
        millis == millis_of(*d),
{
    d.as_millis()
}

/// The low 64 bits of `n`.
pub open spec fn low_64(n: u128) -> u64 {
    (n % 0x1_0000_0000_0000_0000) as u64
}

/// Keeps the low 64 bits of `n`.
pub(crate) fn truncate_to_u64(n: u128) -> (low: u64)
    ensures
        low == low_64(n),
        n <= u64::MAX ==> low == n,
{
    (n % 0x1_0000_0000_0000_0000) as u64
}

/// The nanoseconds that a reading of the time since the Unix epoch stands
/// for: the whole duration, or 0 when the clock read earlier than the epoch.
pub open spec fn epoch_nanos(elapsed: Result<Duration, SystemTimeError>) -> u128 {
    match elapsed {
        Ok(d) => nanos_of(d),
        Err(_) => 0,
    }
}

/// The milliseconds that a reading of the time since the Unix epoch stands
/// for: the low 64 bits of the whole duration, or 0 when the clock read
/// earlier than the epoch.
pub open spec fn epoch_millis(elapsed: Result<Duration, SystemTimeError>) -> u64 {
    match elapsed {
        Ok(d) => low_64(millis_of(d)),
        Err(_) => 0,
    }
}

/// Turns a reading of the time since the Unix epoch into nanoseconds.
pub fn nanos_since_epoch(elapsed: Result<Duration, SystemTimeError>) -> (nanos: u128)
    ensures
        nanos == epoch_nanos(elapsed),
{
    match elapsed {
        Ok(d) => whole_nanos(&d),
        Err(_) => 0,
    }
}

/// Turns a reading of the time since the Unix epoch into milliseconds,
/// reduced to 64 bits.
pub fn millis_since_epoch(elapsed: Result<Duration, SystemTimeError>) -> (millis: u64)
    ensures
        millis == epoch_millis(elapsed),
{
    match elapsed {
        Ok(d) => truncate_to_u64(whole_millis(&d)),
        Err(_) => 0,
    }
}

/// Nanoseconds since the Unix epoch, as the clock reads now; 0 when it reads
/// earlier than the epoch.
pub(crate) fn unix_nanos_wide() -> (nanos: u128) {
    let now = system_now();
    nanos_since_epoch(since_epoch(&now))
}

/// Nanoseconds since the Unix epoch, as the clock reads now, reduced to 64
/// bits; 0 when it reads earlier than the epoch.
pub(crate) fn unix_nanos() -> (nanos: u64) {
    truncate_to_u64(unix_nanos_wide())
}

/// Milliseconds since the Unix epoch, as the clock reads now, reduced to 64
/// bits; 0 when it reads earlier than the epoch.
pub(crate) fn unix_millis() -> (millis: u64) {
    let now = system_now();
    millis_since_epoch(since_epoch(&now))
}

} // verus!

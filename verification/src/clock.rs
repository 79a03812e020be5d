//! The server's wall clock, in microseconds since the Unix epoch.
use vstd::prelude::*;
use std::time::{Duration, SystemTime, UNIX_EPOCH};

verus! {

#[verifier::external_type_specification]
#[verifier::external_body]
pub struct ExSystemTime(SystemTime);

/// `SystemTime::now`: the current time, whatever it is.
#[verifier::external_body]
fn system_now() -> SystemTime {
    SystemTime::now()
}

/// `SystemTime::duration_since(UNIX_EPOCH)`, `None` for a time before the epoch.
#[verifier::external_body]
fn since_unix_epoch(t: &SystemTime) -> Option<Duration> {
    t.duration_since(UNIX_EPOCH).ok()
}

/// `Duration::as_micros`.
#[verifier::external_body]
fn duration_micros(d: &Duration) -> u128 {
    d.as_micros()
}

/// A microsecond count as a 64-bit timestamp (wrapping, as `as i64` does).
pub fn timestamp_from_micros(micros: u128) -> (r: i64)
    ensures
        r == micros as i64,
{
    micros as i64
}

/// The timestamp of a clock reading, given as the microseconds since the
/// epoch (`None` for a time before the epoch, which reads as 0).
pub fn timestamp_of(since_epoch: Option<u128>) -> (r: i64)
    ensures
        r == match since_epoch {
            Some(m) => m as i64,
            None => 0,
        },
{
    match since_epoch {
        Some(m) => timestamp_from_micros(m),
        None => 0,
    }
}

/// The current time in microseconds since the Unix epoch; 0 when the clock
/// reads a time before the epoch.
pub fn current_timestamp_micros() -> i64 {
    let now = system_now();
    let since_epoch = match since_unix_epoch(&now) {
        Some(d) => Some(duration_micros(&d)),
        None => None,
    };
    timestamp_of(since_epoch)
}

} // verus!

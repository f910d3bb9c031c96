//! Wall-clock time in Unix milliseconds.
use vstd::prelude::*;
use std::time::Duration;
use std::time::SystemTime;

verus! {

/// `std::time::SystemTime`, carried as an opaque value.
#[verifier::external_type_specification]
#[verifier::external_body]
pub struct ExSystemTime(SystemTime);

/// Calls `std::time::SystemTime::now`; nothing is stated of the reading.
#[verifier::external_body]
fn current_time() -> SystemTime {
    SystemTime::now()
}

/// Calls `SystemTime::duration_since` with `UNIX_EPOCH`; `None` stands for
/// its error, a reading earlier than the epoch. Nothing more is stated.
#[verifier::external_body]
fn time_since_unix_epoch(t: SystemTime) -> Option<Duration> {
    match t.duration_since(std::time::UNIX_EPOCH) {
        Ok(d) => Some(d),
        Err(_) => None,
    }
}

/// Calls `Duration::as_millis`; nothing is stated of the count.
#[verifier::external_body]
fn whole_millis(d: Duration) -> u128 {
    d.as_millis()
}

/// The millisecond count kept for a clock reading: the elapsed whole
/// milliseconds since the epoch cut to 64 bits, or 0 for a reading
/// before the epoch.
pub fn epoch_millis(elapsed: Option<u128>) -> (ms: u64)
    ensures
        ms == match elapsed {
            Some(m) => m as u64,
            None => 0u64,
        },
{
    match elapsed {
        Some(m) => m as u64,
        None => 0,
    }
}

/// The whole milliseconds from the Unix epoch to the clock's reading, or
/// `None` when the clock reads a time before the epoch.
pub(crate) fn clock_reading() -> Option<u128> {
    match time_since_unix_epoch(current_time()) {
        Some(d) => Some(whole_millis(d)),
        None => None,
    }
}

/// The current time in Unix milliseconds, or 0 when the clock reads a time
/// before the epoch.
pub fn now_millis() -> u64 {
    epoch_millis(clock_reading())
}

} // verus!

//! Wall-clock time in milliseconds since the Unix epoch.
use std::time::{Duration, SystemTime, SystemTimeError};
use vstd::prelude::*;

verus! {

/// `std::time::SystemTime`, a reading of the system clock.
#[verifier::external_type_specification]
#[verifier::external_body]
pub struct ExSystemTime(std::time::SystemTime);

/// `std::time::SystemTimeError`, the error of a time that lies before another.
#[verifier::external_type_specification]
#[verifier::external_body]
pub struct ExSystemTimeError(std::time::SystemTimeError);

/// `SystemTime::now`. Nothing is claimed of the reading.
pub assume_specification[ std::time::SystemTime::now ]() -> std::time::SystemTime;

/// `Duration::as_millis`. Nothing is claimed of the number: the spans that it
/// is asked of come from the system clock.
pub assume_specification[ std::time::Duration::as_millis ](d: &std::time::Duration) -> u128;

/// `SystemTime::duration_since`, asked of the Unix epoch. Nothing is claimed of
/// the span: it is a matter of the clock reading, which is opaque.
#[verifier::external_body]
fn since_unix_epoch(t: SystemTime) -> Result<Duration, SystemTimeError> {
    t.duration_since(std::time::UNIX_EPOCH)
}

/// The milliseconds since the epoch, kept to 64 bits; 0 for a clock that stands
/// before the epoch.
pub fn epoch_millis(since: Option<u128>) -> (ms: u64)
    ensures
        ms == match since {
            Some(millis) => millis as int % 0x1_0000_0000_0000_0000,
            None => 0,
        },
{
    match since {
        Some(millis) => {
            assert(millis as u64 == millis % 0x1_0000_0000_0000_0000u128) by (bit_vector);
            #[verifier::truncate]
            (millis as u64)
        },
        None => 0,
    }
}

/// Milliseconds since the Unix epoch by the system clock; 0 where the clock
/// stands before the epoch. No more can be said of the result, which is a
/// matter of the clock; `epoch_millis` says how it follows from the reading.
pub fn now_ms() -> u64 {
    match since_unix_epoch(SystemTime::now()) {
        Ok(d) => epoch_millis(Some(d.as_millis())),
        Err(_) => epoch_millis(None),
    }
}

} // verus!

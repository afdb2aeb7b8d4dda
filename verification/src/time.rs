//! The clock, read in whole seconds since the Unix epoch.

use vstd::prelude::*;

verus! {

/// `std::time::SystemTime`, a reading of the system clock. Nothing of a
/// reading is seen here; it is handed on.
#[verifier::external_type_specification]
#[verifier::external_body]
pub struct ExSystemTime(std::time::SystemTime);

/// `std::time::SystemTimeError`, the error of a reading that lies before
/// the time it is measured from.
#[verifier::external_type_specification]
#[verifier::external_body]
pub struct ExSystemTimeError(std::time::SystemTimeError);

/// `std::time::SystemTime::now` reads the system clock. Nothing is claimed
/// of the reading.
pub assume_specification[ std::time::SystemTime::now ]() -> (time: std::time::SystemTime);

/// `core::time::Duration::as_secs` gives the whole seconds of a duration.
/// Nothing is claimed of the number.
pub assume_specification[ core::time::Duration::as_secs ](duration: &core::time::Duration) -> (secs:
    u64);

/// Calls `std::time::SystemTime::duration_since` for the time that has passed
/// from the Unix epoch to `time`; it fails where `time` lies before the
/// epoch. Nothing is claimed of the duration.
#[verifier::external_body]
fn since_unix_epoch(time: &std::time::SystemTime) -> Result<
    core::time::Duration,
    std::time::SystemTimeError,
> {
    time.duration_since(std::time::UNIX_EPOCH)
}

/// Whole seconds from the Unix epoch to `time`; 0 for a time before the
/// epoch.
pub(crate) fn unix_time(time: std::time::SystemTime) -> u64 {
    let elapsed = match since_unix_epoch(&time) {
        Ok(duration) => Some(duration.as_secs()),
        Err(_) => None,
    };
    seconds_since_epoch(elapsed)
}

/// The seconds to go by for a time of which `elapsed` is known: the whole
/// seconds from the Unix epoch to it, or `None` where it lies before the
/// epoch. A time before the epoch counts as the epoch itself.
pub fn seconds_since_epoch(elapsed: Option<u64>) -> (secs: u64)
    ensures
        secs == (match elapsed {
            Some(whole) => whole,
            None => 0,
        }),
{
    match elapsed {
        Some(whole) => whole,
        None => 0,
    }
}

} // verus!

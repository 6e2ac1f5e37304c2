//! The wall clock, in milliseconds since the Unix epoch.
use vstd::prelude::*;
use std::time::Duration;
use std::time::SystemTimeError;
use std::time::UNIX_EPOCH;

verus! {

#[verifier::external_type_specification]
#[verifier::external_body]
pub struct ExSystemTimeError(SystemTimeError);

/// `SystemTime::elapsed` on `UNIX_EPOCH`: the time from the epoch to the
/// system clock's present reading, or an error when the clock reads earlier
/// than the epoch. Nothing is claimed of the duration.
#[verifier::external_body]
fn since_epoch() -> Result<Duration, SystemTimeError> {
    UNIX_EPOCH.elapsed()
}

/// `Duration::as_millis`: the whole milliseconds in a duration.
pub assume_specification[ Duration::as_millis ](duration: &Duration) -> u128;

/// What a reading of the clock counts as: the milliseconds since the epoch,
/// capped at `u64::MAX`, and 0 when the clock could not be read.
pub open spec fn spec_millis(elapsed: Option<u128>) -> u64 {
    match elapsed {
        Some(millis) => if millis > u64::MAX {
            u64::MAX
        } else {
            millis as u64
        },
        None => 0,
    }
}

/// Turns a reading of the clock into a timestamp.
pub fn millis_or_zero(elapsed: Option<u128>) -> (now: u64)
    ensures
        now == spec_millis(elapsed),
{
    match elapsed {
        Some(millis) => if millis > u64::MAX as u128 {
            u64::MAX
        } else {
            millis as u64
        },
        None => 0,
    }
}

/// The current time in milliseconds since the Unix epoch; 0 if the clock is
/// set before the epoch. Every `u64` is a possible answer.
pub fn time() -> u64 {
    match since_epoch() {
        Ok(duration) => millis_or_zero(Some(duration.as_millis())),
        Err(_) => millis_or_zero(None),
    }
}

} // verus!

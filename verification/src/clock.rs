//! The time of day, in whole seconds of Unix time.

use std::time::{Duration, SystemTime, SystemTimeError};
use vstd::prelude::*;

verus! {

/// `std::time::SystemTime`.
#[verifier::external_type_specification]
#[verifier::external_body]
pub struct ExSystemTime(SystemTime);

/// `std::time::SystemTimeError`.
#[verifier::external_type_specification]
#[verifier::external_body]
pub struct ExSystemTimeError(SystemTimeError);

/// How long `now` is after the Unix epoch, unless it is before it.
pub uninterp spec fn since_epoch_of(now: SystemTime) -> Option<Duration>;

/// The whole seconds of a duration.
pub uninterp spec fn whole_seconds_of(elapsed: Duration) -> u64;

/// `SystemTime::now`: what it returns rests on the clock of the machine, so nothing is said of it.
pub assume_specification[ SystemTime::now ]() -> (now: SystemTime)
;

/// `Duration::as_secs`: the whole seconds, without the fraction.
pub assume_specification[ Duration::as_secs ](elapsed: &Duration) -> (secs: u64)
    ensures
        secs == whole_seconds_of(*elapsed),
;

/// `SystemTime::duration_since` the Unix epoch: an error exactly when `now` is before it.
#[verifier::external_body]
pub(crate) fn since_epoch(now: &SystemTime) -> (r: Result<Duration, SystemTimeError>)
    ensures
        match r {
            Ok(elapsed) => since_epoch_of(*now) == Some(elapsed),
            Err(_) => since_epoch_of(*now) is None,
        },
{
    now.duration_since(std::time::UNIX_EPOCH)
}

/// Unix time at `now`, and 0 before the epoch.
pub open spec fn unix_seconds(now: SystemTime) -> u64 {
    match since_epoch_of(now) {
        Some(elapsed) => whole_seconds_of(elapsed),
        None => 0,
    }
}

/// Unix time at `now`, in seconds: 0 before the epoch.
pub fn secs_at(now: &SystemTime) -> (secs: u64)
    ensures
        secs == unix_seconds(*now),
{
    match since_epoch(now) {
        Ok(elapsed) => elapsed.as_secs(),
        Err(_) => 0,
    }
}

/// Current Unix time in seconds: that of the moment at which the clock is read.
pub fn now_secs() -> (secs: u64)
    ensures
        exists|now: SystemTime| secs == unix_seconds(now),
{
    let now = SystemTime::now();
    secs_at(&now)
}

/// Unix time is the whole seconds since the epoch, and 0 before it.
pub proof fn law_time_since_epoch(now: SystemTime)
    ensures
        since_epoch_of(now) matches Some(elapsed) ==> unix_seconds(now) == whole_seconds_of(
            elapsed,
        ),
        since_epoch_of(now) is None ==> unix_seconds(now) == 0,
{
}

} // verus!

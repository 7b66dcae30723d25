use vstd::prelude::*;

use std::time::{Duration, SystemTime, SystemTimeError};

use crate::error::TaskError;

verus! {

#[verifier::external_type_specification]
#[verifier::external_body]
pub struct ExSystemTime(SystemTime);

/// Calls `std::time::SystemTime::now`. The reading depends on the machine's
/// clock, so nothing is promised of it.
#[verifier::external_body]
fn current_time() -> (t: SystemTime) {
    SystemTime::now()
}

#[verifier::external_type_specification]
#[verifier::external_body]
pub struct ExSystemTimeError(SystemTimeError);

/// Calls `SystemTime::duration_since` with `UNIX_EPOCH`: the time elapsed
/// since the epoch, or an error when the reading is earlier than the epoch.
/// Both are opaque here, so nothing is promised of either.
#[verifier::external_body]
fn elapsed_since_epoch(t: &SystemTime) -> (d: Result<Duration, SystemTimeError>) {
    t.duration_since(std::time::UNIX_EPOCH)
}

/// Calls `Duration::as_secs`: the whole seconds of the duration. The duration
/// is opaque here, so no clause ties the number to it.
#[verifier::external_body]
fn whole_seconds(d: &Duration) -> (secs: u64) {
    d.as_secs()
}

/// Seconds since the Unix epoch by the system clock, `None` when the clock
/// reads before the epoch.
pub fn system_secs_since_epoch() -> (secs: Option<u64>) {
    let t = current_time();
    match elapsed_since_epoch(&t) {
        Ok(d) => Some(whole_seconds(&d)),
        Err(_) => None,
    }
}

/// The two's-complement reinterpretation of a count of seconds as a signed
/// timestamp, as `u64 as i64` does.
pub fn secs_to_i64(secs: u64) -> (t: i64)
    ensures
        t == secs as i64,
{
    secs as i64
}

/// The current Unix time in seconds; an error when the clock reads before the
/// epoch.
pub fn unix_now() -> (r: Result<i64, TaskError>)
    ensures
        r is Err ==> r == Err::<i64, TaskError>(TaskError::ClockBeforeEpoch),
{
    match system_secs_since_epoch() {
        Some(secs) => Ok(secs_to_i64(secs)),
        None => Err(TaskError::ClockBeforeEpoch),
    }
}

} // verus!

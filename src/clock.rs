use vstd::prelude::*;

use std::time::{Duration, SystemTime, SystemTimeError};

verus! {

/// std's `SystemTime`, carried through opaquely.
#[verifier::external_type_specification]
#[verifier::external_body]
pub struct ExSystemTime(SystemTime);

/// std's `SystemTimeError`, carried through opaquely.
#[verifier::external_type_specification]
#[verifier::external_body]
pub struct ExSystemTimeError(SystemTimeError);

/// Relies on `SystemTime::now`: the system clock, nothing promised of it.
pub assume_specification[ SystemTime::now ]() -> SystemTime;

/// Relies on `Duration::as_secs`: the whole seconds of a duration.
pub assume_specification[ Duration::as_secs ](d: &Duration) -> u64;

/// Relies on `SystemTime::duration_since` from the Unix epoch: the time
/// elapsed since then, or an error when the clock stands before it.
#[verifier::external_body]
fn since_unix_epoch(t: SystemTime) -> (r: Result<Duration, SystemTimeError>) {
    t.duration_since(std::time::UNIX_EPOCH)
}

/// Seconds since the Unix epoch by the system clock, or zero when the clock
/// stands before the epoch.
pub fn get_unix_time() -> u64 {
    match since_unix_epoch(SystemTime::now()) {
        Ok(n) => n.as_secs(),
        Err(_) => 0,
    }
}

} // verus!

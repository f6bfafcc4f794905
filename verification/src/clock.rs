//! The system clock.
use std::time::{SystemTime, UNIX_EPOCH};
use vstd::prelude::*;

verus! {

#[verifier::external_type_specification]
#[verifier::external_body]
pub struct ExSystemTime(SystemTime);

/// `SystemTime::now`. Nothing is promised of the reading: it is the time.
#[verifier::external_body]
fn system_now() -> SystemTime {
    SystemTime::now()
}

/// `SystemTime::duration_since(UNIX_EPOCH)`, in nanoseconds; `None` for an
/// instant before the epoch.
#[verifier::external_body]
fn nanos_since_epoch(t: SystemTime) -> Option<u128> {
    match t.duration_since(UNIX_EPOCH) {
        Ok(d) => Some(d.as_nanos()),
        Err(_) => None,
    }
}

/// Reads the system clock as nanoseconds since the Unix epoch; a clock set
/// before the epoch reads as 0.
pub(crate) fn unix_time_nanos() -> u128 {
    match nanos_since_epoch(system_now()) {
        Some(n) => n,
        None => 0,
    }
}

} // verus!

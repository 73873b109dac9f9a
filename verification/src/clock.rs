//! Wall-clock timestamps in whole seconds since the Unix epoch.

use vstd::prelude::*;

use std::time::SystemTime;

verus! {

#[verifier::external_type_specification]
#[verifier::external_body]
pub struct ExSystemTime(SystemTime);

/// Wraps `SystemTime::now`. The current time depends on the machine's clock,
/// so nothing is claimed of the value returned.
#[verifier::external_body]
fn system_time_now() -> SystemTime {
    SystemTime::now()
}

/// Wraps `SystemTime::duration_since(UNIX_EPOCH)` followed by
/// `Duration::as_secs`: `None` when `t` lies before the epoch. Nothing is
/// claimed of the number of seconds, since `t` is opaque here.
#[verifier::external_body]
fn seconds_since_unix_epoch(t: &SystemTime) -> Option<u64> {
    match t.duration_since(std::time::UNIX_EPOCH) {
        Ok(d) => Some(d.as_secs()),
        Err(_) => None,
    }
}

/// The timestamp recorded for an instant that lies `secs` whole seconds after
/// the epoch: the seconds reinterpreted as a signed 64-bit integer, or 0 when
/// the instant lies before the epoch.
pub open spec fn spec_timestamp(secs: Option<u64>) -> i64 {
    match secs {
        Some(s) => s as i64,
        None => 0,
    }
}

/// Converts the outcome of reading the clock into a timestamp.
pub fn timestamp_from_secs(secs: Option<u64>) -> (ts: i64)
    ensures
        ts == spec_timestamp(secs),
{
    match secs {
        Some(s) => s as i64,
        None => 0,
    }
}

/// Seconds since the Unix epoch according to the system clock, or 0 when the
/// clock reads a time before the epoch.
pub fn current_timestamp() -> i64 {
    let now = system_time_now();
    let secs = seconds_since_unix_epoch(&now);
    timestamp_from_secs(secs)
}

} // verus!

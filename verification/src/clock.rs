//! Reading the system clock as a plain timestamp.
use std::time::{SystemTime, UNIX_EPOCH};
use vstd::prelude::*;

verus! {

/// A point in time: whole seconds since the Unix epoch (UTC) and the
/// nanoseconds past that second.
#[derive(Debug, Clone, Copy, PartialEq, Eq)]
pub struct Timestamp {
    pub secs: i64,
    pub nanos: u32,
}

/// The system clock's reading (`std::time::SystemTime`).
#[verifier::external_type_specification]
#[verifier::external_body]
pub struct ExSystemTime(SystemTime);

/// Reads the system clock (`SystemTime::now`). Nothing is stated of the reading.
#[verifier::external_body]
fn system_now() -> (t: SystemTime) {
    SystemTime::now()
}

/// The time from the Unix epoch to `t`, as whole seconds and the nanoseconds
/// past them (`SystemTime::duration_since(UNIX_EPOCH)`, read with
/// `Duration::as_secs` and `Duration::subsec_nanos`); `None` when `t` is before
/// the epoch. `subsec_nanos` is documented to be less than one billion.
#[verifier::external_body]
fn since_epoch(t: &SystemTime) -> (r: Option<(u64, u32)>)
    ensures
        r matches Some(p) ==> p.1 < 1_000_000_000,
{
    match t.duration_since(UNIX_EPOCH) {
        Ok(d) => Some((d.as_secs(), d.subsec_nanos())),
        Err(_) => None,
    }
}

/// The message of the error for a clock reading that no timestamp holds.
pub open spec fn clock_error_message() -> Seq<char> {
    "system clock is outside the supported range"@
}

/// The timestamp of a time since the Unix epoch, as `since_epoch` reads it:
/// whole seconds and nanoseconds become a timestamp when the seconds fit its
/// field; a time before the epoch (`None`) or beyond that range is an error.
pub fn timestamp_from(since: Option<(u64, u32)>) -> (r: Result<Timestamp, String>)
    ensures
        match since {
            Some((secs, nanos)) => if secs <= i64::MAX {
                r == Ok::<Timestamp, String>(Timestamp { secs: secs as i64, nanos })
            } else {
                r matches Err(m) && m@ == clock_error_message()
            },
            None => r matches Err(m) && m@ == clock_error_message(),
        },
{
    match since {
        Some((secs, nanos)) => {
            if secs <= i64::MAX as u64 {
                Ok(Timestamp { secs: secs as i64, nanos })
            } else {
                Err("system clock is outside the supported range".to_string())
            }
        },
        None => Err("system clock is outside the supported range".to_string()),
    }
}

/// The current time; an error when the system clock reads before the Unix
/// epoch or past the range of the seconds field.
pub fn now() -> (r: Result<Timestamp, String>)
    ensures
        r matches Ok(t) ==> 0 <= t.secs && t.nanos < 1_000_000_000,
        r matches Err(m) ==> m@ == clock_error_message(),
{
    let reading = system_now();
    timestamp_from(since_epoch(&reading))
}

} // verus!

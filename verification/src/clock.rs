//! Wall-clock readings and local-time rendering, through `std::time` and `chrono`.

pub use crate::local_time::{
    file_stamp_text, hhmm_text, rfc3339_of, MAX_TIMESTAMP_MILLIS, MIN_TIMESTAMP_MILLIS,
};
use crate::local_time::{format_local, local_chrono, local_now, local_rfc3339, to_local, utc_from_millis};
use std::time::{Duration, SystemTime};
use vstd::prelude::*;

verus! {

#[verifier::external_type_specification]
#[verifier::external_body]
pub struct ExSystemTime(SystemTime);

/// `SystemTime::now`: the current system time. Nothing is promised of it.
#[verifier::external_body]
fn system_time_now() -> SystemTime {
    SystemTime::now()
}

/// `SystemTime::duration_since(UNIX_EPOCH)`, with the error turned into `None`: the time
/// elapsed since the Unix epoch, or `None` when the clock reads earlier than the epoch.
/// Nothing is promised of the value, which comes from the machine's clock.
#[verifier::external_body]
fn since_unix_epoch(t: &SystemTime) -> Option<Duration> {
    t.duration_since(SystemTime::UNIX_EPOCH).ok()
}

/// `Duration::as_millis`: the whole milliseconds of a duration. `Duration` is opaque here,
/// so nothing is stated of the value.
#[verifier::external_body]
fn duration_millis(d: &Duration) -> u128 {
    d.as_millis()
}

/// The millisecond value that a reading of the clock gives: the whole milliseconds elapsed
/// since the Unix epoch, wrapped into an `i64`, or 0 when the clock read earlier than the
/// epoch.
pub fn millis_since_epoch(elapsed: Option<u128>) -> (r: i64)
    ensures
        r == match elapsed {
            Some(m) => m as i64,
            None => 0,
        },
{
    match elapsed {
        Some(m) => m as i64,
        None => 0,
    }
}

/// Milliseconds since the Unix epoch by the system clock, or 0 when the clock reads earlier
/// than the epoch. The reading comes from the machine, and any `i64` can come of it, so the
/// contract states nothing of the result.
pub fn now_millis() -> i64 {
    let now = system_time_now();
    let elapsed = match since_unix_epoch(&now) {
        Some(d) => Some(duration_millis(&d)),
        None => None,
    };
    millis_since_epoch(elapsed)
}

/// `HH:MM` in local time for a millisecond timestamp; the empty string when chrono cannot
/// represent the timestamp.
pub fn fmt_local_hhmm(ts_millis: i64) -> (r: String)
    ensures
        MIN_TIMESTAMP_MILLIS <= ts_millis <= MAX_TIMESTAMP_MILLIS ==> hhmm_text(r@),
        !(MIN_TIMESTAMP_MILLIS <= ts_millis <= MAX_TIMESTAMP_MILLIS) ==> r@ == Seq::<char>::empty(),
{
    match utc_from_millis(ts_millis) {
        Some(utc) => {
            let local = to_local(&utc);
            format_local(local_chrono(&local), "%H:%M")
        },
        None => String::new(),
    }
}

/// RFC 3339 local time for a millisecond timestamp; the empty string when chrono cannot
/// represent the timestamp.
pub fn fmt_local_rfc3339(ts_millis: i64) -> (r: String)
    ensures
        MIN_TIMESTAMP_MILLIS <= ts_millis <= MAX_TIMESTAMP_MILLIS ==> rfc3339_of(r@, ts_millis as int),
        !(MIN_TIMESTAMP_MILLIS <= ts_millis <= MAX_TIMESTAMP_MILLIS) ==> r@ == Seq::<char>::empty(),
{
    match utc_from_millis(ts_millis) {
        Some(utc) => {
            let local = to_local(&utc);
            local_rfc3339(&local)
        },
        None => String::new(),
    }
}

/// The current local time as `YYYYMMDD-HHMMSS`.
pub fn local_file_stamp() -> (r: String)
    ensures
        file_stamp_text(r@),
{
    let now = local_now();
    format_local(&now, "%Y%m%d-%H%M%S")
}

} // verus!

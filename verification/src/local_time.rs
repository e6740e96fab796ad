//! chrono date-times and their renderings.
//!
//! chrono's `DateTime` is held inside the opaque `ChronoUtc` and `ChronoLocal`. The
//! `UtcInstant` and `LocalInstant` values that carry them next to their millisecond Unix
//! timestamp are made only by the functions of this module, so that timestamp always names
//! the instant that the chrono value holds.

use chrono::{DateTime, Local, Utc};
use vstd::prelude::*;

verus! {

/// Earliest millisecond timestamp that `DateTime::from_timestamp_millis` accepts
/// (January 2 of year -262143, UTC).
pub const MIN_TIMESTAMP_MILLIS: i64 = -8334601228800000;

/// Latest millisecond timestamp that `DateTime::from_timestamp_millis` accepts
/// (December 31 of year 262142, 23:59:59.999 UTC).
pub const MAX_TIMESTAMP_MILLIS: i64 = 8210266876799999;

/// An ASCII decimal digit.
pub open spec fn is_digit(c: char) -> bool {
    '0' <= c && c <= '9'
}

/// The value of the two characters at `i`, read as decimal digits.
pub open spec fn two_value(s: Seq<char>, i: int) -> int {
    (s[i] as u32 - 48) * 10 + (s[i + 1] as u32 - 48)
}

/// Two decimal digits at `i` whose value lies in `[lo, hi]`.
pub open spec fn two_digits_in(s: Seq<char>, i: int, lo: int, hi: int) -> bool {
    &&& 0 <= i
    &&& i + 2 <= s.len()
    &&& is_digit(s[i])
    &&& is_digit(s[i + 1])
    &&& lo <= two_value(s, i) <= hi
}

/// The value of a run of decimal digits.
pub open spec fn digits_value(s: Seq<char>) -> int
    decreases s.len(),
{
    if s.len() == 0 {
        0
    } else {
        digits_value(s.drop_last()) * 10 + (s.last() as u32 - 48)
    }
}

/// A year as chrono writes it: at least four characters, all digits but for a sign that
/// years before 0 or after 9999 carry.
pub open spec fn year_text(y: Seq<char>) -> bool {
    &&& y.len() >= 4
    &&& (is_digit(y[0]) || y[0] == '+' || y[0] == '-')
    &&& forall|k: int| 1 <= k < y.len() ==> is_digit(#[trigger] y[k])
}

/// The (astronomical) year that a year text denotes.
pub open spec fn year_value(y: Seq<char>) -> int {
    if y[0] == '-' {
        -digits_value(y.drop_first())
    } else if y[0] == '+' {
        digits_value(y.drop_first())
    } else {
        digits_value(y)
    }
}

/// Days from 1970-01-01 to a date of the proleptic Gregorian calendar.
pub open spec fn days_from_civil(year: int, month: int, day: int) -> int {
    let y = if month <= 2 {
        year - 1
    } else {
        year
    };
    let era = y / 400;
    let yoe = y - era * 400;
    let mp = if month > 2 {
        month - 3
    } else {
        month + 9
    };
    let doy = (153 * mp + 2) / 5 + day - 1;
    let doe = yoe * 365 + yoe / 4 - yoe / 100 + doy;
    era * 146097 + doe - 719468
}

/// `HH:MM`: hour 00 to 23, minute 00 to 59.
pub open spec fn hhmm_text(s: Seq<char>) -> bool {
    &&& s.len() == 5
    &&& two_digits_in(s, 0, 0, 23)
    &&& s[2] == ':'
    &&& two_digits_in(s, 3, 0, 59)
}

/// `YYYYMMDD-HHMMSS`: a year, month 01 to 12, day 01 to 31, a dash, hour 00 to 23,
/// minute 00 to 59 and second 00 to 60.
pub open spec fn file_stamp_text(s: Seq<char>) -> bool {
    let n = s.len() as int;
    &&& n >= 15
    &&& year_text(s.subrange(0, n - 11))
    &&& two_digits_in(s, n - 11, 1, 12)
    &&& two_digits_in(s, n - 9, 1, 31)
    &&& s[n - 7] == '-'
    &&& two_digits_in(s, n - 6, 0, 23)
    &&& two_digits_in(s, n - 4, 0, 59)
    &&& two_digits_in(s, n - 2, 0, 60)
}

/// An RFC 3339 date-time laid out with its `T` at index `t` and `frac` characters of
/// fractional seconds (none, or a dot and 3, 6 or 9 digits):
/// `YYYY-MM-DDTHH:MM:SS[.fff]+HH:MM`.
pub open spec fn rfc3339_layout(s: Seq<char>, t: int, frac: int) -> bool {
    &&& t >= 10
    &&& (frac == 0 || frac == 4 || frac == 7 || frac == 10)
    &&& s.len() == t + 15 + frac
    &&& year_text(s.subrange(0, t - 6))
    &&& s[t - 6] == '-'
    &&& two_digits_in(s, t - 5, 1, 12)
    &&& s[t - 3] == '-'
    &&& two_digits_in(s, t - 2, 1, 31)
    &&& s[t] == 'T'
    &&& two_digits_in(s, t + 1, 0, 23)
    &&& s[t + 3] == ':'
    &&& two_digits_in(s, t + 4, 0, 59)
    &&& s[t + 6] == ':'
    &&& two_digits_in(s, t + 7, 0, 60)
    &&& (frac > 0 ==> s[t + 9] == '.' && forall|k: int|
        t + 10 <= k < t + 9 + frac ==> is_digit(#[trigger] s[k]))
    &&& (s[t + 9 + frac] == '+' || s[t + 9 + frac] == '-')
    &&& two_digits_in(s, t + 10 + frac, 0, 24)
    &&& s[t + 12 + frac] == ':'
    &&& two_digits_in(s, t + 13 + frac, 0, 59)
}

/// The Unix millisecond instant that an RFC 3339 text laid out as `rfc3339_layout(s, t, frac)`
/// denotes: its wall-clock date and time (to the millisecond) less its offset.
pub open spec fn rfc3339_instant(s: Seq<char>, t: int, frac: int) -> int {
    let days = days_from_civil(
        year_value(s.subrange(0, t - 6)),
        two_value(s, t - 5),
        two_value(s, t - 2),
    );
    let millis = if frac == 0 {
        0
    } else {
        digits_value(s.subrange(t + 10, t + 13))
    };
    let wall = days * 86400000 + two_value(s, t + 1) * 3600000 + two_value(s, t + 4) * 60000
        + two_value(s, t + 7) * 1000 + millis;
    let offset = (two_value(s, t + 10 + frac) * 60 + two_value(s, t + 13 + frac)) * 60000;
    if s[t + 9 + frac] == '-' {
        wall + offset
    } else {
        wall - offset
    }
}

/// `s` is an RFC 3339 date-time with a numeric offset that denotes the Unix millisecond
/// `millis`, up to the rounding of the offset to whole minutes: the instant it denotes
/// differs from `millis` by whole seconds, at most 30 of them (none when the zone's offset
/// is a whole number of minutes).
pub open spec fn rfc3339_of(s: Seq<char>, millis: int) -> bool {
    exists|t: int, frac: int|
        #[trigger] rfc3339_layout(s, t, frac) && -30000 <= rfc3339_instant(s, t, frac) - millis
            <= 30000 && (rfc3339_instant(s, t, frac) - millis) % 1000 == 0
}

/// The two strftime patterns that the log renders with; chrono formats both without error.
pub open spec fn known_pattern(pattern: Seq<char>) -> bool {
    pattern == "%H:%M"@ || pattern == "%Y%m%d-%H%M%S"@
}

/// A chrono `DateTime<Utc>`, held opaquely: its type parameter is bound by chrono's
/// `TimeZone` trait, which has no specification here.
#[verifier::external_body]
struct ChronoUtc {
    inner: DateTime<Utc>,
}

/// A chrono `DateTime<Local>`, held opaquely for the same reason.
#[verifier::external_body]
pub(crate) struct ChronoLocal {
    inner: DateTime<Local>,
}

/// An instant of chrono's range in UTC, with its millisecond Unix timestamp.
pub(crate) struct UtcInstant {
    millis: i64,
    chrono: ChronoUtc,
}

/// An instant of chrono's range in the machine's time zone, with its millisecond Unix
/// timestamp.
pub(crate) struct LocalInstant {
    millis: i64,
    chrono: ChronoLocal,
}

impl UtcInstant {
    /// The millisecond Unix timestamp of the instant.
    pub(crate) closed spec fn millis(&self) -> i64 {
        self.millis
    }
}

impl LocalInstant {
    /// The millisecond Unix timestamp of the instant.
    pub(crate) closed spec fn millis(&self) -> i64 {
        self.millis
    }
}

/// `DateTime::from_timestamp_millis`: the UTC date-time of a millisecond Unix timestamp.
/// chrono returns `None` exactly outside `[MIN_TIMESTAMP_MILLIS, MAX_TIMESTAMP_MILLIS]`, as
/// its day-number and year checks give; the instant it returns is the given timestamp.
#[verifier::external_body]
pub(crate) fn utc_from_millis(millis: i64) -> (r: Option<UtcInstant>)
    ensures
        r is Some <==> MIN_TIMESTAMP_MILLIS <= millis <= MAX_TIMESTAMP_MILLIS,
        r matches Some(u) ==> u.millis() == millis,
{
    DateTime::from_timestamp_millis(millis).map(|inner| UtcInstant { millis, chrono: ChronoUtc { inner } })
}

/// `DateTime::with_timezone(&Local)`: the same instant in the machine's time zone. chrono
/// unwraps the lookup of the local offset, which fails only on unusable time-zone data of
/// the machine; the contract cannot rule that out.
#[verifier::external_body]
pub(crate) fn to_local(u: &UtcInstant) -> (r: LocalInstant)
    ensures
        r.millis() == u.millis(),
{
    LocalInstant { millis: u.millis, chrono: ChronoLocal { inner: u.chrono.inner.with_timezone(&Local) } }
}

/// `Local::now`: the current time in the machine's time zone. Nothing is promised of it.
#[verifier::external_body]
pub(crate) fn local_now() -> ChronoLocal {
    ChronoLocal { inner: Local::now() }
}

/// The chrono value of a local instant.
pub(crate) fn local_chrono(l: &LocalInstant) -> &ChronoLocal {
    &l.chrono
}

/// `DateTime::format(pattern)` rendered with `to_string`. Which date-time it shows depends on
/// the machine's time zone; what is stated is the layout of chrono's strftime: `%H` hour
/// 00-23, `%M` minute 00-59, `%S` second 00-60, `%m` month 01-12, `%d` day 01-31, all
/// zero-padded to two digits, and `%Y` the year zero-padded to four digits, with a sign
/// outside 0 to 9999. `to_string` panics on a pattern that chrono cannot render, so only the
/// two patterns that the log uses are admitted.
#[verifier::external_body]
pub(crate) fn format_local(dt: &ChronoLocal, pattern: &str) -> (r: String)
    requires
        known_pattern(pattern@),
    ensures
        pattern@ == "%H:%M"@ ==> hhmm_text(r@),
        pattern@ == "%Y%m%d-%H%M%S"@ ==> file_stamp_text(r@),
{
    dt.inner.format(pattern).to_string()
}

/// `DateTime::to_rfc3339`: the RFC 3339 rendering of a local instant. chrono writes the year
/// (four digits, signed outside 0 to 9999), `-MM-DD`, `T`, `HH:MM:SS` of the local wall clock
/// (the UTC time plus the zone's offset in seconds), fractional seconds only when not zero,
/// and the offset as `+HH:MM` or `-HH:MM` rounded to the nearest minute. So the text denotes
/// the instant up to that rounding of the offset.
#[verifier::external_body]
pub(crate) fn local_rfc3339(l: &LocalInstant) -> (r: String)
    ensures
        rfc3339_of(r@, l.millis() as int),
{
    l.chrono.inner.to_rfc3339()
}

} // verus!

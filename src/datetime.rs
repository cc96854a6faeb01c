//! Civil date-times, UTC instants as seconds since the Unix epoch, and the two
//! conversions that chrono performs for the library.
use vstd::prelude::*;
use chrono::TimeZone;
use crate::calendar::digit_char;

verus! {

/// The earliest instant a show may start at, in seconds since the Unix epoch.
pub const MIN_INSTANT: i64 = -1_000_000_000_000;

/// The latest instant a show may start at, in seconds since the Unix epoch.
pub const MAX_INSTANT: i64 = 1_000_000_000_000;

/// A date and time of day on a wall clock, with no time zone attached.
#[derive(Clone, Copy, Debug, PartialEq, Eq, Structural)]
pub struct CivilDateTime {
    pub year: i32,
    pub month: u32,
    pub day: u32,
    pub hour: u32,
    pub minute: u32,
}

pub open spec fn leap_year(y: int) -> bool {
    y % 4 == 0 && (y % 100 != 0 || y % 400 == 0)
}

pub open spec fn days_in_month(y: int, m: int) -> int {
    if m == 2 {
        if leap_year(y) { 29 } else { 28 }
    } else if m == 4 || m == 6 || m == 9 || m == 11 {
        30
    } else {
        31
    }
}

/// Days from January 1st of year `y` to the first day of month `m`.
pub open spec fn days_before_month(y: int, m: int) -> int {
    let base: int = if m == 1 { 0 } else if m == 2 { 31 } else if m == 3 { 59 } else if m == 4 { 90 }
        else if m == 5 { 120 } else if m == 6 { 151 } else if m == 7 { 181 } else if m == 8 { 212 }
        else if m == 9 { 243 } else if m == 10 { 273 } else if m == 11 { 304 } else { 334 };
    if m > 2 && leap_year(y) { base + 1 } else { base }
}

/// Leap days in the years `1..=n` of the proleptic Gregorian calendar (negative below year 1).
pub open spec fn leap_days_through(n: int) -> int {
    n / 4 - n / 100 + n / 400
}

/// Days from 1970-01-01 to the given date of the proleptic Gregorian calendar.
pub open spec fn days_from_epoch(y: int, m: int, d: int) -> int {
    365 * (y - 1970) + (leap_days_through(y - 1) - leap_days_through(1969)) + days_before_month(y, m)
        + d - 1
}

/// Whether `c` names an existing date and a time of day (seconds left at zero).
pub open spec fn valid_civil(c: CivilDateTime) -> bool {
    1 <= c.month <= 12 && 1 <= c.day <= days_in_month(c.year as int, c.month as int) && c.hour
        < 24 && c.minute < 60
}

/// Seconds since the Unix epoch of `c` read as a UTC wall clock.
pub open spec fn civil_seconds(c: CivilDateTime) -> int {
    days_from_epoch(c.year as int, c.month as int, c.day as int) * 86400 + c.hour * 3600 + c.minute
        * 60
}

/// Relies on chrono's `Local.with_ymd_and_hms(..).single()` and `DateTime::timestamp`:
/// the instant of a local wall-clock time, `None` when the date or time does not
/// exist or the local time zone maps it to no instant or to two. A time zone's
/// offset is strictly less than a day.
#[verifier::external_body]
pub(crate) fn local_to_utc(c: CivilDateTime) -> (r: Option<i64>)
    ensures
        r matches Some(t) ==> valid_civil(c) && civil_seconds(c) - 86400 < t < civil_seconds(c)
            + 86400,
{
    match chrono::Local.with_ymd_and_hms(c.year, c.month, c.day, c.hour, c.minute, 0).single() {
        Some(dt) => Some(dt.timestamp()),
        None => None,
    }
}

/// The decimal digits of `n`, zero-padded on the left to `width` digits.
pub open spec fn padded(n: int, width: nat) -> Seq<char>
    decreases width,
{
    if width == 0 {
        seq![]
    } else {
        padded(n / 10, (width - 1) as nat) + seq![digit_char((n % 10) as nat)]
    }
}

/// The UTC basic form `YYYYMMDDTHHMMSSZ` of a date-time and its seconds.
pub open spec fn basic_text(c: CivilDateTime, sec: int) -> Seq<char> {
    padded(c.year as int, 4) + padded(c.month as int, 2) + padded(c.day as int, 2) + seq!['T']
        + padded(c.hour as int, 2) + padded(c.minute as int, 2) + padded(sec, 2) + seq!['Z']
}

/// The basic form of the instant `t` is the zero-padded text of its UTC date,
/// time and seconds, when its year has four digits.
pub open spec fn basic_form_of(t: int) -> bool {
    forall|c: CivilDateTime, sec: int|
        valid_civil(c) && 0 <= c.year <= 9999 && 0 <= sec < 60 && civil_seconds(c) + sec == t
            ==> utc_basic_of(t) == #[trigger] basic_text(c, sec)
}

/// The text `%Y%m%dT%H%M%SZ` that chrono's formatting gives for the UTC instant `t`.
pub uninterp spec fn utc_basic_of(t: int) -> Seq<char>;

/// Relies on chrono's `DateTime::from_timestamp` and `format("%Y%m%dT%H%M%SZ")`: the
/// UTC date-time of an instant in iCalendar basic form, each field zero-padded
/// (the year to four digits, written without a sign in years 0 to 9999).
/// `from_timestamp` fails only outside years -262143..262142, far beyond the
/// range admitted here.
#[verifier::external_body]
pub(crate) fn format_utc_basic(t: i64) -> (r: Option<String>)
    ensures
        r matches Some(s) ==> s@ == utc_basic_of(t as int),
        r matches Some(s) ==> forall|c: CivilDateTime, sec: int|
            valid_civil(c) && 0 <= c.year <= 9999 && 0 <= sec < 60 && civil_seconds(c) + sec == t
                ==> s@ == #[trigger] basic_text(c, sec),
        -2_000_000_000_000 <= t <= 2_000_000_000_000 ==> r is Some,
{
    match chrono::DateTime::from_timestamp(t, 0) {
        Some(dt) => Some(dt.format("%Y%m%dT%H%M%SZ").to_string()),
        None => None,
    }
}

} // verus!

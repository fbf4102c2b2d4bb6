//! Local wall-clock timestamps and their filesystem-safe renderings.

use vstd::prelude::*;
use crate::text::{append_chars, dec_i64, dec_i64_padded, dec_int, dec_int_padded, string_from};

verus! {

/// A local wall-clock date and time, to the second.
#[derive(Debug, Clone, Copy, PartialEq, Eq, Structural)]
pub struct LocalDateTime {
    pub year: i32,
    pub month: u32,
    pub day: u32,
    pub hour: u32,
    pub minute: u32,
    pub second: u32,
}

/// Proleptic Gregorian leap year.
pub open spec fn is_leap_year(y: int) -> bool {
    (y % 4 == 0 && y % 100 != 0) || y % 400 == 0
}

pub open spec fn days_in_month(y: int, m: int) -> int {
    if m == 2 {
        if is_leap_year(y) {
            29
        } else {
            28
        }
    } else if m == 4 || m == 6 || m == 9 || m == 11 {
        30
    } else {
        31
    }
}

/// The years `chrono::NaiveDate` represents.
pub open spec fn in_date_range(y: int) -> bool {
    -262143 <= y <= 262142
}

/// A calendar day that exists in the proleptic Gregorian calendar, within chrono's year range.
pub open spec fn date_exists(y: int, m: int, d: int) -> bool {
    in_date_range(y) && 1 <= m <= 12 && 1 <= d <= days_in_month(y, m)
}

/// A time of day without a leap second.
pub open spec fn time_exists(h: int, mi: int, s: int) -> bool {
    0 <= h < 24 && 0 <= mi < 60 && 0 <= s < 60
}

/// `chrono::NaiveDate::from_ymd_opt(y, m, d).is_some()`: chrono's documentation states it is
/// `None` exactly when the calendar day does not exist, the month or day is invalid, or the year
/// is out of its range; the contract says that, over the proleptic Gregorian calendar.
#[verifier::external_body]
pub(crate) fn ymd_exists(y: i32, m: u32, d: u32) -> (r: bool)
    ensures
        r == date_exists(y as int, m as int, d as int),
{
    chrono::NaiveDate::from_ymd_opt(y, m, d).is_some()
}

/// `chrono::NaiveTime::from_hms_opt(h, mi, s).is_some()` (what `NaiveDate::and_hms_opt` defers
/// to): `None` exactly on an hour above 23, or a minute or second above 59.
#[verifier::external_body]
pub(crate) fn hms_exists(h: u32, mi: u32, s: u32) -> (r: bool)
    ensures
        r == time_exists(h as int, mi as int, s as int),
{
    chrono::NaiveTime::from_hms_opt(h, mi, s).is_some()
}

/// `YYYY-MM-DD`.
pub open spec fn format_date_spec(dt: LocalDateTime) -> Seq<char> {
    dec_int_padded(dt.year as int, 4) + seq!['-'] + dec_int_padded(dt.month as int, 2) + seq!['-']
        + dec_int_padded(dt.day as int, 2)
}

/// `HH-MM-SS` (dashes are filesystem-safe, unlike colons).
pub open spec fn format_time_spec(dt: LocalDateTime) -> Seq<char> {
    dec_int_padded(dt.hour as int, 2) + seq!['-'] + dec_int_padded(dt.minute as int, 2) + seq!['-']
        + dec_int_padded(dt.second as int, 2)
}

/// `YYYY-MM-DD_HH-MM-SS`.
pub open spec fn format_datetime_spec(dt: LocalDateTime) -> Seq<char> {
    format_date_spec(dt) + seq!['_'] + format_time_spec(dt)
}

fn three_fields(a: i64, wa: usize, sep: char, b: i64, c: i64) -> (r: Vec<char>)
    ensures
        r@ == dec_int_padded(a as int, wa as int) + seq![sep] + dec_int_padded(b as int, 2) + seq![
            sep,
        ] + dec_int_padded(c as int, 2),
{
    let mut out = dec_i64_padded(a, wa);
    out.push(sep);
    let bv = dec_i64_padded(b, 2);
    append_chars(&mut out, &bv);
    out.push(sep);
    let cv = dec_i64_padded(c, 2);
    append_chars(&mut out, &cv);
    out
}

fn date_chars(dt: &LocalDateTime) -> (r: Vec<char>)
    ensures
        r@ == format_date_spec(*dt),
{
    three_fields(dt.year as i64, 4, '-', dt.month as i64, dt.day as i64)
}

fn time_chars(dt: &LocalDateTime) -> (r: Vec<char>)
    ensures
        r@ == format_time_spec(*dt),
{
    three_fields(dt.hour as i64, 2, '-', dt.minute as i64, dt.second as i64)
}

/// `YYYY-MM-DD` (from a local wall-clock timestamp).
pub fn format_date(dt: &LocalDateTime) -> (r: String)
    ensures
        r@ == format_date_spec(*dt),
{
    string_from(&date_chars(dt))
}

/// `HH-MM-SS`.
pub fn format_time(dt: &LocalDateTime) -> (r: String)
    ensures
        r@ == format_time_spec(*dt),
{
    string_from(&time_chars(dt))
}

/// `YYYY-MM-DD_HH-MM-SS`.
pub fn format_datetime(dt: &LocalDateTime) -> (r: String)
    ensures
        r@ == format_datetime_spec(*dt),
{
    let mut out = date_chars(dt);
    out.push('_');
    let t = time_chars(dt);
    append_chars(&mut out, &t);
    string_from(&out)
}

/// Human duration like `1:02:03` or `2:05` from a whole number of seconds (negative counts as
/// 0): hours only when there are any, minutes and seconds two-digit after a colon.
pub open spec fn format_duration_spec(total_seconds: i64) -> Seq<char> {
    let safe: int = if total_seconds < 0 {
        0
    } else {
        total_seconds as int
    };
    let hours = safe / 3600;
    let minutes = (safe % 3600) / 60;
    let seconds = safe % 60;
    if hours > 0 {
        dec_int(hours) + seq![':'] + dec_int_padded(minutes, 2) + seq![':'] + dec_int_padded(seconds, 2)
    } else {
        dec_int(minutes) + seq![':'] + dec_int_padded(seconds, 2)
    }
}

/// Format a duration given in whole seconds (see [`format_duration_spec`]).
pub fn format_duration(total_seconds: i64) -> (r: String)
    ensures
        r@ == format_duration_spec(total_seconds),
{
    let safe: i64 = if total_seconds < 0 {
        0
    } else {
        total_seconds
    };
    let hours = safe / 3600;
    let minutes = (safe % 3600) / 60;
    let seconds = safe % 60;
    let mut out: Vec<char>;
    if hours > 0 {
        out = dec_i64(hours);
        out.push(':');
        append_chars(&mut out, &dec_i64_padded(minutes, 2));
    } else {
        out = dec_i64(minutes);
    }
    out.push(':');
    append_chars(&mut out, &dec_i64_padded(seconds, 2));
    assert(out@ =~= format_duration_spec(total_seconds));
    string_from(&out)
}

} // verus!

use vstd::prelude::*;
use vstd::string::*;

use crate::text::{digit_char, padded_decimal, push_char, push_padded};

verus! {

pub const SECS_PER_DAY: u64 = 86400;

/// A calendar date and time of day in UTC.
#[derive(Debug, Clone, Copy, PartialEq, Eq, Structural)]
pub struct DateTime {
    pub year: u64,
    pub month: u64,
    pub day: u64,
    pub hour: u64,
    pub minute: u64,
    pub second: u64,
    /// 0 for Sunday up to 6 for Saturday.
    pub weekday: u64,
}

/// The proleptic Gregorian date of `days` days after 1970-01-01, as (year, month, day).
pub open spec fn civil_from_days(days: int) -> (int, int, int) {
    let z = days + 719468;
    let era = z / 146097;
    let doe = z % 146097;
    let yoe = (doe - doe / 1460 + doe / 36524 - doe / 146096) / 365;
    let doy = doe - (365 * yoe + yoe / 4 - yoe / 100);
    let mp = (5 * doy + 2) / 153;
    let d = doy - (153 * mp + 2) / 5 + 1;
    let m = if mp < 10 { mp + 3 } else { mp - 9 };
    let y = yoe + era * 400 + if m <= 2 { 1int } else { 0int };
    (y, m, d)
}

/// The UTC date and time `t` seconds after the Unix epoch.
pub open spec fn datetime_of(t: u64) -> DateTime {
    let days = t / SECS_PER_DAY;
    let secs = t % SECS_PER_DAY;
    let (y, m, d) = civil_from_days(days as int);
    DateTime {
        year: y as u64,
        month: m as u64,
        day: d as u64,
        hour: (secs / 3600) as u64,
        minute: (secs % 3600 / 60) as u64,
        second: (secs % 60) as u64,
        weekday: ((days + 4) % 7) as u64,
    }
}

/// Splits a Unix timestamp into its UTC calendar date and time of day.
pub fn datetime_from_unix(t: u64) -> (r: DateTime)
    ensures
        r == datetime_of(t),
{
    let days = t / SECS_PER_DAY;
    let secs = t % SECS_PER_DAY;
    let z = days + 719468;
    let era = z / 146097;
    let doe = z % 146097;
    let yoe = (doe - doe / 1460 + doe / 36524 - doe / 146096) / 365;
    let doy = doe - (365 * yoe + yoe / 4 - yoe / 100);
    let mp = (5 * doy + 2) / 153;
    let d = doy - (153 * mp + 2) / 5 + 1;
    let m = if mp < 10 {
        mp + 3
    } else {
        mp - 9
    };
    let y = yoe + era * 400 + if m <= 2 {
        1
    } else {
        0
    };
    DateTime {
        year: y,
        month: m,
        day: d,
        hour: secs / 3600,
        minute: secs % 3600 / 60,
        second: secs % 60,
        weekday: (days + 4) % 7,
    }
}

/// `v` in decimal, without leading zeros.
pub open spec fn decimal(v: nat) -> Seq<char>
    decreases v,
{
    if v < 10 {
        seq![digit_char(v)]
    } else {
        decimal(v / 10).push(digit_char(v % 10))
    }
}

/// A year with at least four digits.
pub open spec fn year_text(y: u64) -> Seq<char> {
    if y < 10000 {
        padded_decimal(y as nat, 4)
    } else {
        decimal(y as nat)
    }
}

/// `YYYY-MM-DD`.
pub open spec fn date_text(dt: DateTime) -> Seq<char> {
    year_text(dt.year) + "-"@ + padded_decimal(dt.month as nat, 2) + "-"@ + padded_decimal(
        dt.day as nat,
        2,
    )
}

/// `HH:MM:SS`.
pub open spec fn clock_text(dt: DateTime) -> Seq<char> {
    padded_decimal(dt.hour as nat, 2) + ":"@ + padded_decimal(dt.minute as nat, 2) + ":"@
        + padded_decimal(dt.second as nat, 2)
}

/// ISO-8601 form in UTC: `YYYY-MM-DDTHH:MM:SSZ`.
pub open spec fn iso_timestamp(t: u64) -> Seq<char> {
    date_text(datetime_of(t)) + "T"@ + clock_text(datetime_of(t)) + "Z"@
}

/// Form for people to read: `YYYY-MM-DD HH:MM:SS UTC`.
pub open spec fn readable_timestamp(t: u64) -> Seq<char> {
    date_text(datetime_of(t)) + " "@ + clock_text(datetime_of(t)) + " UTC"@
}

pub open spec fn weekday_abbr(w: u64) -> Seq<char> {
    if w == 0 {
        "Sun"@
    } else if w == 1 {
        "Mon"@
    } else if w == 2 {
        "Tue"@
    } else if w == 3 {
        "Wed"@
    } else if w == 4 {
        "Thu"@
    } else if w == 5 {
        "Fri"@
    } else {
        "Sat"@
    }
}

pub open spec fn month_abbr(m: u64) -> Seq<char> {
    if m == 1 {
        "Jan"@
    } else if m == 2 {
        "Feb"@
    } else if m == 3 {
        "Mar"@
    } else if m == 4 {
        "Apr"@
    } else if m == 5 {
        "May"@
    } else if m == 6 {
        "Jun"@
    } else if m == 7 {
        "Jul"@
    } else if m == 8 {
        "Aug"@
    } else if m == 9 {
        "Sep"@
    } else if m == 10 {
        "Oct"@
    } else if m == 11 {
        "Nov"@
    } else {
        "Dec"@
    }
}

/// RFC-822 form, as RSS dates are written: `Thu, 01 Jan 1970 00:00:00 +0000`.
pub open spec fn rfc822_timestamp(t: u64) -> Seq<char> {
    let dt = datetime_of(t);
    weekday_abbr(dt.weekday) + ", "@ + padded_decimal(dt.day as nat, 2) + " "@ + month_abbr(
        dt.month,
    ) + " "@ + year_text(dt.year) + " "@ + clock_text(dt) + " +0000"@
}

fn push_decimal(out: &mut String, v: u64)
    ensures
        final(out)@ == old(out)@ + decimal(v as nat),
    decreases v,
{
    if v < 10 {
        push_char(out, digit(v));
        assert(decimal(v as nat) == seq![digit_char(v as nat)]);
    } else {
        push_decimal(out, v / 10);
        push_char(out, digit(v % 10));
        assert(old(out)@ + decimal(v as nat) == old(out)@ + decimal((v / 10) as nat) + seq![
            digit_char((v % 10) as nat),
        ]);
    }
}

fn digit(d: u64) -> (c: char)
    requires
        d < 10,
    ensures
        c == digit_char(d as nat),
{
    ((d as u8) + 48) as char
}

fn push_year(out: &mut String, y: u64)
    ensures
        final(out)@ == old(out)@ + year_text(y),
{
    if y < 10000 {
        push_padded(out, y, 4);
    } else {
        push_decimal(out, y);
    }
}

fn push_date(out: &mut String, dt: &DateTime)
    ensures
        final(out)@ == old(out)@ + date_text(*dt),
{
    push_year(out, dt.year);
    out.append("-");
    push_padded(out, dt.month, 2);
    out.append("-");
    push_padded(out, dt.day, 2);
    assert(final(out)@ == old(out)@ + date_text(*dt));
}

fn push_clock(out: &mut String, dt: &DateTime)
    ensures
        final(out)@ == old(out)@ + clock_text(*dt),
{
    push_padded(out, dt.hour, 2);
    out.append(":");
    push_padded(out, dt.minute, 2);
    out.append(":");
    push_padded(out, dt.second, 2);
    assert(final(out)@ == old(out)@ + clock_text(*dt));
}

/// Appends the ISO-8601 UTC form of `t`.
pub fn push_iso_timestamp(out: &mut String, t: u64)
    ensures
        final(out)@ == old(out)@ + iso_timestamp(t),
{
    let dt = datetime_from_unix(t);
    push_date(out, &dt);
    out.append("T");
    push_clock(out, &dt);
    out.append("Z");
    assert(final(out)@ == old(out)@ + iso_timestamp(t));
}

/// Appends the readable UTC form of `t`.
pub fn push_readable_timestamp(out: &mut String, t: u64)
    ensures
        final(out)@ == old(out)@ + readable_timestamp(t),
{
    let dt = datetime_from_unix(t);
    push_date(out, &dt);
    out.append(" ");
    push_clock(out, &dt);
    out.append(" UTC");
    assert(final(out)@ == old(out)@ + readable_timestamp(t));
}

fn weekday_str(w: u64) -> (r: &'static str)
    ensures
        r@ == weekday_abbr(w),
{
    if w == 0 {
        "Sun"
    } else if w == 1 {
        "Mon"
    } else if w == 2 {
        "Tue"
    } else if w == 3 {
        "Wed"
    } else if w == 4 {
        "Thu"
    } else if w == 5 {
        "Fri"
    } else {
        "Sat"
    }
}

fn month_str(m: u64) -> (r: &'static str)
    ensures
        r@ == month_abbr(m),
{
    if m == 1 {
        "Jan"
    } else if m == 2 {
        "Feb"
    } else if m == 3 {
        "Mar"
    } else if m == 4 {
        "Apr"
    } else if m == 5 {
        "May"
    } else if m == 6 {
        "Jun"
    } else if m == 7 {
        "Jul"
    } else if m == 8 {
        "Aug"
    } else if m == 9 {
        "Sep"
    } else if m == 10 {
        "Oct"
    } else if m == 11 {
        "Nov"
    } else {
        "Dec"
    }
}

/// Appends the RFC-822 form of `t`.
pub fn push_rfc822_timestamp(out: &mut String, t: u64)
    ensures
        final(out)@ == old(out)@ + rfc822_timestamp(t),
{
    let dt = datetime_from_unix(t);
    out.append(weekday_str(dt.weekday));
    out.append(", ");
    push_padded(out, dt.day, 2);
    out.append(" ");
    out.append(month_str(dt.month));
    out.append(" ");
    push_year(out, dt.year);
    out.append(" ");
    push_clock(out, &dt);
    out.append(" +0000");
    assert(final(out)@ == old(out)@ + rfc822_timestamp(t));
}

} // verus!

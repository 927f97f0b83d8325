//! Rendering and reading of HTTP dates (IMF-fixdate, e.g.
//! `Tue, 14 Nov 2023 22:13:20 GMT`) at one-second resolution.
//!
//! A timestamp is an unsigned count of seconds since the Unix epoch.
//! The wire format carries a four-digit year, so only timestamps before
//! the year 10000 — that is, below [`HTTP_DATE_LIMIT`] — can be rendered.

use vstd::prelude::*;
use vstd::string::StringExecFns;

verus! {

/// Timestamps from this value on fall in the year 10000 and have no
/// four-digit-year rendering.
pub const HTTP_DATE_LIMIT: u64 = 253402300800;

/// A timestamp that can be carried in an HTTP date.
pub open spec fn fits_http_date(t: u64) -> bool {
    t < HTTP_DATE_LIMIT
}

/// Leap years of the proleptic Gregorian calendar.
pub open spec fn is_leap_year(y: int) -> bool {
    y % 4 == 0 && (y % 100 != 0 || y % 400 == 0)
}

pub open spec fn spec_days_in_year(y: int) -> int {
    if is_leap_year(y) {
        366
    } else {
        365
    }
}

/// Days in month `m` (1 = January) of year `y`; months outside 1..=12
/// are given the default length 31, which in-range callers never see.
pub open spec fn spec_days_in_month(m: int, y: int) -> int {
    if m == 2 {
        if is_leap_year(y) {
            29
        } else {
            28
        }
    } else if m == 4 || m == 6 || m == 9 || m == 11 {
        30
    } else {
        31
    }
}

/// Walks forward from year `y`, consuming `rem` remaining days, until the
/// year containing the day is reached; yields that year and the zero-based
/// day of the year.
pub open spec fn spec_year_of(y: int, rem: int) -> (int, int)
    decreases rem,
{
    if rem < spec_days_in_year(y) {
        (y, rem)
    } else {
        spec_year_of(y + 1, rem - spec_days_in_year(y))
    }
}

/// Walks forward from month `m` of year `y`, consuming `rem` remaining
/// days; yields the month containing the day and the one-based day of the
/// month.
pub open spec fn spec_month_of(m: int, rem: int, y: int) -> (int, int)
    decreases rem,
{
    if rem < spec_days_in_month(m, y) {
        (m, rem + 1)
    } else {
        spec_month_of(m + 1, rem - spec_days_in_month(m, y), y)
    }
}

/// Calendar date (year, month, one-based day) of the given day count since
/// 1970-01-01.
pub open spec fn spec_civil_of(days: int) -> (int, int, int) {
    let (y, doy) = spec_year_of(1970, days);
    let (m, d) = spec_month_of(1, doy, y);
    (y, m, d)
}

/// Day of the week of the given day count since the epoch, 0 = Sunday.
/// Day zero, 1970-01-01, was a Thursday.
pub open spec fn spec_weekday_of(days: int) -> int {
    (days + 4) % 7
}

pub open spec fn spec_weekday_name(w: int) -> Seq<char> {
    if w == 0 {
        "Sun"@
    } else if w == 1 {
        "Mon"@
    } else if w == 2 {
        "Tue"@
    } else if w == 3 {
        "Wed"@
    } else if w == 4 {
        "Thu"@
    } else if w == 5 {
        "Fri"@
    } else {
        "Sat"@
    }
}

pub open spec fn spec_month_name(m: int) -> Seq<char> {
    if m == 1 {
        "Jan"@
    } else if m == 2 {
        "Feb"@
    } else if m == 3 {
        "Mar"@
    } else if m == 4 {
        "Apr"@
    } else if m == 5 {
        "May"@
    } else if m == 6 {
        "Jun"@
    } else if m == 7 {
        "Jul"@
    } else if m == 8 {
        "Aug"@
    } else if m == 9 {
        "Sep"@
    } else if m == 10 {
        "Oct"@
    } else if m == 11 {
        "Nov"@
    } else {
        "Dec"@
    }
}

/// The single decimal digit `d` (taken modulo nothing: values above nine
/// all render as `9`, which in-range callers never see).
pub open spec fn spec_digit(d: int) -> Seq<char> {
    if d == 0 {
        "0"@
    } else if d == 1 {
        "1"@
    } else if d == 2 {
        "2"@
    } else if d == 3 {
        "3"@
    } else if d == 4 {
        "4"@
    } else if d == 5 {
        "5"@
    } else if d == 6 {
        "6"@
    } else if d == 7 {
        "7"@
    } else if d == 8 {
        "8"@
    } else {
        "9"@
    }
}

/// `n` rendered as exactly two decimal digits, zero padded.
pub open spec fn spec_two_digits(n: int) -> Seq<char> {
    spec_digit((n / 10) % 10) + spec_digit(n % 10)
}

/// `n` rendered as exactly four decimal digits, zero padded.
pub open spec fn spec_four_digits(n: int) -> Seq<char> {
    spec_digit((n / 1000) % 10) + spec_digit((n / 100) % 10) + spec_digit((n / 10) % 10)
        + spec_digit(n % 10)
}

/// The IMF-fixdate rendering of the given calendar fields:
/// `day-name ", " 2-digit-day " " month " " 4-digit-year " " HH ":" MM ":" SS " GMT"`.
pub open spec fn spec_canonical_of_fields(
    wd: int,
    d: int,
    mo: int,
    y: int,
    h: int,
    mi: int,
    sec: int,
) -> Seq<char> {
    spec_weekday_name(wd) + ", "@ + spec_two_digits(d) + " "@ + spec_month_name(mo) + " "@
        + spec_four_digits(y) + " "@ + spec_two_digits(h) + ":"@ + spec_two_digits(mi) + ":"@
        + spec_two_digits(sec) + " GMT"@
}

/// The IMF-fixdate rendering of timestamp `t`.
pub open spec fn spec_http_date(t: int) -> Seq<char> {
    let days = t / 86400;
    let sod = t % 86400;
    let (y, m, d) = spec_civil_of(days);
    spec_canonical_of_fields(
        spec_weekday_of(days),
        d,
        m,
        y,
        sod / 3600,
        (sod % 3600) / 60,
        sod % 60,
    )
}

fn days_in_year(y: u64) -> (r: u64)
    ensures
        r == spec_days_in_year(y as int),
{
    if y % 4 == 0 && (y % 100 != 0 || y % 400 == 0) {
        366
    } else {
        365
    }
}

fn days_in_month(m: u64, y: u64) -> (r: u64)
    ensures
        r == spec_days_in_month(m as int, y as int),
{
    if m == 2 {
        if y % 4 == 0 && (y % 100 != 0 || y % 400 == 0) {
            29
        } else {
            28
        }
    } else if m == 4 || m == 6 || m == 9 || m == 11 {
        30
    } else {
        31
    }
}

/// Year and zero-based day of the year of the given day count since the
/// epoch.
fn year_of(days: u64) -> (r: (u64, u64))
    requires
        days < 0x10_0000_0000,
    ensures
        (r.0 as int, r.1 as int) == spec_year_of(1970, days as int),
        r.1 <= days,
        1970 <= r.0 <= 1970 + days,
{
    let mut y: u64 = 1970;
    let mut rem: u64 = days;
    while rem >= days_in_year(y)
        invariant
            spec_year_of(1970, days as int) == spec_year_of(y as int, rem as int),
            rem <= days < 0x10_0000_0000,
            1970 <= y,
            y - 1970 <= days - rem,
        decreases rem,
    {
        rem = rem - days_in_year(y);
        y = y + 1;
    }
    (y, rem)
}

/// Month and one-based day of the month for the zero-based day `doy` of
/// year `y`.
fn month_of(doy: u64, y: u64) -> (r: (u64, u64))
    requires
        doy < 0x10_0000_0000,
    ensures
        (r.0 as int, r.1 as int) == spec_month_of(1, doy as int, y as int),
{
    let mut m: u64 = 1;
    let mut rem: u64 = doy;
    while rem >= days_in_month(m, y)
        invariant
            spec_month_of(1, doy as int, y as int) == spec_month_of(m as int, rem as int, y as int),
            rem <= doy < 0x10_0000_0000,
            1 <= m,
            m - 1 <= doy - rem,
        decreases rem,
    {
        rem = rem - days_in_month(m, y);
        m = m + 1;
    }
    (m, rem + 1)
}

fn weekday_name(w: u64) -> (r: &'static str)
    ensures
        r@ == spec_weekday_name(w as int),
{
    match w {
        0 => "Sun",
        1 => "Mon",
        2 => "Tue",
        3 => "Wed",
        4 => "Thu",
        5 => "Fri",
        _ => "Sat",
    }
}

fn month_name(m: u64) -> (r: &'static str)
    ensures
        r@ == spec_month_name(m as int),
{
    match m {
        1 => "Jan",
        2 => "Feb",
        3 => "Mar",
        4 => "Apr",
        5 => "May",
        6 => "Jun",
        7 => "Jul",
        8 => "Aug",
        9 => "Sep",
        10 => "Oct",
        11 => "Nov",
        _ => "Dec",
    }
}

fn digit(d: u64) -> (r: &'static str)
    ensures
        r@ == spec_digit(d as int),
{
    match d {
        0 => "0",
        1 => "1",
        2 => "2",
        3 => "3",
        4 => "4",
        5 => "5",
        6 => "6",
        7 => "7",
        8 => "8",
        _ => "9",
    }
}

fn push_two_digits(out: &mut String, n: u64)
    ensures
        final(out)@ == old(out)@ + spec_two_digits(n as int),
{
    out.append(digit((n / 10) % 10));
    out.append(digit(n % 10));
    assert(out@ =~= old(out)@ + spec_two_digits(n as int));
}

fn push_four_digits(out: &mut String, n: u64)
    ensures
        final(out)@ == old(out)@ + spec_four_digits(n as int),
{
    out.append(digit((n / 1000) % 10));
    out.append(digit((n / 100) % 10));
    out.append(digit((n / 10) % 10));
    out.append(digit(n % 10));
    assert(out@ =~= old(out)@ + spec_four_digits(n as int));
}

/// The IMF-fixdate rendering of the given calendar fields.
fn canonical_of_fields(wd: u64, d: u64, mo: u64, y: u64, h: u64, mi: u64, sec: u64) -> (r: String)
    ensures
        r@ == spec_canonical_of_fields(
            wd as int,
            d as int,
            mo as int,
            y as int,
            h as int,
            mi as int,
            sec as int,
        ),
{
    let mut out = String::new();
    out.append(weekday_name(wd));
    out.append(", ");
    push_two_digits(&mut out, d);
    out.append(" ");
    out.append(month_name(mo));
    out.append(" ");
    push_four_digits(&mut out, y);
    out.append(" ");
    push_two_digits(&mut out, h);
    out.append(":");
    push_two_digits(&mut out, mi);
    out.append(":");
    push_two_digits(&mut out, sec);
    out.append(" GMT");
    assert(out@ =~= spec_canonical_of_fields(
        wd as int,
        d as int,
        mo as int,
        y as int,
        h as int,
        mi as int,
        sec as int,
    ));
    out
}

/// Render timestamp `t` as an IMF-fixdate string, the canonical form of
/// the `Last-Modified` and `If-Modified-Since` headers.
pub fn format_http_date(t: u64) -> (r: String)
    requires
        fits_http_date(t),
    ensures
        r@ == spec_http_date(t as int),
{
    let days = t / 86400;
    let sod = t % 86400;
    let (y, doy) = year_of(days);
    let (m, d) = month_of(doy, y);
    let w = (days + 4) % 7;
    canonical_of_fields(w, d, m, y, sod / 3600, (sod % 3600) / 60, sod % 60)
}

/// The value of a decimal digit character, or `-1` for any other
/// character.
pub open spec fn spec_digit_val(c: char) -> int {
    if c == '0' {
        0
    } else if c == '1' {
        1
    } else if c == '2' {
        2
    } else if c == '3' {
        3
    } else if c == '4' {
        4
    } else if c == '5' {
        5
    } else if c == '6' {
        6
    } else if c == '7' {
        7
    } else if c == '8' {
        8
    } else if c == '9' {
        9
    } else {
        -1
    }
}

/// The month number named by a three-character abbreviation, or `0` when
/// the characters name no month.
pub open spec fn spec_month_val(a: char, b: char, c: char) -> int {
    if a == 'J' && b == 'a' && c == 'n' {
        1
    } else if a == 'F' && b == 'e' && c == 'b' {
        2
    } else if a == 'M' && b == 'a' && c == 'r' {
        3
    } else if a == 'A' && b == 'p' && c == 'r' {
        4
    } else if a == 'M' && b == 'a' && c == 'y' {
        5
    } else if a == 'J' && b == 'u' && c == 'n' {
        6
    } else if a == 'J' && b == 'u' && c == 'l' {
        7
    } else if a == 'A' && b == 'u' && c == 'g' {
        8
    } else if a == 'S' && b == 'e' && c == 'p' {
        9
    } else if a == 'O' && b == 'c' && c == 't' {
        10
    } else if a == 'N' && b == 'o' && c == 'v' {
        11
    } else if a == 'D' && b == 'e' && c == 'c' {
        12
    } else {
        0
    }
}

/// Days from 1970-01-01 up to January the first of year `y`.
pub open spec fn spec_days_before_year(y: int) -> int
    decreases y,
{
    if y <= 1970 {
        0
    } else {
        spec_days_before_year(y - 1) + spec_days_in_year(y - 1)
    }
}

/// Days from January the first of year `y` up to the first of month `m`.
pub open spec fn spec_days_before_month(m: int, y: int) -> int
    decreases m,
{
    if m <= 1 {
        0
    } else {
        spec_days_before_month(m - 1, y) + spec_days_in_month(m - 1, y)
    }
}

/// The timestamp of the given calendar date and time of day.
pub open spec fn spec_timestamp_of(y: int, mo: int, d: int, h: int, mi: int, sec: int) -> int {
    (spec_days_before_year(y) + spec_days_before_month(mo, y) + (d - 1)) * 86400 + h * 3600 + mi
        * 60 + sec
}

/// Whether the 29 characters of `s` carry readable IMF-fixdate fields:
/// decimal digits in the day, year and time-of-day positions, a month
/// name, a year from 1970 on and a day of the month from 1 on. The
/// fixed separators and the weekday name are not inspected here; the
/// canonical-rendering check of [`spec_parse_http_date`] covers them.
pub open spec fn spec_date_fields_ok(s: Seq<char>) -> bool {
    &&& s.len() == 29
    &&& spec_digit_val(s[5]) >= 0
    &&& spec_digit_val(s[6]) >= 0
    &&& spec_month_val(s[8], s[9], s[10]) >= 1
    &&& spec_digit_val(s[12]) >= 0
    &&& spec_digit_val(s[13]) >= 0
    &&& spec_digit_val(s[14]) >= 0
    &&& spec_digit_val(s[15]) >= 0
    &&& spec_digit_val(s[17]) >= 0
    &&& spec_digit_val(s[18]) >= 0
    &&& spec_digit_val(s[20]) >= 0
    &&& spec_digit_val(s[21]) >= 0
    &&& spec_digit_val(s[23]) >= 0
    &&& spec_digit_val(s[24]) >= 0
    &&& 1970 <= 1000 * spec_digit_val(s[12]) + 100 * spec_digit_val(s[13]) + 10 * spec_digit_val(
        s[14],
    ) + spec_digit_val(s[15])
    &&& 1 <= 10 * spec_digit_val(s[5]) + spec_digit_val(s[6])
}

/// The timestamp spelled by the fields of `s`, read at their fixed
/// IMF-fixdate positions.
pub open spec fn spec_date_candidate(s: Seq<char>) -> int {
    spec_timestamp_of(
        1000 * spec_digit_val(s[12]) + 100 * spec_digit_val(s[13]) + 10 * spec_digit_val(s[14])
            + spec_digit_val(s[15]),
        spec_month_val(s[8], s[9], s[10]),
        10 * spec_digit_val(s[5]) + spec_digit_val(s[6]),
        10 * spec_digit_val(s[17]) + spec_digit_val(s[18]),
        10 * spec_digit_val(s[20]) + spec_digit_val(s[21]),
        10 * spec_digit_val(s[23]) + spec_digit_val(s[24]),
    )
}

/// The IMF-fixdate reading of `s`: the timestamp spelled by `s`, when
/// `s` is exactly that timestamp's canonical rendering; nothing
/// otherwise.
pub open spec fn spec_parse_imf_fixdate(s: Seq<char>) -> Option<u64> {
    if spec_date_fields_ok(s) && spec_date_candidate(s) < HTTP_DATE_LIMIT && spec_http_date(
        spec_date_candidate(s),
    ) == s {
        Option::Some(spec_date_candidate(s) as u64)
    } else {
        Option::None
    }
}

/// The weekday number named by a three-character abbreviation
/// (0 = Sunday), or `-1` when the characters name no weekday.
pub open spec fn spec_weekday_val(a: char, b: char, c: char) -> int {
    if a == 'S' && b == 'u' && c == 'n' {
        0
    } else if a == 'M' && b == 'o' && c == 'n' {
        1
    } else if a == 'T' && b == 'u' && c == 'e' {
        2
    } else if a == 'W' && b == 'e' && c == 'd' {
        3
    } else if a == 'T' && b == 'h' && c == 'u' {
        4
    } else if a == 'F' && b == 'r' && c == 'i' {
        5
    } else if a == 'S' && b == 'a' && c == 't' {
        6
    } else {
        -1
    }
}

/// The full weekday name opening an RFC 850 date, with its trailing
/// comma and space: the weekday number (0 = Sunday) and the prefix
/// length, or `(-1, 0)` when no weekday name opens `s`.
pub open spec fn spec_rfc850_prefix(s: Seq<char>) -> (int, int) {
    if s.len() >= 8 && s.subrange(0, 8) == "Monday, "@ {
        (1, 8)
    } else if s.len() >= 9 && s.subrange(0, 9) == "Tuesday, "@ {
        (2, 9)
    } else if s.len() >= 11 && s.subrange(0, 11) == "Wednesday, "@ {
        (3, 11)
    } else if s.len() >= 10 && s.subrange(0, 10) == "Thursday, "@ {
        (4, 10)
    } else if s.len() >= 8 && s.subrange(0, 8) == "Friday, "@ {
        (5, 8)
    } else if s.len() >= 10 && s.subrange(0, 10) == "Saturday, "@ {
        (6, 10)
    } else if s.len() >= 8 && s.subrange(0, 8) == "Sunday, "@ {
        (0, 8)
    } else {
        (-1, 0)
    }
}

/// Whether the 22 characters after an RFC 850 weekday prefix of length
/// `l` carry readable fields: `dd-Mon-yy hh:mm:ss GMT`.
pub open spec fn spec_rfc850_fields_ok(s: Seq<char>, l: int) -> bool {
    &&& s.len() == l + 22
    &&& spec_digit_val(s[l]) >= 0
    &&& spec_digit_val(s[l + 1]) >= 0
    &&& s[l + 2] == '-'
    &&& spec_month_val(s[l + 3], s[l + 4], s[l + 5]) >= 1
    &&& s[l + 6] == '-'
    &&& spec_digit_val(s[l + 7]) >= 0
    &&& spec_digit_val(s[l + 8]) >= 0
    &&& s[l + 9] == ' '
    &&& spec_digit_val(s[l + 10]) >= 0
    &&& spec_digit_val(s[l + 11]) >= 0
    &&& s[l + 12] == ':'
    &&& spec_digit_val(s[l + 13]) >= 0
    &&& spec_digit_val(s[l + 14]) >= 0
    &&& s[l + 15] == ':'
    &&& spec_digit_val(s[l + 16]) >= 0
    &&& spec_digit_val(s[l + 17]) >= 0
    &&& s.subrange(l + 18, l + 22) == " GMT"@
    &&& 1 <= 10 * spec_digit_val(s[l]) + spec_digit_val(s[l + 1])
}

/// The two-digit RFC 850 year behind the century rule: years below 70
/// fall in the 2000s, the rest in the 1900s.
pub open spec fn spec_rfc850_year(yy: int) -> int {
    if yy < 70 {
        2000 + yy
    } else {
        1900 + yy
    }
}

/// The RFC 850 reading of `s` (`Sunday, 06-Nov-94 08:49:37 GMT`): the
/// timestamp whose calendar fields — weekday included — are exactly the
/// ones spelled; nothing otherwise.
pub open spec fn spec_parse_rfc850(s: Seq<char>) -> Option<u64> {
    let (w, l) = spec_rfc850_prefix(s);
    if w >= 0 && spec_rfc850_fields_ok(s, l) {
        let d = 10 * spec_digit_val(s[l]) + spec_digit_val(s[l + 1]);
        let mo = spec_month_val(s[l + 3], s[l + 4], s[l + 5]);
        let y = spec_rfc850_year(10 * spec_digit_val(s[l + 7]) + spec_digit_val(s[l + 8]));
        let h = 10 * spec_digit_val(s[l + 10]) + spec_digit_val(s[l + 11]);
        let mi = 10 * spec_digit_val(s[l + 13]) + spec_digit_val(s[l + 14]);
        let sec = 10 * spec_digit_val(s[l + 16]) + spec_digit_val(s[l + 17]);
        let t = spec_timestamp_of(y, mo, d, h, mi, sec);
        if t < HTTP_DATE_LIMIT && spec_http_date(t) == spec_canonical_of_fields(
            w,
            d,
            mo,
            y,
            h,
            mi,
            sec,
        ) {
            Option::Some(t as u64)
        } else {
            Option::None
        }
    } else {
        Option::None
    }
}

/// Whether the 24 characters of `s` carry readable asctime fields:
/// `Sun Nov  6 08:49:37 1994`, the day space padded or two digits.
pub open spec fn spec_asctime_fields_ok(s: Seq<char>) -> bool {
    &&& s.len() == 24
    &&& spec_weekday_val(s[0], s[1], s[2]) >= 0
    &&& s[3] == ' '
    &&& spec_month_val(s[4], s[5], s[6]) >= 1
    &&& s[7] == ' '
    &&& (if s[8] == ' ' {
        spec_digit_val(s[9]) >= 1
    } else {
        spec_digit_val(s[8]) >= 0 && spec_digit_val(s[9]) >= 0 && 1 <= 10 * spec_digit_val(s[8])
            + spec_digit_val(s[9])
    })
    &&& s[10] == ' '
    &&& spec_digit_val(s[11]) >= 0
    &&& spec_digit_val(s[12]) >= 0
    &&& s[13] == ':'
    &&& spec_digit_val(s[14]) >= 0
    &&& spec_digit_val(s[15]) >= 0
    &&& s[16] == ':'
    &&& spec_digit_val(s[17]) >= 0
    &&& spec_digit_val(s[18]) >= 0
    &&& s[19] == ' '
    &&& spec_digit_val(s[20]) >= 0
    &&& spec_digit_val(s[21]) >= 0
    &&& spec_digit_val(s[22]) >= 0
    &&& spec_digit_val(s[23]) >= 0
    &&& 1970 <= 1000 * spec_digit_val(s[20]) + 100 * spec_digit_val(s[21]) + 10 * spec_digit_val(
        s[22],
    ) + spec_digit_val(s[23])
}

/// The asctime reading of `s` (`Sun Nov  6 08:49:37 1994`): the
/// timestamp whose calendar fields — weekday included — are exactly the
/// ones spelled; nothing otherwise.
pub open spec fn spec_parse_asctime(s: Seq<char>) -> Option<u64> {
    if spec_asctime_fields_ok(s) {
        let w = spec_weekday_val(s[0], s[1], s[2]);
        let mo = spec_month_val(s[4], s[5], s[6]);
        let d = if s[8] == ' ' {
            spec_digit_val(s[9])
        } else {
            10 * spec_digit_val(s[8]) + spec_digit_val(s[9])
        };
        let h = 10 * spec_digit_val(s[11]) + spec_digit_val(s[12]);
        let mi = 10 * spec_digit_val(s[14]) + spec_digit_val(s[15]);
        let sec = 10 * spec_digit_val(s[17]) + spec_digit_val(s[18]);
        let y = 1000 * spec_digit_val(s[20]) + 100 * spec_digit_val(s[21]) + 10 * spec_digit_val(
            s[22],
        ) + spec_digit_val(s[23]);
        let t = spec_timestamp_of(y, mo, d, h, mi, sec);
        if t < HTTP_DATE_LIMIT && spec_http_date(t) == spec_canonical_of_fields(
            w,
            d,
            mo,
            y,
            h,
            mi,
            sec,
        ) {
            Option::Some(t as u64)
        } else {
            Option::None
        }
    } else {
        Option::None
    }
}

/// What [`parse_http_date`] returns: the three date forms an HTTP
/// recipient accepts, tried in order — IMF-fixdate, then RFC 850, then
/// asctime.
pub open spec fn spec_parse_http_date(s: Seq<char>) -> Option<u64> {
    if spec_parse_imf_fixdate(s) is Some {
        spec_parse_imf_fixdate(s)
    } else if spec_parse_rfc850(s) is Some {
        spec_parse_rfc850(s)
    } else {
        spec_parse_asctime(s)
    }
}

proof fn lemma_days_before_year_nonneg(y: int)
    ensures
        spec_days_before_year(y) >= 0,
    decreases y,
{
    if y > 1970 {
        lemma_days_before_year_nonneg(y - 1);
    }
}

proof fn lemma_days_before_month_nonneg(m: int, y: int)
    ensures
        spec_days_before_month(m, y) >= 0,
    decreases m,
{
    if m > 1 {
        lemma_days_before_month_nonneg(m - 1, y);
    }
}

/// Every `If-Modified-Since` value accepted as IMF-fixdate is the
/// canonical rendering of the returned timestamp: this form never
/// widens what formatting can produce.
pub proof fn lemma_parse_imf_fixdate_sound(s: Seq<char>, t: u64)
    requires
        spec_parse_imf_fixdate(s) == Option::<u64>::Some(t),
    ensures
        s == spec_http_date(t as int),
        fits_http_date(t),
{
    let y = 1000 * spec_digit_val(s[12]) + 100 * spec_digit_val(s[13]) + 10 * spec_digit_val(
        s[14],
    ) + spec_digit_val(s[15]);
    let mo = spec_month_val(s[8], s[9], s[10]);
    lemma_days_before_year_nonneg(y);
    lemma_days_before_month_nonneg(mo, y);
    assert(spec_date_candidate(s) >= 0);
    assert(t as int == spec_date_candidate(s));
}

/// Every accepted `If-Modified-Since` value, in whichever of the three
/// forms, denotes a timestamp that fits the wire format.
pub proof fn lemma_parse_http_date_sound(s: Seq<char>, t: u64)
    requires
        spec_parse_http_date(s) == Option::<u64>::Some(t),
    ensures
        fits_http_date(t),
{
    if spec_parse_imf_fixdate(s) is Some {
        lemma_parse_imf_fixdate_sound(s, t);
    } else if spec_parse_rfc850(s) is Some {
        let (w, l) = spec_rfc850_prefix(s);
        let mo = spec_month_val(s[l + 3], s[l + 4], s[l + 5]);
        let y = spec_rfc850_year(10 * spec_digit_val(s[l + 7]) + spec_digit_val(s[l + 8]));
        lemma_days_before_year_nonneg(y);
        lemma_days_before_month_nonneg(mo, y);
    } else {
        let mo = spec_month_val(s[4], s[5], s[6]);
        let y = 1000 * spec_digit_val(s[20]) + 100 * spec_digit_val(s[21]) + 10 * spec_digit_val(
            s[22],
        ) + spec_digit_val(s[23]);
        lemma_days_before_year_nonneg(y);
        lemma_days_before_month_nonneg(mo, y);
    }
}

/// Leap years before year `y` in the proleptic Gregorian calendar,
/// counted from year 1: every fourth year, except centuries off the
/// four-hundred-year cycle.
spec fn spec_leaps_before(y: int) -> int {
    (y - 1) / 4 - (y - 1) / 100 + (y - 1) / 400
}

proof fn lemma_days_before_year_closed(y: int)
    requires
        1970 <= y,
    ensures
        spec_days_before_year(y) == 365 * (y - 1970) + spec_leaps_before(y) - spec_leaps_before(
            1970,
        ),
    decreases y,
{
    if y > 1970 {
        lemma_days_before_year_closed(y - 1);
        assert(spec_leaps_before(y) - spec_leaps_before(y - 1) == (if is_leap_year(y - 1) {
            1int
        } else {
            0int
        })) by (nonlinear_arith);
    }
}

proof fn lemma_days_before_year_mono(a: int, b: int)
    requires
        a <= b,
    ensures
        spec_days_before_year(a) <= spec_days_before_year(b),
    decreases b - a,
{
    if a < b {
        lemma_days_before_year_mono(a, b - 1);
    }
}

/// Where the year walk lands: the year reached, the day of the year it
/// carries, and the exact account of the days consumed on the way.
proof fn lemma_year_of_bounds(y0: int, rem: int)
    requires
        1970 <= y0,
        0 <= rem,
    ensures
        ({
            let (y, doy) = spec_year_of(y0, rem);
            &&& y0 <= y
            &&& 0 <= doy < spec_days_in_year(y)
            &&& spec_days_before_year(y) - spec_days_before_year(y0) + doy == rem
        }),
    decreases rem,
{
    if rem >= spec_days_in_year(y0) {
        lemma_year_of_bounds(y0 + 1, rem - spec_days_in_year(y0));
    }
}

/// Where the month walk lands, given that the remaining days fit in the
/// remaining months of the year.
proof fn lemma_month_of_bounds(m0: int, rem: int, y: int)
    requires
        1 <= m0 <= 12,
        0 <= rem,
        rem < spec_days_before_month(13, y) - spec_days_before_month(m0, y),
    ensures
        ({
            let (m, d) = spec_month_of(m0, rem, y);
            &&& m0 <= m <= 12
            &&& 1 <= d <= spec_days_in_month(m, y)
            &&& spec_days_before_month(m, y) - spec_days_before_month(m0, y) + (d - 1) == rem
        }),
    decreases rem,
{
    reveal_with_fuel(spec_days_before_month, 14);
    if rem >= spec_days_in_month(m0, y) {
        lemma_month_of_bounds(m0 + 1, rem - spec_days_in_month(m0, y), y);
    }
}

proof fn lemma_digit_round_trip(v: int)
    requires
        0 <= v <= 9,
    ensures
        spec_digit(v).len() == 1,
        spec_digit_val(spec_digit(v)[0]) == v,
{
    reveal_strlit("0");
    reveal_strlit("1");
    reveal_strlit("2");
    reveal_strlit("3");
    reveal_strlit("4");
    reveal_strlit("5");
    reveal_strlit("6");
    reveal_strlit("7");
    reveal_strlit("8");
    reveal_strlit("9");
}

proof fn lemma_two_digits_round_trip(v: int)
    requires
        0 <= v <= 99,
    ensures
        spec_two_digits(v).len() == 2,
        spec_digit_val(spec_two_digits(v)[0]) >= 0,
        spec_digit_val(spec_two_digits(v)[1]) >= 0,
        10 * spec_digit_val(spec_two_digits(v)[0]) + spec_digit_val(spec_two_digits(v)[1]) == v,
{
    lemma_digit_round_trip((v / 10) % 10);
    lemma_digit_round_trip(v % 10);
}

proof fn lemma_four_digits_round_trip(v: int)
    requires
        0 <= v <= 9999,
    ensures
        spec_four_digits(v).len() == 4,
        spec_digit_val(spec_four_digits(v)[0]) >= 0,
        spec_digit_val(spec_four_digits(v)[1]) >= 0,
        spec_digit_val(spec_four_digits(v)[2]) >= 0,
        spec_digit_val(spec_four_digits(v)[3]) >= 0,
        1000 * spec_digit_val(spec_four_digits(v)[0]) + 100 * spec_digit_val(
            spec_four_digits(v)[1],
        ) + 10 * spec_digit_val(spec_four_digits(v)[2]) + spec_digit_val(spec_four_digits(v)[3])
            == v,
{
    lemma_digit_round_trip((v / 1000) % 10);
    lemma_digit_round_trip((v / 100) % 10);
    lemma_digit_round_trip((v / 10) % 10);
    lemma_digit_round_trip(v % 10);
    vstd::arithmetic::div_mod::lemma_breakdown(v, 10, 10);
    vstd::arithmetic::div_mod::lemma_breakdown(v, 100, 10);
    vstd::arithmetic::div_mod::lemma_breakdown(v, 1000, 10);
    vstd::arithmetic::div_mod::lemma_small_mod(v as nat, 10000);
    assert(v % 10000 == 1000 * ((v / 1000) % 10) + 100 * ((v / 100) % 10) + 10 * ((v / 10) % 10)
        + v % 10);
}

proof fn lemma_month_name_round_trip(m: int)
    requires
        1 <= m <= 12,
    ensures
        spec_month_name(m).len() == 3,
        spec_month_val(spec_month_name(m)[0], spec_month_name(m)[1], spec_month_name(m)[2]) == m,
{
    reveal_strlit("Jan");
    reveal_strlit("Feb");
    reveal_strlit("Mar");
    reveal_strlit("Apr");
    reveal_strlit("May");
    reveal_strlit("Jun");
    reveal_strlit("Jul");
    reveal_strlit("Aug");
    reveal_strlit("Sep");
    reveal_strlit("Oct");
    reveal_strlit("Nov");
    reveal_strlit("Dec");
}

proof fn lemma_weekday_name_len(w: int)
    ensures
        spec_weekday_name(w).len() == 3,
{
    reveal_strlit("Sun");
    reveal_strlit("Mon");
    reveal_strlit("Tue");
    reveal_strlit("Wed");
    reveal_strlit("Thu");
    reveal_strlit("Fri");
    reveal_strlit("Sat");
}

/// Parsing accepts every canonical rendering: reading back the HTTP date
/// of any timestamp that fits the wire format yields that timestamp.
/// Together with [`lemma_parse_http_date_sound`], the accepted strings
/// are exactly the canonical renderings.
pub proof fn lemma_http_date_round_trip(t: u64)
    requires
        fits_http_date(t),
    ensures
        spec_parse_http_date(spec_http_date(t as int)) == Option::<u64>::Some(t),
{
    let ti = t as int;
    let days = ti / 86400;
    let sod = ti % 86400;
    vstd::arithmetic::div_mod::lemma_fundamental_div_mod(ti, 86400);
    vstd::arithmetic::div_mod::lemma_mod_bound(ti, 86400);
    assert(0 <= days <= 2932896 && 0 <= sod < 86400);
    lemma_year_of_bounds(1970, days);
    let (y, doy) = spec_year_of(1970, days);
    if y >= 10000 {
        lemma_days_before_year_mono(10000, y);
        lemma_days_before_year_closed(10000);
        assert(false);
    }
    reveal_with_fuel(spec_days_before_month, 14);
    assert(spec_days_before_month(13, y) == spec_days_in_year(y));
    lemma_month_of_bounds(1, doy, y);
    let (m, d) = spec_month_of(1, doy, y);
    let h = sod / 3600;
    let mi = (sod % 3600) / 60;
    let sec = sod % 60;
    vstd::arithmetic::div_mod::lemma_fundamental_div_mod(sod, 3600);
    vstd::arithmetic::div_mod::lemma_mod_bound(sod, 3600);
    vstd::arithmetic::div_mod::lemma_fundamental_div_mod(sod % 3600, 60);
    vstd::arithmetic::div_mod::lemma_mod_bound(sod % 3600, 60);
    vstd::arithmetic::div_mod::lemma_mod_mod(sod, 60, 60);
    assert(0 <= h <= 23 && 0 <= mi <= 59 && 0 <= sec <= 59 && h * 3600 + mi * 60 + sec == sod);
    let wd = spec_weekday_name(spec_weekday_of(days));
    let dd = spec_two_digits(d);
    let mn = spec_month_name(m);
    let yy = spec_four_digits(y);
    let hh = spec_two_digits(h);
    let mm = spec_two_digits(mi);
    let ss = spec_two_digits(sec);
    lemma_weekday_name_len(spec_weekday_of(days));
    lemma_two_digits_round_trip(d);
    lemma_month_name_round_trip(m);
    lemma_four_digits_round_trip(y);
    lemma_two_digits_round_trip(h);
    lemma_two_digits_round_trip(mi);
    lemma_two_digits_round_trip(sec);
    reveal_strlit(", ");
    reveal_strlit(" ");
    reveal_strlit(":");
    reveal_strlit(" GMT");
    let s = spec_http_date(ti);
    assert(s == wd + ", "@ + dd + " "@ + mn + " "@ + yy + " "@ + hh + ":"@ + mm + ":"@ + ss
        + " GMT"@);
    assert(s.len() == 29);
    assert(s[5] == dd[0]);
    assert(s[6] == dd[1]);
    assert(s[8] == mn[0]);
    assert(s[9] == mn[1]);
    assert(s[10] == mn[2]);
    assert(s[12] == yy[0]);
    assert(s[13] == yy[1]);
    assert(s[14] == yy[2]);
    assert(s[15] == yy[3]);
    assert(s[17] == hh[0]);
    assert(s[18] == hh[1]);
    assert(s[20] == mm[0]);
    assert(s[21] == mm[1]);
    assert(s[23] == ss[0]);
    assert(s[24] == ss[1]);
    assert(spec_date_fields_ok(s));
    assert(1000 * spec_digit_val(s[12]) + 100 * spec_digit_val(s[13]) + 10 * spec_digit_val(s[14])
        + spec_digit_val(s[15]) == y);
    assert(spec_date_candidate(s) == spec_timestamp_of(y, m, d, h, mi, sec));
    assert(spec_days_before_year(y) + spec_days_before_month(m, y) + (d - 1) == days);
    assert(spec_timestamp_of(y, m, d, h, mi, sec) == ti);
    assert(spec_parse_imf_fixdate(s) == Option::<u64>::Some(t));
    assert(spec_parse_http_date(s) == Option::<u64>::Some(t));
}

fn digit_val(c: char) -> (r: Option<u64>)
    ensures
        match r {
            Option::Some(v) => v <= 9 && v as int == spec_digit_val(c),
            Option::None => spec_digit_val(c) == -1,
        },
{
    match c {
        '0' => Some(0),
        '1' => Some(1),
        '2' => Some(2),
        '3' => Some(3),
        '4' => Some(4),
        '5' => Some(5),
        '6' => Some(6),
        '7' => Some(7),
        '8' => Some(8),
        '9' => Some(9),
        _ => None,
    }
}

fn month_val(a: char, b: char, c: char) -> (r: u64)
    ensures
        r <= 12,
        r as int == spec_month_val(a, b, c),
{
    if a == 'J' && b == 'a' && c == 'n' {
        1
    } else if a == 'F' && b == 'e' && c == 'b' {
        2
    } else if a == 'M' && b == 'a' && c == 'r' {
        3
    } else if a == 'A' && b == 'p' && c == 'r' {
        4
    } else if a == 'M' && b == 'a' && c == 'y' {
        5
    } else if a == 'J' && b == 'u' && c == 'n' {
        6
    } else if a == 'J' && b == 'u' && c == 'l' {
        7
    } else if a == 'A' && b == 'u' && c == 'g' {
        8
    } else if a == 'S' && b == 'e' && c == 'p' {
        9
    } else if a == 'O' && b == 'c' && c == 't' {
        10
    } else if a == 'N' && b == 'o' && c == 'v' {
        11
    } else if a == 'D' && b == 'e' && c == 'c' {
        12
    } else {
        0
    }
}

fn days_before_year(y: u64) -> (r: u64)
    requires
        1970 <= y <= 9999,
    ensures
        r == spec_days_before_year(y as int),
        r <= 366 * (y - 1970),
{
    let mut acc: u64 = 0;
    let mut cur: u64 = 1970;
    while cur < y
        invariant
            1970 <= cur <= y <= 9999,
            acc == spec_days_before_year(cur as int),
            acc <= 366 * (cur - 1970),
        decreases y - cur,
    {
        acc = acc + days_in_year(cur);
        cur = cur + 1;
    }
    acc
}

fn days_before_month(mo: u64, y: u64) -> (r: u64)
    requires
        1 <= mo <= 12,
    ensures
        r == spec_days_before_month(mo as int, y as int),
        r <= 366,
{
    let mut acc: u64 = 0;
    let mut cur: u64 = 1;
    while cur < mo
        invariant
            1 <= cur <= mo <= 12,
            acc == spec_days_before_month(cur as int, y as int),
            acc <= 31 * (cur - 1),
        decreases mo - cur,
    {
        acc = acc + days_in_month(cur, y);
        cur = cur + 1;
    }
    acc
}

/// The timestamp of the given calendar date and time of day.
fn date_candidate(y: u64, mo: u64, d: u64, h: u64, mi: u64, sec: u64) -> (r: u64)
    requires
        1970 <= y <= 9999,
        1 <= mo <= 12,
        1 <= d <= 99,
        h <= 99,
        mi <= 99,
        sec <= 99,
    ensures
        r == spec_timestamp_of(y as int, mo as int, d as int, h as int, mi as int, sec as int),
{
    let days = days_before_year(y) + days_before_month(mo, y) + (d - 1);
    days * 86400 + h * 3600 + mi * 60 + sec
}

/// Read an IMF-fixdate string back into its timestamp: exactly the
/// canonical renderings of [`format_http_date`] are accepted.
fn parse_imf_fixdate(s: &str) -> (r: Option<u64>)
    ensures
        r == spec_parse_imf_fixdate(s@),
{
    let n = s.unicode_len();
    if n != 29 {
        return None;
    }
    let d1 = match digit_val(s.get_char(5)) {
        Some(v) => v,
        None => { return None; },
    };
    let d2 = match digit_val(s.get_char(6)) {
        Some(v) => v,
        None => { return None; },
    };
    let mo = month_val(s.get_char(8), s.get_char(9), s.get_char(10));
    if mo == 0 {
        return None;
    }
    let y1 = match digit_val(s.get_char(12)) {
        Some(v) => v,
        None => { return None; },
    };
    let y2 = match digit_val(s.get_char(13)) {
        Some(v) => v,
        None => { return None; },
    };
    let y3 = match digit_val(s.get_char(14)) {
        Some(v) => v,
        None => { return None; },
    };
    let y4 = match digit_val(s.get_char(15)) {
        Some(v) => v,
        None => { return None; },
    };
    let h1 = match digit_val(s.get_char(17)) {
        Some(v) => v,
        None => { return None; },
    };
    let h2 = match digit_val(s.get_char(18)) {
        Some(v) => v,
        None => { return None; },
    };
    let mi1 = match digit_val(s.get_char(20)) {
        Some(v) => v,
        None => { return None; },
    };
    let mi2 = match digit_val(s.get_char(21)) {
        Some(v) => v,
        None => { return None; },
    };
    let s1 = match digit_val(s.get_char(23)) {
        Some(v) => v,
        None => { return None; },
    };
    let s2 = match digit_val(s.get_char(24)) {
        Some(v) => v,
        None => { return None; },
    };
    let y = 1000 * y1 + 100 * y2 + 10 * y3 + y4;
    if y < 1970 {
        return None;
    }
    let d = 10 * d1 + d2;
    if d == 0 {
        return None;
    }
    let t = date_candidate(y, mo, d, 10 * h1 + h2, 10 * mi1 + mi2, 10 * s1 + s2);
    if t >= HTTP_DATE_LIMIT {
        return None;
    }
    let formatted = format_http_date(t);
    let owned = s.to_owned();
    if owned == formatted {
        Some(t)
    } else {
        None
    }
}

fn str_eq(a: &str, b: &str) -> (r: bool)
    ensures
        r == (a@ == b@),
{
    let x = String::from_str(a);
    let y = String::from_str(b);
    x == y
}

fn weekday_val(a: char, b: char, c: char) -> (r: Option<u64>)
    ensures
        match r {
            Option::Some(w) => w <= 6 && w as int == spec_weekday_val(a, b, c),
            Option::None => spec_weekday_val(a, b, c) == -1,
        },
{
    if a == 'S' && b == 'u' && c == 'n' {
        Some(0)
    } else if a == 'M' && b == 'o' && c == 'n' {
        Some(1)
    } else if a == 'T' && b == 'u' && c == 'e' {
        Some(2)
    } else if a == 'W' && b == 'e' && c == 'd' {
        Some(3)
    } else if a == 'T' && b == 'h' && c == 'u' {
        Some(4)
    } else if a == 'F' && b == 'r' && c == 'i' {
        Some(5)
    } else if a == 'S' && b == 'a' && c == 't' {
        Some(6)
    } else {
        None
    }
}

/// Read an RFC 850 date (`Sunday, 06-Nov-94 08:49:37 GMT`) back into
/// its timestamp, two-digit years below 70 falling in the 2000s.
fn parse_rfc850(s: &str) -> (r: Option<u64>)
    ensures
        r == spec_parse_rfc850(s@),
{
    let n = s.unicode_len();
    let (w, l): (u64, usize) = if n >= 8 && str_eq(s.substring_char(0, 8), "Monday, ") {
        (1, 8)
    } else if n >= 9 && str_eq(s.substring_char(0, 9), "Tuesday, ") {
        (2, 9)
    } else if n >= 11 && str_eq(s.substring_char(0, 11), "Wednesday, ") {
        (3, 11)
    } else if n >= 10 && str_eq(s.substring_char(0, 10), "Thursday, ") {
        (4, 10)
    } else if n >= 8 && str_eq(s.substring_char(0, 8), "Friday, ") {
        (5, 8)
    } else if n >= 10 && str_eq(s.substring_char(0, 10), "Saturday, ") {
        (6, 10)
    } else if n >= 8 && str_eq(s.substring_char(0, 8), "Sunday, ") {
        (0, 8)
    } else {
        return None;
    };
    if n != l + 22 {
        return None;
    }
    let d1 = match digit_val(s.get_char(l)) {
        Some(v) => v,
        None => { return None; },
    };
    let d2 = match digit_val(s.get_char(l + 1)) {
        Some(v) => v,
        None => { return None; },
    };
    if s.get_char(l + 2) != '-' {
        return None;
    }
    let mo = month_val(s.get_char(l + 3), s.get_char(l + 4), s.get_char(l + 5));
    if mo == 0 {
        return None;
    }
    if s.get_char(l + 6) != '-' {
        return None;
    }
    let y1 = match digit_val(s.get_char(l + 7)) {
        Some(v) => v,
        None => { return None; },
    };
    let y2 = match digit_val(s.get_char(l + 8)) {
        Some(v) => v,
        None => { return None; },
    };
    if s.get_char(l + 9) != ' ' {
        return None;
    }
    let h1 = match digit_val(s.get_char(l + 10)) {
        Some(v) => v,
        None => { return None; },
    };
    let h2 = match digit_val(s.get_char(l + 11)) {
        Some(v) => v,
        None => { return None; },
    };
    if s.get_char(l + 12) != ':' {
        return None;
    }
    let mi1 = match digit_val(s.get_char(l + 13)) {
        Some(v) => v,
        None => { return None; },
    };
    let mi2 = match digit_val(s.get_char(l + 14)) {
        Some(v) => v,
        None => { return None; },
    };
    if s.get_char(l + 15) != ':' {
        return None;
    }
    let s1 = match digit_val(s.get_char(l + 16)) {
        Some(v) => v,
        None => { return None; },
    };
    let s2 = match digit_val(s.get_char(l + 17)) {
        Some(v) => v,
        None => { return None; },
    };
    if !str_eq(s.substring_char(l + 18, l + 22), " GMT") {
        return None;
    }
    let d = 10 * d1 + d2;
    if d == 0 {
        return None;
    }
    let yy = 10 * y1 + y2;
    let y = if yy < 70 {
        2000 + yy
    } else {
        1900 + yy
    };
    let h = 10 * h1 + h2;
    let mi = 10 * mi1 + mi2;
    let sec = 10 * s1 + s2;
    let t = date_candidate(y, mo, d, h, mi, sec);
    if t >= HTTP_DATE_LIMIT {
        return None;
    }
    let rebuilt = canonical_of_fields(w, d, mo, y, h, mi, sec);
    let formatted = format_http_date(t);
    if rebuilt == formatted {
        Some(t)
    } else {
        None
    }
}

/// Read an asctime date (`Sun Nov  6 08:49:37 1994`, the day space
/// padded or two digits) back into its timestamp.
fn parse_asctime(s: &str) -> (r: Option<u64>)
    ensures
        r == spec_parse_asctime(s@),
{
    let n = s.unicode_len();
    if n != 24 {
        return None;
    }
    let w = match weekday_val(s.get_char(0), s.get_char(1), s.get_char(2)) {
        Some(v) => v,
        None => { return None; },
    };
    if s.get_char(3) != ' ' {
        return None;
    }
    let mo = month_val(s.get_char(4), s.get_char(5), s.get_char(6));
    if mo == 0 {
        return None;
    }
    if s.get_char(7) != ' ' {
        return None;
    }
    let d: u64 = if s.get_char(8) == ' ' {
        match digit_val(s.get_char(9)) {
            Some(v) => v,
            None => { return None; },
        }
    } else {
        let a = match digit_val(s.get_char(8)) {
            Some(v) => v,
            None => { return None; },
        };
        let b = match digit_val(s.get_char(9)) {
            Some(v) => v,
            None => { return None; },
        };
        10 * a + b
    };
    if d == 0 {
        return None;
    }
    if s.get_char(10) != ' ' {
        return None;
    }
    let h1 = match digit_val(s.get_char(11)) {
        Some(v) => v,
        None => { return None; },
    };
    let h2 = match digit_val(s.get_char(12)) {
        Some(v) => v,
        None => { return None; },
    };
    if s.get_char(13) != ':' {
        return None;
    }
    let mi1 = match digit_val(s.get_char(14)) {
        Some(v) => v,
        None => { return None; },
    };
    let mi2 = match digit_val(s.get_char(15)) {
        Some(v) => v,
        None => { return None; },
    };
    if s.get_char(16) != ':' {
        return None;
    }
    let s1 = match digit_val(s.get_char(17)) {
        Some(v) => v,
        None => { return None; },
    };
    let s2 = match digit_val(s.get_char(18)) {
        Some(v) => v,
        None => { return None; },
    };
    if s.get_char(19) != ' ' {
        return None;
    }
    let y1 = match digit_val(s.get_char(20)) {
        Some(v) => v,
        None => { return None; },
    };
    let y2 = match digit_val(s.get_char(21)) {
        Some(v) => v,
        None => { return None; },
    };
    let y3 = match digit_val(s.get_char(22)) {
        Some(v) => v,
        None => { return None; },
    };
    let y4 = match digit_val(s.get_char(23)) {
        Some(v) => v,
        None => { return None; },
    };
    let y = 1000 * y1 + 100 * y2 + 10 * y3 + y4;
    if y < 1970 {
        return None;
    }
    let h = 10 * h1 + h2;
    let mi = 10 * mi1 + mi2;
    let sec = 10 * s1 + s2;
    let t = date_candidate(y, mo, d, h, mi, sec);
    if t >= HTTP_DATE_LIMIT {
        return None;
    }
    let rebuilt = canonical_of_fields(w, d, mo, y, h, mi, sec);
    let formatted = format_http_date(t);
    if rebuilt == formatted {
        Some(t)
    } else {
        None
    }
}

/// Read an HTTP date back into its timestamp. The three forms a
/// recipient accepts are tried in order: IMF-fixdate, RFC 850, asctime.
/// An accepted value spells the returned timestamp's calendar fields
/// exactly, weekday included; anything else — wrong shape, impossible
/// calendar date, wrong weekday name — yields nothing.
pub fn parse_http_date(s: &str) -> (r: Option<u64>)
    ensures
        r == spec_parse_http_date(s@),
{
    match parse_imf_fixdate(s) {
        Some(t) => Some(t),
        None => match parse_rfc850(s) {
            Some(t) => Some(t),
            None => parse_asctime(s),
        },
    }
}

} // verus!

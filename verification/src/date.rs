//! Calendar arithmetic for transaction dates: a plain year/month/day
//! record, Gregorian validity, conversion to and from spreadsheet day
//! serials (whose epoch lies two days before 1900-01-01, the legacy
//! off-by-two convention), weekday computation, and parsing of the
//! supported textual date formats.
//!
//! Dates are kept within the years 1900 to 9999: day serials below the
//! 1900-01-01 serial and text naming a year outside that range are
//! rejected.

use vstd::prelude::*;

use crate::text::{all_digits, digits_val, find_char, find_char_from, pow10, parse_digits_u64, subrange_chars};

verus! {

/// A calendar date as plain fields.
#[derive(Clone, Copy, Debug, PartialEq, Eq, Structural)]
pub struct Date {
    pub year: u32,
    pub month: u32,
    pub day: u32,
}

pub const MIN_YEAR: u32 = 1900;

pub const MAX_YEAR: u32 = 9999;

pub open spec fn is_leap_year(y: int) -> bool {
    y % 4 == 0 && (y % 100 != 0 || y % 400 == 0)
}

pub open spec fn spec_days_in_month(y: int, m: int) -> int {
    if m == 2 {
        if is_leap_year(y) {
            29
        } else {
            28
        }
    } else if m == 4 || m == 6 || m == 9 || m == 11 {
        30
    } else {
        31
    }
}

pub open spec fn spec_days_in_year(y: int) -> int {
    if is_leap_year(y) {
        366
    } else {
        365
    }
}

pub open spec fn valid_date(d: Date) -> bool {
    MIN_YEAR <= d.year <= MAX_YEAR && 1 <= d.month <= 12 && 1 <= d.day <= spec_days_in_month(
        d.year as int,
        d.month as int,
    )
}

pub fn is_leap(y: u32) -> (r: bool)
    ensures
        r == is_leap_year(y as int),
{
    y % 4 == 0 && (y % 100 != 0 || y % 400 == 0)
}

pub fn days_in_month(y: u32, m: u32) -> (r: u32)
    ensures
        r == spec_days_in_month(y as int, m as int),
{
    if m == 2 {
        if is_leap(y) {
            29
        } else {
            28
        }
    } else if m == 4 || m == 6 || m == 9 || m == 11 {
        30
    } else {
        31
    }
}

pub fn days_in_year(y: u32) -> (r: u32)
    ensures
        r == spec_days_in_year(y as int),
{
    if is_leap(y) {
        366
    } else {
        365
    }
}

/// Days in all years from 1900 (inclusive) up to `y` (exclusive).
pub open spec fn year_days_from_1900(y: int) -> int
    decreases y - 1900,
{
    if y <= 1900 {
        0
    } else {
        year_days_from_1900(y - 1) + spec_days_in_year(y - 1)
    }
}

/// Days in the months of year `y` before month `m`.
pub open spec fn month_days_before(y: int, m: int) -> int
    decreases m,
{
    if m <= 1 {
        0
    } else {
        month_days_before(y, m - 1) + spec_days_in_month(y, m - 1)
    }
}

/// Days elapsed from 1900-01-01 to the given date.
pub open spec fn days_from_1900(d: Date) -> int {
    year_days_from_1900(d.year as int) + month_days_before(d.year as int, d.month as int)
        + d.day - 1
}

/// The spreadsheet day serial of a date: 1900-01-01 has serial 2.
pub open spec fn serial_of(d: Date) -> int {
    days_from_1900(d) + 2
}

proof fn lemma_year_days_bounds(y: int)
    requires
        1900 <= y,
    ensures
        365 * (y - 1900) <= year_days_from_1900(y) <= 366 * (y - 1900),
    decreases y - 1900,
{
    if y > 1900 {
        lemma_year_days_bounds(y - 1);
    }
}

proof fn lemma_month_days_full_year(y: int)
    ensures
        month_days_before(y, 13) == spec_days_in_year(y),
{
    reveal_with_fuel(month_days_before, 13);
}

proof fn lemma_month_days_bounds(y: int, m: int)
    requires
        1 <= m <= 13,
    ensures
        0 <= month_days_before(y, m) <= 31 * (m - 1),
    decreases m,
{
    if m > 1 {
        lemma_month_days_bounds(y, m - 1);
    }
}

/// The day serial of a date, computed by summing year and month lengths.
pub fn date_to_serial(d: &Date) -> (r: u64)
    requires
        valid_date(*d),
    ensures
        r == serial_of(*d),
{
    let mut total: u64 = 0;
    let mut y: u32 = MIN_YEAR;
    while y < d.year
        invariant
            MIN_YEAR <= y <= d.year <= MAX_YEAR,
            total == year_days_from_1900(y as int),
            total <= 366 * (y - 1900),
        decreases d.year - y,
    {
        proof {
            lemma_year_days_bounds(y as int);
        }
        total = total + days_in_year(y) as u64;
        y = y + 1;
    }
    proof {
        lemma_year_days_bounds(d.year as int);
    }
    let mut m: u32 = 1;
    let ghost base = total;
    while m < d.month
        invariant
            1 <= m <= d.month <= 12,
            total == base + month_days_before(d.year as int, m as int),
            base == year_days_from_1900(d.year as int),
            base <= 366 * (d.year - 1900),
        decreases d.month - m,
    {
        proof {
            lemma_month_days_bounds(d.year as int, m as int);
        }
        total = total + days_in_month(d.year, m) as u64;
        m = m + 1;
    }
    proof {
        lemma_month_days_bounds(d.year as int, d.month as int);
    }
    total + d.day as u64 + 1
}

/// The last representable day serial: that of 9999-12-31.
pub fn max_serial() -> (r: u64)
    ensures
        r == serial_of(Date { year: MAX_YEAR, month: 12, day: 31 }),
{
    date_to_serial(&Date { year: MAX_YEAR, month: 12, day: 31 })
}

/// Steps over whole years: the year reached from `y` after consuming
/// `days`, with the days left within that year.
pub open spec fn spec_year_cursor(y: int, days: int) -> (int, int)
    decreases days,
{
    if days >= spec_days_in_year(y) {
        spec_year_cursor(y + 1, days - spec_days_in_year(y))
    } else {
        (y, days)
    }
}

/// Steps over whole months of year `y`, starting at month `m`.
pub open spec fn spec_month_cursor(y: int, m: int, days: int) -> (int, int)
    decreases 13 - m,
{
    if m < 12 && days >= spec_days_in_month(y, m) {
        spec_month_cursor(y, m + 1, days - spec_days_in_month(y, m))
    } else {
        (m, days)
    }
}

/// The date with the given day serial, or `None` outside the
/// representable range.
pub open spec fn spec_serial_date(serial: int) -> Option<Date> {
    if 2 <= serial <= serial_of(Date { year: MAX_YEAR, month: 12, day: 31 }) {
        let yc = spec_year_cursor(MIN_YEAR as int, serial - 2);
        let mc = spec_month_cursor(yc.0, 1, yc.1);
        Some(Date { year: yc.0 as u32, month: mc.0 as u32, day: (mc.1 + 1) as u32 })
    } else {
        None
    }
}

/// The date with the given day serial. `None` exactly when the serial
/// lies before 1900-01-01 or after 9999-12-31.
pub fn serial_to_date(serial: i64) -> (r: Option<Date>)
    ensures
        r == spec_serial_date(serial as int),
        match r {
            Some(d) => valid_date(d) && serial_of(d) == serial,
            None => serial < 2 || serial > serial_of(
                Date { year: MAX_YEAR, month: 12, day: 31 },
            ),
        },
{
    if serial < 2 {
        return None;
    }
    let max = max_serial();
    let su: u64 = serial as u64;
    if su > max {
        return None;
    }
    let days0: u64 = su - 2;
    let ghost last = Date { year: MAX_YEAR, month: 12, day: 31 };
    proof {
        lemma_month_days_bounds(MAX_YEAR as int, 12);
        lemma_month_days_full_year(MAX_YEAR as int);
        assert(month_days_before(MAX_YEAR as int, 13) == month_days_before(MAX_YEAR as int, 12)
            + spec_days_in_month(MAX_YEAR as int, 12));
        assert(days0 < year_days_from_1900(MAX_YEAR as int) + spec_days_in_year(MAX_YEAR as int));
        assert(year_days_from_1900(MAX_YEAR as int + 1) == year_days_from_1900(MAX_YEAR as int)
            + spec_days_in_year(MAX_YEAR as int));
    }
    let mut y: u32 = MIN_YEAR;
    let mut rem: u64 = days0;
    while rem >= days_in_year(y) as u64
        invariant
            MIN_YEAR <= y <= MAX_YEAR,
            year_days_from_1900(y as int) + rem == days0,
            days0 < year_days_from_1900(MAX_YEAR as int + 1),
            spec_year_cursor(MIN_YEAR as int, days0 as int) == spec_year_cursor(
                y as int,
                rem as int,
            ),
        decreases rem,
    {
        proof {
            if y == MAX_YEAR {
                assert(year_days_from_1900(MAX_YEAR as int + 1) == year_days_from_1900(
                    MAX_YEAR as int,
                ) + spec_days_in_year(MAX_YEAR as int));
                assert(false);
            }
        }
        rem = rem - days_in_year(y) as u64;
        y = y + 1;
    }
    let ghost rem1 = rem as int;
    let mut m: u32 = 1;
    while rem >= days_in_month(y, m) as u64
        invariant
            1 <= m <= 12,
            MIN_YEAR <= y <= MAX_YEAR,
            month_days_before(y as int, m as int) + rem == rem1,
            rem1 < spec_days_in_year(y as int),
            spec_month_cursor(y as int, 1, rem1) == spec_month_cursor(y as int, m as int, rem as int),
        decreases rem,
    {
        proof {
            if m == 12 {
                lemma_month_days_full_year(y as int);
                assert(month_days_before(y as int, 13) == month_days_before(y as int, 12)
                    + spec_days_in_month(y as int, 12));
                assert(false);
            }
        }
        rem = rem - days_in_month(y, m) as u64;
        m = m + 1;
    }
    let d = Date { year: y, month: m, day: rem as u32 + 1 };
    assert(serial_of(d) == serial);
    proof {
        assert(spec_year_cursor(MIN_YEAR as int, days0 as int) == (y as int, rem1));
        assert(spec_month_cursor(y as int, 1, rem1) == (m as int, rem as int));
    }
    Some(d)
}

/// Weekday index of a date: 0 is Saturday, 1 Sunday, 2 Monday, and so
/// on through 6 Friday (the epoch of the day serials fell on a
/// Saturday).
pub open spec fn weekday_of(d: Date) -> int {
    serial_of(d) % 7
}

pub fn weekday_index(d: &Date) -> (r: u32)
    requires
        valid_date(*d),
    ensures
        r == weekday_of(*d),
{
    let s = date_to_serial(d);
    (s % 7) as u32
}

/// Lexicographic order on (year, month, day).
pub open spec fn date_le(a: Date, b: Date) -> bool {
    if a.year != b.year {
        a.year < b.year
    } else if a.month != b.month {
        a.month < b.month
    } else {
        a.day <= b.day
    }
}

pub fn date_le_exec(a: &Date, b: &Date) -> (r: bool)
    ensures
        r == date_le(*a, *b),
{
    if a.year != b.year {
        a.year < b.year
    } else if a.month != b.month {
        a.month < b.month
    } else {
        a.day <= b.day
    }
}

/// Splits `s` into exactly three parts at exactly two occurrences of
/// `sep`; `None` when `s` does not contain exactly two.
pub open spec fn split3(s: Seq<char>, sep: char) -> Option<(Seq<char>, Seq<char>, Seq<char>)> {
    let i = find_char(s, sep);
    if i < 0 {
        None
    } else {
        let rest = s.skip(i + 1);
        let j = find_char(rest, sep);
        if j < 0 {
            None
        } else if find_char(rest.skip(j + 1), sep) >= 0 {
            None
        } else {
            Some((s.take(i), rest.take(j), rest.skip(j + 1)))
        }
    }
}

/// Three digit fields as a calendar date: a 4-digit year and 1- or
/// 2-digit month and day, all in range.
pub open spec fn fields_date(ys: Seq<char>, ms: Seq<char>, ds: Seq<char>) -> Option<Date> {
    if ys.len() == 4 && all_digits(ys) && 1 <= ms.len() <= 2 && all_digits(ms) && 1 <= ds.len()
        <= 2 && all_digits(ds) {
        let d = Date {
            year: digits_val(ys) as u32,
            month: digits_val(ms) as u32,
            day: digits_val(ds) as u32,
        };
        if valid_date(d) {
            Some(d)
        } else {
            None
        }
    } else {
        None
    }
}

/// Textual date formats, tried in fixed order with the first match
/// winning: year-month-day with dashes, day/month/year, month/day/year,
/// day-month-year, year/month/day.
pub open spec fn spec_parse_date(s: Seq<char>) -> Option<Date> {
    let dash = split3(s, '-');
    let slash = split3(s, '/');
    if dash is Some && fields_date((dash->0).0, (dash->0).1, (dash->0).2) is Some {
        fields_date((dash->0).0, (dash->0).1, (dash->0).2)
    } else if slash is Some && fields_date((slash->0).2, (slash->0).1, (slash->0).0) is Some {
        fields_date((slash->0).2, (slash->0).1, (slash->0).0)
    } else if slash is Some && fields_date((slash->0).2, (slash->0).0, (slash->0).1) is Some {
        fields_date((slash->0).2, (slash->0).0, (slash->0).1)
    } else if dash is Some && fields_date((dash->0).2, (dash->0).1, (dash->0).0) is Some {
        fields_date((dash->0).2, (dash->0).1, (dash->0).0)
    } else if slash is Some && fields_date((slash->0).0, (slash->0).1, (slash->0).2) is Some {
        fields_date((slash->0).0, (slash->0).1, (slash->0).2)
    } else {
        None
    }
}

/// The three fields of `s` around exactly two occurrences of `sep`.
fn split3_exec(s: &Vec<char>, sep: char) -> (r: Option<(Vec<char>, Vec<char>, Vec<char>)>)
    ensures
        match r {
            Some(p) => split3(s@, sep) == Some((p.0@, p.1@, p.2@)),
            None => split3(s@, sep) is None,
        },
{
    proof {
        assert(s@.skip(0) =~= s@);
    }
    let n: usize = s.len();
    let i = match find_char_from(s, 0, sep) {
        Some(i) => i,
        None => {
            return None;
        },
    };
    assert(i < n);
    let j = match find_char_from(s, i + 1, sep) {
        Some(j) => j,
        None => {
            return None;
        },
    };
    assert(j < n);
    proof {
        assert(s@.skip(i + 1).skip(j - i) =~= s@.skip(j + 1));
    }
    match find_char_from(s, j + 1, sep) {
        Some(_) => None,
        None => {
            let a = subrange_chars(s, 0, i);
            let b = subrange_chars(s, i + 1, j);
            let c = subrange_chars(s, j + 1, s.len());
            proof {
                let rest = s@.skip(i + 1);
                assert(s@.take(i as int) =~= s@.subrange(0, i as int));
                assert(rest.take(j - i - 1) =~= s@.subrange(i + 1, j as int));
                assert(rest.skip(j - i) =~= s@.subrange(j + 1, s@.len() as int));
                assert(find_char(rest, sep) == j - i - 1);
                assert(rest.skip((j - i - 1) + 1) =~= s@.skip(j + 1));
            }
            Some((a, b, c))
        },
    }
}

fn try_fields(ys: &Vec<char>, ms: &Vec<char>, ds: &Vec<char>) -> (r: Option<Date>)
    ensures
        r == fields_date(ys@, ms@, ds@),
{
    if ys.len() != 4 || ms.len() == 0 || ms.len() > 2 || ds.len() == 0 || ds.len() > 2 {
        return None;
    }
    let y = match parse_digits_u64(ys) {
        Some(v) => v,
        None => {
            return None;
        },
    };
    let m = match parse_digits_u64(ms) {
        Some(v) => v,
        None => {
            return None;
        },
    };
    let d = match parse_digits_u64(ds) {
        Some(v) => v,
        None => {
            return None;
        },
    };
    proof {
        reveal_with_fuel(pow10, 5);
        assert(pow10(4) == 10000 && pow10(2) == 100);
    }
    let date = Date { year: y as u32, month: m as u32, day: d as u32 };
    if date.year < MIN_YEAR || date.month < 1 || date.month > 12 || date.day < 1 || date.day
        > days_in_month(date.year, date.month) {
        return None;
    }
    Some(date)
}

/// Parses a textual date, trying the supported formats in fixed order.
pub fn parse_date_chars(s: &Vec<char>) -> (r: Option<Date>)
    ensures
        r == spec_parse_date(s@),
        r is Some ==> valid_date(r->0),
{
    let dash = split3_exec(s, '-');
    let slash = split3_exec(s, '/');
    if let Some((a, b, c)) = &dash {
        if let Some(d) = try_fields(a, b, c) {
            return Some(d);
        }
    }
    if let Some((a, b, c)) = &slash {
        if let Some(d) = try_fields(c, b, a) {
            return Some(d);
        }
        if let Some(d) = try_fields(c, a, b) {
            return Some(d);
        }
    }
    if let Some((a, b, c)) = &dash {
        if let Some(d) = try_fields(c, b, a) {
            return Some(d);
        }
    }
    if let Some((a, b, c)) = &slash {
        if let Some(d) = try_fields(a, b, c) {
            return Some(d);
        }
    }
    None
}

/// The date rendered as zero-padded "YYYY-MM-DD".
pub open spec fn spec_date_iso(d: Date) -> Seq<char> {
    crate::text::spec_zero_pad(d.year as int, 4) + seq!['-'] + crate::text::spec_zero_pad(
        d.month as int,
        2,
    ) + seq!['-'] + crate::text::spec_zero_pad(d.day as int, 2)
}

pub fn date_iso_chars(d: &Date) -> (r: Vec<char>)
    ensures
        r@ == spec_date_iso(*d),
{
    let mut r = crate::text::u64_zero_pad(d.year as u64, 4);
    r.push('-');
    let mm = crate::text::u64_zero_pad(d.month as u64, 2);
    crate::text::push_chars(&mut r, &mm);
    r.push('-');
    let dd = crate::text::u64_zero_pad(d.day as u64, 2);
    crate::text::push_chars(&mut r, &dd);
    proof {
        assert(r@ =~= spec_date_iso(*d));
    }
    r
}

} // verus!

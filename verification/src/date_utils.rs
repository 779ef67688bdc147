//! Calendar dates as plain year/month/day values: the validity rules,
//! ISO formatting and parsing, day arithmetic and the Indonesian rendering
//! that the rest of the crate builds on.

use vstd::prelude::*;
use chrono::Datelike;
use crate::text::chars_to_string;

verus! {

/// The decimal digit character for `d` in 0..=9.
pub open spec fn digit_char(d: int) -> char {
    if d == 0 {
        '0'
    } else if d == 1 {
        '1'
    } else if d == 2 {
        '2'
    } else if d == 3 {
        '3'
    } else if d == 4 {
        '4'
    } else if d == 5 {
        '5'
    } else if d == 6 {
        '6'
    } else if d == 7 {
        '7'
    } else if d == 8 {
        '8'
    } else {
        '9'
    }
}

/// The value of a decimal digit character, or -1 for any other character.
pub open spec fn digit_val(c: char) -> int {
    if c == '0' {
        0
    } else if c == '1' {
        1
    } else if c == '2' {
        2
    } else if c == '3' {
        3
    } else if c == '4' {
        4
    } else if c == '5' {
        5
    } else if c == '6' {
        6
    } else if c == '7' {
        7
    } else if c == '8' {
        8
    } else if c == '9' {
        9
    } else {
        -1
    }
}

/// A character that is a decimal digit.
pub open spec fn is_dec_digit(c: char) -> bool {
    digit_val(c) >= 0
}

/// The decimal rendering of `n` without padding, as `{}` formatting prints a
/// non-negative integer.
pub open spec fn dec_digits(n: int) -> Seq<char>
    decreases n,
{
    if n <= 9 {
        seq![digit_char(n)]
    } else {
        dec_digits(n / 10) + seq![digit_char(n % 10)]
    }
}

/// The two-digit zero-padded rendering of `n` in 0..=99.
pub open spec fn two_digits(n: int) -> Seq<char> {
    seq![digit_char(n / 10), digit_char(n % 10)]
}

/// The four-digit zero-padded rendering of `n` in 0..=9999.
pub open spec fn four_digits(n: int) -> Seq<char> {
    seq![digit_char(n / 1000), digit_char(n / 100 % 10), digit_char(n / 10 % 10), digit_char(n % 10)]
}

fn digit_char_exec(d: u32) -> (r: char)
    requires
        d <= 9,
    ensures
        r == digit_char(d as int),
{
    match d {
        0 => '0',
        1 => '1',
        2 => '2',
        3 => '3',
        4 => '4',
        5 => '5',
        6 => '6',
        7 => '7',
        8 => '8',
        _ => '9',
    }
}

fn digit_val_exec(c: char) -> (r: i32)
    ensures
        r == digit_val(c),
{
    match c {
        '0' => 0,
        '1' => 1,
        '2' => 2,
        '3' => 3,
        '4' => 4,
        '5' => 5,
        '6' => 6,
        '7' => 7,
        '8' => 8,
        '9' => 9,
        _ => -1,
    }
}

/// Appends the unpadded decimal rendering of `n`.
pub(crate) fn push_dec_digits(out: &mut Vec<char>, n: u32)
    ensures
        final(out)@ == old(out)@ + dec_digits(n as int),
    decreases n,
{
    if n <= 9 {
        out.push(digit_char_exec(n));
        proof {
            assert(old(out)@.push(digit_char(n as int)) =~= old(out)@ + dec_digits(n as int));
        }
    } else {
        push_dec_digits(out, n / 10);
        out.push(digit_char_exec(n % 10));
        proof {
            assert((old(out)@ + dec_digits(n as int / 10)).push(digit_char(n as int % 10)) =~= old(
                out,
            )@ + dec_digits(n as int));
        }
    }
}

/// Appends the two-digit zero-padded rendering of `n`.
pub(crate) fn push_two_digits(out: &mut Vec<char>, n: u32)
    requires
        n <= 99,
    ensures
        final(out)@ == old(out)@ + two_digits(n as int),
{
    out.push(digit_char_exec(n / 10));
    out.push(digit_char_exec(n % 10));
    proof {
        assert(old(out)@.push(digit_char(n as int / 10)).push(digit_char(n as int % 10)) =~= old(
            out,
        )@ + two_digits(n as int));
    }
}

/// Appends the four-digit zero-padded rendering of `n`.
pub(crate) fn push_four_digits(out: &mut Vec<char>, n: u32)
    requires
        n <= 9999,
    ensures
        final(out)@ == old(out)@ + four_digits(n as int),
{
    out.push(digit_char_exec(n / 1000));
    out.push(digit_char_exec(n / 100 % 10));
    out.push(digit_char_exec(n / 10 % 10));
    out.push(digit_char_exec(n % 10));
    proof {
        assert(old(out)@.push(digit_char(n as int / 1000)).push(digit_char(n as int / 100 % 10)).push(
            digit_char(n as int / 10 % 10),
        ).push(digit_char(n as int % 10)) =~= old(out)@ + four_digits(n as int));
    }
}

/// The Gregorian leap-year rule.
pub open spec fn is_leap_year(y: int) -> bool {
    y % 4 == 0 && (y % 100 != 0 || y % 400 == 0)
}

/// Days in a month of the Gregorian calendar.
pub open spec fn days_in_month(y: int, m: int) -> int {
    if m == 2 {
        if is_leap_year(y) {
            29
        } else {
            28
        }
    } else if m == 4 || m == 6 || m == 9 || m == 11 {
        30
    } else {
        31
    }
}

/// A valid calendar date with a four-digit year.
pub open spec fn valid_ymd(y: int, m: int, d: int) -> bool {
    0 <= y <= 9999 && 1 <= m <= 12 && 1 <= d <= days_in_month(y, m)
}

/// A calendar date, held as its plain year, month and day numbers.
#[derive(Clone, Copy, Debug, PartialEq, Eq, Structural)]
pub struct Date {
    pub year: i32,
    pub month: u32,
    pub day: u32,
}

/// The date is a valid Gregorian calendar date.
pub open spec fn valid_date(d: Date) -> bool {
    valid_ymd(d.year as int, d.month as int, d.day as int)
}

fn days_in_month_exec(y: i32, m: u32) -> (r: u32)
    requires
        0 <= y,
        1 <= m <= 12,
    ensures
        r == days_in_month(y as int, m as int),
{
    if m == 2 {
        if y % 4 == 0 && (y % 100 != 0 || y % 400 == 0) {
            29
        } else {
            28
        }
    } else if m == 4 || m == 6 || m == 9 || m == 11 {
        30
    } else {
        31
    }
}

impl Date {
    /// Builds the date if the numbers form a valid calendar date.
    pub fn new(year: i32, month: u32, day: u32) -> (r: Option<Date>)
        ensures
            r is Some <==> valid_ymd(year as int, month as int, day as int),
            r matches Some(d) ==> d == (Date { year, month, day }) && valid_date(d),
    {
        if 0 <= year && year <= 9999 && 1 <= month && month <= 12 && 1 <= day && day
            <= days_in_month_exec(year, month) {
            Some(Date { year, month, day })
        } else {
            None
        }
    }

    /// The calendar day after this one.
    pub fn next_day(&self) -> (r: Date)
        requires
            valid_date(*self),
            !(self.year == 9999 && self.month == 12 && self.day == 31),
        ensures
            r == next_date(*self),
            valid_date(r),
    {
        if self.day < days_in_month_exec(self.year, self.month) {
            Date { year: self.year, month: self.month, day: self.day + 1 }
        } else if self.month < 12 {
            Date { year: self.year, month: self.month + 1, day: 1 }
        } else {
            Date { year: self.year + 1, month: 1, day: 1 }
        }
    }

    /// The ISO rendering `YYYY-MM-DD`, as the cache persists dates.
    pub fn format_iso(&self) -> (r: String)
        requires
            valid_date(*self),
        ensures
            r@ == iso_date_chars(*self),
    {
        let mut out: Vec<char> = Vec::new();
        push_four_digits(&mut out, self.year as u32);
        out.push('-');
        push_two_digits(&mut out, self.month);
        out.push('-');
        push_two_digits(&mut out, self.day);
        proof {
            assert(out@ =~= iso_date_chars(*self));
        }
        chars_to_string(&out)
    }
}

/// The calendar day after `d`.
pub open spec fn next_date(d: Date) -> Date {
    if (d.day as int) < days_in_month(d.year as int, d.month as int) {
        Date { year: d.year, month: d.month, day: (d.day + 1) as u32 }
    } else if d.month < 12 {
        Date { year: d.year, month: (d.month + 1) as u32, day: 1 }
    } else {
        Date { year: (d.year + 1) as i32, month: 1, day: 1 }
    }
}

/// The ISO rendering `YYYY-MM-DD` of a date.
pub open spec fn iso_date_chars(d: Date) -> Seq<char> {
    four_digits(d.year as int) + seq!['-'] + two_digits(d.month as int) + seq!['-'] + two_digits(
        d.day as int,
    )
}

/// The date an ISO `YYYY-MM-DD` string denotes, if it is well-formed and
/// names a valid calendar date.
pub open spec fn parse_iso_date(s: Seq<char>) -> Option<Date> {
    if s.len() == 10 && s[4] == '-' && s[7] == '-' && is_dec_digit(s[0]) && is_dec_digit(s[1])
        && is_dec_digit(s[2]) && is_dec_digit(s[3]) && is_dec_digit(s[5]) && is_dec_digit(s[6])
        && is_dec_digit(s[8]) && is_dec_digit(s[9]) {
        let y = digit_val(s[0]) * 1000 + digit_val(s[1]) * 100 + digit_val(s[2]) * 10 + digit_val(
            s[3],
        );
        let m = digit_val(s[5]) * 10 + digit_val(s[6]);
        let d = digit_val(s[8]) * 10 + digit_val(s[9]);
        if valid_ymd(y, m, d) {
            Some(Date { year: y as i32, month: m as u32, day: d as u32 })
        } else {
            None
        }
    } else {
        None
    }
}

/// Parses an ISO `YYYY-MM-DD` string into a date.
pub fn parse_iso(v: &Vec<char>) -> (r: Option<Date>)
    ensures
        r == parse_iso_date(v@),
{
    if v.len() != 10 {
        return None;
    }
    if !(v[4] == '-' && v[7] == '-') {
        return None;
    }
    let d0 = digit_val_exec(v[0]);
    let d1 = digit_val_exec(v[1]);
    let d2 = digit_val_exec(v[2]);
    let d3 = digit_val_exec(v[3]);
    let m0 = digit_val_exec(v[5]);
    let m1 = digit_val_exec(v[6]);
    let a0 = digit_val_exec(v[8]);
    let a1 = digit_val_exec(v[9]);
    if d0 < 0 || d1 < 0 || d2 < 0 || d3 < 0 || m0 < 0 || m1 < 0 || a0 < 0 || a1 < 0 {
        return None;
    }
    let y = d0 * 1000 + d1 * 100 + d2 * 10 + d3;
    let m = (m0 * 10 + m1) as u32;
    let d = (a0 * 10 + a1) as u32;
    Date::new(y, m, d)
}

proof fn lemma_digit_roundtrip(x: int)
    requires
        0 <= x <= 9,
    ensures
        digit_val(digit_char(x)) == x,
        is_dec_digit(digit_char(x)),
{
}

/// Formatting a valid date and parsing the result round-trips.
#[verifier::rlimit(100)]
pub proof fn lemma_iso_roundtrip(d: Date)
    requires
        valid_date(d),
    ensures
        parse_iso_date(iso_date_chars(d)) == Some(d),
{
    let s = iso_date_chars(d);
    let y = d.year as int;
    let m = d.month as int;
    let dd = d.day as int;
    assert(s.len() == 10 && s[0] == digit_char(y / 1000) && s[1] == digit_char(y / 100 % 10) && s[2]
        == digit_char(y / 10 % 10) && s[3] == digit_char(y % 10) && s[4] == '-' && s[5]
        == digit_char(m / 10) && s[6] == digit_char(m % 10) && s[7] == '-' && s[8] == digit_char(
        dd / 10,
    ) && s[9] == digit_char(dd % 10));
    assert(0 <= y / 1000 <= 9 && 0 <= y / 100 % 10 <= 9 && 0 <= y / 10 % 10 <= 9 && 0 <= y % 10
        <= 9 && 0 <= m / 10 <= 9 && 0 <= m % 10 <= 9 && 0 <= dd / 10 <= 9 && 0 <= dd % 10
        <= 9) by (nonlinear_arith)
        requires
            0 <= y <= 9999 && 0 <= m <= 99 && 0 <= dd <= 99,
    ;
    lemma_digit_roundtrip(y / 1000);
    lemma_digit_roundtrip(y / 100 % 10);
    lemma_digit_roundtrip(y / 10 % 10);
    lemma_digit_roundtrip(y % 10);
    lemma_digit_roundtrip(m / 10);
    lemma_digit_roundtrip(m % 10);
    lemma_digit_roundtrip(dd / 10);
    lemma_digit_roundtrip(dd % 10);
    assert((y / 1000) * 1000 + (y / 100 % 10) * 100 + (y / 10 % 10) * 10 + y % 10 == y) by (nonlinear_arith)
        requires
            0 <= y <= 9999,
    ;
    assert((m / 10) * 10 + m % 10 == m) by (nonlinear_arith)
        requires
            0 <= m <= 99,
    ;
    assert((dd / 10) * 10 + dd % 10 == dd) by (nonlinear_arith)
        requires
            0 <= dd <= 99,
    ;
}

/// The partition keys the cache accepts: calendar years 1900 through 2100.
pub fn is_valid_year(year: i32) -> (r: bool)
    ensures
        r == (1900 <= year <= 2100),
{
    year >= 1900 && year <= 2100
}

/// Relies on `chrono::Local::now` and `chrono::Datelike::year`: the current
/// local calendar year. The result depends on the clock, so nothing is
/// promised of its value.
#[verifier::external_body]
pub fn get_current_year() -> i32 {
    chrono::Local::now().year()
}

/// The Indonesian name of month `m`, or a fixed marker outside 1..=12.
pub open spec fn month_name_id(m: int) -> Seq<char> {
    if m == 1 {
        "Januari"@
    } else if m == 2 {
        "Februari"@
    } else if m == 3 {
        "Maret"@
    } else if m == 4 {
        "April"@
    } else if m == 5 {
        "Mei"@
    } else if m == 6 {
        "Juni"@
    } else if m == 7 {
        "Juli"@
    } else if m == 8 {
        "Agustus"@
    } else if m == 9 {
        "September"@
    } else if m == 10 {
        "Oktober"@
    } else if m == 11 {
        "November"@
    } else {
        "Desember"@
    }
}

fn month_name(m: u32) -> (r: &'static str)
    requires
        1 <= m <= 12,
    ensures
        r@ == month_name_id(m as int),
{
    match m {
        1 => "Januari",
        2 => "Februari",
        3 => "Maret",
        4 => "April",
        5 => "Mei",
        6 => "Juni",
        7 => "Juli",
        8 => "Agustus",
        9 => "September",
        10 => "Oktober",
        11 => "November",
        _ => "Desember",
    }
}

/// Formats a date in the Indonesian convention: day, month name, year.
pub fn format_date_indonesia(date: &Date) -> (r: String)
    requires
        valid_date(*date),
    ensures
        r@ == dec_digits(date.day as int) + " "@ + month_name_id(date.month as int) + " "@
            + dec_digits(date.year as int),
{
    let mut out: Vec<char> = Vec::new();
    push_dec_digits(&mut out, date.day);
    crate::text::append_str(&mut out, " ");
    crate::text::append_str(&mut out, month_name(date.month));
    crate::text::append_str(&mut out, " ");
    push_dec_digits(&mut out, date.year as u32);
    chars_to_string(&out)
}

} // verus!

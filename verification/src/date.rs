//! Calendar dates as the registry encodes them: `YYYY-MM-DD`, proleptic
//! Gregorian, years 0000 through 9999. The engine needs three things from a
//! date: a total order (lexicographic on year, month, day, which equals
//! chronological order), the successor day, and a strict parser for the
//! registry's textual form.

use vstd::prelude::*;
use vstd::string::StrSliceExecFns;

verus! {

/// A calendar date. `valid` says the fields name a real day.
#[derive(Clone, Copy, PartialEq, Eq, Structural, Debug)]
pub struct Date {
    pub year: u16,
    pub month: u8,
    pub day: u8,
}

pub open spec fn spec_is_leap_year(y: int) -> bool {
    (y % 4 == 0 && y % 100 != 0) || y % 400 == 0
}

pub open spec fn spec_days_in_month(y: int, m: int) -> int {
    if m == 2 {
        if spec_is_leap_year(y) {
            29
        } else {
            28
        }
    } else if m == 4 || m == 6 || m == 9 || m == 11 {
        30
    } else {
        31
    }
}

/// `a` is on or before `b` in calendar order.
pub open spec fn date_le(a: Date, b: Date) -> bool {
    a.year < b.year || (a.year == b.year && (a.month < b.month || (a.month == b.month
        && a.day <= b.day)))
}

/// `a` is strictly before `b` in calendar order.
pub open spec fn date_lt(a: Date, b: Date) -> bool {
    date_le(a, b) && a != b
}

/// The next calendar day. Total as a mathematical map; the successor of
/// 9999-12-31 falls outside `valid`, which `succ` reports as `None`.
pub open spec fn spec_succ(d: Date) -> Date {
    if d.day < spec_days_in_month(d.year as int, d.month as int) {
        Date { year: d.year, month: d.month, day: (d.day + 1) as u8 }
    } else if d.month < 12 {
        Date { year: d.year, month: (d.month + 1) as u8, day: 1 }
    } else {
        Date { year: (d.year + 1) as u16, month: 1, day: 1 }
    }
}

impl Date {
    pub open spec fn valid(self) -> bool {
        self.year <= 9999 && 1 <= self.month <= 12 && 1 <= self.day <= spec_days_in_month(
            self.year as int,
            self.month as int,
        )
    }

    /// Exposes `valid` to unverified callers.
    pub fn is_valid(self) -> (b: bool)
        ensures
            b == self.valid(),
    {
        self.year <= 9999 && 1 <= self.month && self.month <= 12 && 1 <= self.day && self.day
            <= days_in_month(self.year, self.month)
    }

    /// Decides the calendar order.
    pub fn on_or_before(self, other: Date) -> (b: bool)
        ensures
            b == date_le(self, other),
    {
        self.year < other.year || (self.year == other.year && (self.month < other.month || (
        self.month == other.month && self.day <= other.day)))
    }

    /// The next calendar day, or `None` past the last representable date.
    pub fn succ(self) -> (r: Option<Date>)
        requires
            self.valid(),
        ensures
            r matches Some(n) ==> n == spec_succ(self) && n.valid(),
            r is Some <==> !(self.year == 9999 && self.month == 12 && self.day == 31),
    {
        if self.day < days_in_month(self.year, self.month) {
            Some(Date { year: self.year, month: self.month, day: self.day + 1 })
        } else if self.month < 12 {
            Some(Date { year: self.year, month: self.month + 1, day: 1 })
        } else if self.year < 9999 {
            Some(Date { year: self.year + 1, month: 1, day: 1 })
        } else {
            None
        }
    }
}

pub fn is_leap_year(y: u16) -> (b: bool)
    ensures
        b == spec_is_leap_year(y as int),
{
    (y % 4 == 0 && y % 100 != 0) || y % 400 == 0
}

pub fn days_in_month(y: u16, m: u8) -> (d: u8)
    ensures
        d == spec_days_in_month(y as int, m as int),
{
    if m == 2 {
        if is_leap_year(y) {
            29
        } else {
            28
        }
    } else if m == 4 || m == 6 || m == 9 || m == 11 {
        30
    } else {
        31
    }
}

/// There is no valid date strictly between a date and its successor: for
/// valid `d` and `e`, `d < e` exactly when `succ(d) <= e`.
pub proof fn lemma_succ_adjacent(d: Date, e: Date)
    requires
        d.valid(),
        e.valid(),
    ensures
        date_lt(d, e) <==> date_le(spec_succ(d), e),
{
}

/// The maximum of a non-empty sequence of dates.
pub open spec fn spec_max_date_seq(s: Seq<Date>) -> Date
    recommends
        s.len() > 0,
    decreases s.len(),
{
    if s.len() <= 1 {
        s[0]
    } else {
        let m = spec_max_date_seq(s.drop_last());
        if date_le(m, s.last()) {
            s.last()
        } else {
            m
        }
    }
}

/// The maximum is an element of the sequence and dominates every element.
pub proof fn lemma_max_date_seq(s: Seq<Date>)
    requires
        s.len() > 0,
    ensures
        s.contains(spec_max_date_seq(s)),
        forall|i: int| 0 <= i < s.len() ==> date_le(s[i], spec_max_date_seq(s)),
    decreases s.len(),
{
    if s.len() > 1 {
        lemma_max_date_seq(s.drop_last());
        assert(forall|i: int| 0 <= i < s.len() - 1 ==> s.drop_last()[i] == s[i]);
    }
}

pub open spec fn spec_is_digit(c: char) -> bool {
    48 <= c as int && c as int <= 57
}

pub open spec fn spec_digit_val(c: char) -> int {
    c as int - 48
}

pub open spec fn spec_date_chars_ok(s: Seq<char>) -> bool {
    s.len() == 10 && s[4] == '-' && s[7] == '-' && spec_is_digit(s[0]) && spec_is_digit(s[1])
        && spec_is_digit(s[2]) && spec_is_digit(s[3]) && spec_is_digit(s[5]) && spec_is_digit(s[6])
        && spec_is_digit(s[8]) && spec_is_digit(s[9])
}

pub open spec fn spec_field_date(s: Seq<char>) -> Date
    recommends
        spec_date_chars_ok(s),
{
    Date {
        year: (spec_digit_val(s[0]) * 1000 + spec_digit_val(s[1]) * 100 + spec_digit_val(s[2]) * 10
            + spec_digit_val(s[3])) as u16,
        month: (spec_digit_val(s[5]) * 10 + spec_digit_val(s[6])) as u8,
        day: (spec_digit_val(s[8]) * 10 + spec_digit_val(s[9])) as u8,
    }
}

/// What a registry date string denotes: `Some` exactly for the strict
/// `YYYY-MM-DD` form naming a real day, `None` otherwise.
pub open spec fn spec_parse_date(s: Seq<char>) -> Option<Date> {
    if spec_date_chars_ok(s) && spec_field_date(s).valid() {
        Some(spec_field_date(s))
    } else {
        None
    }
}

fn digit_of(c: char) -> (r: Option<u8>)
    ensures
        r matches Some(v) ==> spec_is_digit(c) && v == spec_digit_val(c),
        r is Some <==> spec_is_digit(c),
{
    let u: u32 = c as u32;
    if 48 <= u && u <= 57 {
        Some((u - 48) as u8)
    } else {
        None
    }
}

/// Parses a registry date string; agrees with `spec_parse_date` on every
/// input, so malformed text and impossible days both come back `None`.
pub fn parse_date(s: &str) -> (r: Option<Date>)
    ensures
        r == spec_parse_date(s@),
{
    if s.unicode_len() != 10 {
        return None;
    }
    if s.get_char(4) != '-' || s.get_char(7) != '-' {
        return None;
    }
    let d0: Option<u8> = digit_of(s.get_char(0));
    let d1: Option<u8> = digit_of(s.get_char(1));
    let d2: Option<u8> = digit_of(s.get_char(2));
    let d3: Option<u8> = digit_of(s.get_char(3));
    let d5: Option<u8> = digit_of(s.get_char(5));
    let d6: Option<u8> = digit_of(s.get_char(6));
    let d8: Option<u8> = digit_of(s.get_char(8));
    let d9: Option<u8> = digit_of(s.get_char(9));
    match (d0, d1, d2, d3, d5, d6, d8, d9) {
        (
            Some(y0),
            Some(y1),
            Some(y2),
            Some(y3),
            Some(m0),
            Some(m1),
            Some(a0),
            Some(a1),
        ) => {
            let year: u16 = y0 as u16 * 1000 + y1 as u16 * 100 + y2 as u16 * 10 + y3 as u16;
            let month: u8 = m0 * 10 + m1;
            let day: u8 = a0 * 10 + a1;
            let date = Date { year, month, day };
            if date.is_valid() {
                Some(date)
            } else {
                None
            }
        },
        _ => None,
    }
}

} // verus!

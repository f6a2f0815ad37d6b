//! Calendar dates without a time of day, their strict `YYYY-MM-DD` parsing,
//! and the date formats the site emits.

use vstd::prelude::*;
use crate::text::{
    dec_chars, dec_chars_pad2, dec_chars_pad4, digit_char, push_decimal, push_decimal_pad2,
    push_decimal_pad4, push_str_chars,
};

verus! {

/// A calendar date, no time of day.
#[derive(Clone, Copy, Debug, PartialEq, Eq, Structural)]
pub struct Date {
    pub year: u32,
    pub month: u32,
    pub day: u32,
}

/// A moment in coordinated universal time, to whole seconds.
#[derive(Clone, Copy, Debug, PartialEq, Eq, Structural)]
pub struct Timestamp {
    pub date: Date,
    pub hour: u32,
    pub minute: u32,
    pub second: u32,
}

pub open spec fn is_leap_year(y: int) -> bool {
    y % 4 == 0 && (y % 100 != 0 || y % 400 == 0)
}

/// Days in month `m` of year `y`; meaningful for `1 <= m <= 12`.
pub open spec fn days_in_month(y: int, m: int) -> int {
    if m == 2 {
        if is_leap_year(y) {
            29
        } else {
            28
        }
    } else if m == 4 || m == 6 || m == 9 || m == 11 {
        30
    } else {
        31
    }
}

/// A valid calendar date with a four-digit year.
pub open spec fn date_valid(d: Date) -> bool {
    &&& d.year <= 9999
    &&& 1 <= d.month <= 12
    &&& 1 <= d.day <= days_in_month(d.year as int, d.month as int)
}

pub open spec fn timestamp_valid(t: Timestamp) -> bool {
    &&& date_valid(t.date)
    &&& t.hour <= 23
    &&& t.minute <= 59
    &&& t.second <= 59
}

impl Date {
    /// Dates ordered by year, then month, then day.
    pub open spec fn le_spec(self, other: Date) -> bool {
        if self.year != other.year {
            self.year <= other.year
        } else if self.month != other.month {
            self.month <= other.month
        } else {
            self.day <= other.day
        }
    }

    /// Compares two dates; `true` when `self` is on or before `other`.
    pub fn le(&self, other: &Date) -> (r: bool)
        ensures
            r == self.le_spec(*other),
    {
        if self.year != other.year {
            self.year <= other.year
        } else if self.month != other.month {
            self.month <= other.month
        } else {
            self.day <= other.day
        }
    }
}

/// The date order is total: any two dates compare one way or the other.
pub proof fn lemma_date_order_total(a: Date, b: Date)
    ensures
        a.le_spec(b) || b.le_spec(a),
        a.le_spec(b) && b.le_spec(a) ==> a.year == b.year && a.month == b.month && a.day == b.day,
{
}

/// The date order is transitive.
pub proof fn lemma_date_order_transitive(a: Date, b: Date, c: Date)
    ensures
        a.le_spec(b) && b.le_spec(c) ==> a.le_spec(c),
{
}

pub open spec fn is_digit_char(c: char) -> bool {
    c == '0' || c == '1' || c == '2' || c == '3' || c == '4' || c == '5' || c == '6' || c == '7'
        || c == '8' || c == '9'
}

pub open spec fn digit_value(c: char) -> int {
    if c == '0' {
        0
    } else if c == '1' {
        1
    } else if c == '2' {
        2
    } else if c == '3' {
        3
    } else if c == '4' {
        4
    } else if c == '5' {
        5
    } else if c == '6' {
        6
    } else if c == '7' {
        7
    } else if c == '8' {
        8
    } else {
        9
    }
}

fn char_digit(c: char) -> (r: Option<u32>)
    ensures
        r is Some <==> is_digit_char(c),
        r is Some ==> r->0 == digit_value(c) && r->0 <= 9,
{
    match c {
        '0' => Some(0),
        '1' => Some(1),
        '2' => Some(2),
        '3' => Some(3),
        '4' => Some(4),
        '5' => Some(5),
        '6' => Some(6),
        '7' => Some(7),
        '8' => Some(8),
        '9' => Some(9),
        _ => None,
    }
}

/// Whether `s` has the exact shape `YYYY-MM-DD` (digits and dashes in place).
pub open spec fn date_text_shaped(s: Seq<char>) -> bool {
    &&& s.len() == 10
    &&& is_digit_char(s[0]) && is_digit_char(s[1]) && is_digit_char(s[2]) && is_digit_char(s[3])
    &&& s[4] == '-'
    &&& is_digit_char(s[5]) && is_digit_char(s[6])
    &&& s[7] == '-'
    &&& is_digit_char(s[8]) && is_digit_char(s[9])
}

/// The date spelled by a well-shaped `YYYY-MM-DD` text.
pub open spec fn date_of_text(s: Seq<char>) -> Date {
    Date {
        year: (digit_value(s[0]) * 1000 + digit_value(s[1]) * 100 + digit_value(s[2]) * 10
            + digit_value(s[3])) as u32,
        month: (digit_value(s[5]) * 10 + digit_value(s[6])) as u32,
        day: (digit_value(s[8]) * 10 + digit_value(s[9])) as u32,
    }
}

/// Whether `s` is a valid date in the fixed `YYYY-MM-DD` format.
pub open spec fn date_text_valid(s: Seq<char>) -> bool {
    date_text_shaped(s) && date_valid(date_of_text(s))
}

fn days_in_month_exec(y: u32, m: u32) -> (r: u32)
    requires
        1 <= m <= 12,
    ensures
        r == days_in_month(y as int, m as int),
{
    if m == 2 {
        if y % 4 == 0 && (y % 100 != 0 || y % 400 == 0) {
            29
        } else {
            28
        }
    } else if m == 4 || m == 6 || m == 9 || m == 11 {
        30
    } else {
        31
    }
}

/// Parses a date in the fixed `YYYY-MM-DD` format; `None` exactly when the
/// text is not shaped that way or does not name a valid calendar date.
pub fn parse_date(s: &Vec<char>) -> (r: Option<Date>)
    ensures
        r is Some <==> date_text_valid(s@),
        r is Some ==> r->0 == date_of_text(s@) && date_valid(r->0),
{
    if s.len() != 10 {
        return None;
    }
    if s[4] != '-' || s[7] != '-' {
        return None;
    }
    let d0 = match char_digit(s[0]) {
        Some(d) => d,
        None => { return None; },
    };
    let d1 = match char_digit(s[1]) {
        Some(d) => d,
        None => { return None; },
    };
    let d2 = match char_digit(s[2]) {
        Some(d) => d,
        None => { return None; },
    };
    let d3 = match char_digit(s[3]) {
        Some(d) => d,
        None => { return None; },
    };
    let m0 = match char_digit(s[5]) {
        Some(d) => d,
        None => { return None; },
    };
    let m1 = match char_digit(s[6]) {
        Some(d) => d,
        None => { return None; },
    };
    let a0 = match char_digit(s[8]) {
        Some(d) => d,
        None => { return None; },
    };
    let a1 = match char_digit(s[9]) {
        Some(d) => d,
        None => { return None; },
    };
    let year: u32 = d0 * 1000 + d1 * 100 + d2 * 10 + d3;
    let month: u32 = m0 * 10 + m1;
    let day: u32 = a0 * 10 + a1;
    if month < 1 || month > 12 {
        return None;
    }
    if day < 1 || day > days_in_month_exec(year, month) {
        return None;
    }
    Some(Date { year, month, day })
}

/// The name of month `m`; meaningful for `1 <= m <= 12`.
pub open spec fn month_name(m: int) -> Seq<char> {
    if m == 1 {
        "January"@
    } else if m == 2 {
        "February"@
    } else if m == 3 {
        "March"@
    } else if m == 4 {
        "April"@
    } else if m == 5 {
        "May"@
    } else if m == 6 {
        "June"@
    } else if m == 7 {
        "July"@
    } else if m == 8 {
        "August"@
    } else if m == 9 {
        "September"@
    } else if m == 10 {
        "October"@
    } else if m == 11 {
        "November"@
    } else {
        "December"@
    }
}

fn month_name_exec(m: u32) -> (r: &'static str)
    requires
        1 <= m <= 12,
    ensures
        r@ == month_name(m as int),
{
    if m == 1 {
        "January"
    } else if m == 2 {
        "February"
    } else if m == 3 {
        "March"
    } else if m == 4 {
        "April"
    } else if m == 5 {
        "May"
    } else if m == 6 {
        "June"
    } else if m == 7 {
        "July"
    } else if m == 8 {
        "August"
    } else if m == 9 {
        "September"
    } else if m == 10 {
        "October"
    } else if m == 11 {
        "November"
    } else {
        "December"
    }
}

/// The human-readable form of a date: `<Month> <day>, <year>`.
pub open spec fn human_date_chars(d: Date) -> Seq<char> {
    month_name(d.month as int) + " "@ + dec_chars(d.day as nat) + ", "@ + dec_chars(d.year as nat)
}

/// Appends the human-readable form of `d`, as `<Month> <day>, <year>`.
pub fn push_human_date(d: &Date, out: &mut Vec<char>)
    requires
        date_valid(*d),
    ensures
        final(out)@ == old(out)@ + human_date_chars(*d),
{
    push_str_chars(month_name_exec(d.month), out);
    push_str_chars(" ", out);
    push_decimal(d.day, out);
    push_str_chars(", ", out);
    push_decimal(d.year, out);
    proof {
        assert(final(out)@ == old(out)@ + human_date_chars(*d)) by {
            reveal_strlit(" ");
            reveal_strlit(", ");
            assert(old(out)@ + month_name(d.month as int) + " "@ + dec_chars(d.day as nat) + ", "@
                + dec_chars(d.year as nat) == old(out)@ + human_date_chars(*d));
        }
    }
}

/// The RFC 3339 form of a timestamp at offset `+00:00`:
/// `YYYY-MM-DDThh:mm:ss+00:00`, the year zero-padded to four digits.
pub open spec fn rfc3339_chars(t: Timestamp) -> Seq<char> {
    dec_chars_pad4(t.date.year as nat) + "-"@ + dec_chars_pad2(t.date.month as nat) + "-"@
        + dec_chars_pad2(t.date.day as nat) + "T"@ + dec_chars_pad2(t.hour as nat) + ":"@
        + dec_chars_pad2(t.minute as nat) + ":"@ + dec_chars_pad2(t.second as nat) + "+00:00"@
}

/// Appends the RFC 3339 form of `t` at offset `+00:00`.
pub fn push_rfc3339(t: &Timestamp, out: &mut Vec<char>)
    ensures
        final(out)@ == old(out)@ + rfc3339_chars(*t),
{
    push_decimal_pad4(t.date.year, out);
    push_str_chars("-", out);
    push_decimal_pad2(t.date.month, out);
    push_str_chars("-", out);
    push_decimal_pad2(t.date.day, out);
    push_str_chars("T", out);
    push_decimal_pad2(t.hour, out);
    push_str_chars(":", out);
    push_decimal_pad2(t.minute, out);
    push_str_chars(":", out);
    push_decimal_pad2(t.second, out);
    push_str_chars("+00:00", out);
    proof {
        assert(final(out)@ == old(out)@ + rfc3339_chars(*t)) by {
            assert(old(out)@ + dec_chars_pad4(t.date.year as nat) + "-"@ + dec_chars_pad2(
                t.date.month as nat,
            ) + "-"@ + dec_chars_pad2(t.date.day as nat) + "T"@ + dec_chars_pad2(t.hour as nat)
                + ":"@ + dec_chars_pad2(t.minute as nat) + ":"@ + dec_chars_pad2(t.second as nat)
                + "+00:00"@ == old(out)@ + rfc3339_chars(*t));
        }
    }
}

/// A document's date rendered as a timestamp: the time of day always zeroed.
pub open spec fn date_rfc3339_chars(d: Date) -> Seq<char> {
    rfc3339_chars(Timestamp { date: d, hour: 0, minute: 0, second: 0 })
}

/// Appends the RFC 3339 form of `d` with the time of day zeroed.
pub fn push_date_rfc3339(d: &Date, out: &mut Vec<char>)
    ensures
        final(out)@ == old(out)@ + date_rfc3339_chars(*d),
{
    let t = Timestamp { date: *d, hour: 0, minute: 0, second: 0 };
    push_rfc3339(&t, out);
}

} // verus!

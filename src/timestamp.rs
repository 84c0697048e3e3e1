//! UTC timestamps in the textual form `YYYY-MM-DD HH:MM:SS UTC`.
use vstd::prelude::*;

verus! {

/// A calendar instant in UTC, to the second.
#[derive(Clone, Copy, Debug, PartialEq, Eq, Structural)]
pub struct Timestamp {
    pub year: u16,
    pub month: u8,
    pub day: u8,
    pub hour: u8,
    pub minute: u8,
    pub second: u8,
}

pub open spec fn is_leap_year(y: int) -> bool {
    (y % 4 == 0 && y % 100 != 0) || y % 400 == 0
}

pub open spec fn days_in_month(y: int, m: int) -> int {
    if m == 2 {
        if is_leap_year(y) { 29 } else { 28 }
    } else if m == 4 || m == 6 || m == 9 || m == 11 {
        30
    } else {
        31
    }
}

/// `a` is not later than `b`.
pub open spec fn ts_le(a: Timestamp, b: Timestamp) -> bool {
    if a.year != b.year { a.year < b.year }
    else if a.month != b.month { a.month < b.month }
    else if a.day != b.day { a.day < b.day }
    else if a.hour != b.hour { a.hour < b.hour }
    else if a.minute != b.minute { a.minute < b.minute }
    else { a.second <= b.second }
}

pub open spec fn is_digit(c: char) -> bool {
    '0' <= c && c <= '9'
}

pub open spec fn digit_value(c: char) -> int {
    c as int - '0' as int
}

pub open spec fn two_digits(s: Seq<char>, i: int) -> int {
    10 * digit_value(s[i]) + digit_value(s[i + 1])
}

pub open spec fn four_digits(s: Seq<char>, i: int) -> int {
    100 * two_digits(s, i) + two_digits(s, i + 2)
}

/// The positions of `YYYY-MM-DD HH:MM:SS UTC` that hold digits.
pub open spec fn is_digit_position(i: int) -> bool {
    (0 <= i < 4) || (5 <= i < 7) || (8 <= i < 10) || (11 <= i < 13) || (14 <= i < 16)
        || (17 <= i < 19)
}

/// `s` has the shape `DDDD-DD-DD DD:DD:DD UTC`, `D` a decimal digit.
pub open spec fn has_timestamp_shape(s: Seq<char>) -> bool {
    &&& s.len() == 23
    &&& forall|i: int| 0 <= i < 19 && #[trigger] is_digit_position(i) ==> is_digit(s[i])
    &&& s[4] == '-' && s[7] == '-' && s[10] == ' ' && s[13] == ':' && s[16] == ':'
    &&& s[19] == ' ' && s[20] == 'U' && s[21] == 'T' && s[22] == 'C'
}

/// The fields written in a text of the right shape.
pub open spec fn fields_of(s: Seq<char>) -> Timestamp {
    Timestamp {
        year: four_digits(s, 0) as u16,
        month: two_digits(s, 5) as u8,
        day: two_digits(s, 8) as u8,
        hour: two_digits(s, 11) as u8,
        minute: two_digits(s, 14) as u8,
        second: two_digits(s, 17) as u8,
    }
}

/// The fields name a real calendar date and time of day.
pub open spec fn is_valid(t: Timestamp) -> bool {
    &&& 1 <= t.month <= 12
    &&& 1 <= t.day <= days_in_month(t.year as int, t.month as int)
    &&& t.hour < 24
    &&& t.minute < 60
    &&& t.second < 60
}

/// The timestamp that `s` denotes, if it denotes one.
pub open spec fn parse_spec(s: Seq<char>) -> Option<Timestamp> {
    if has_timestamp_shape(s) && is_valid(fields_of(s)) {
        Some(fields_of(s))
    } else {
        None
    }
}

fn read_digit(s: &str, i: usize) -> (r: Option<u16>)
    requires
        i < s@.len(),
    ensures
        r is Some <==> is_digit(s@[i as int]),
        r is Some ==> r->0 as int == digit_value(s@[i as int]) && r->0 < 10,
{
    let c = s.get_char(i);
    if '0' <= c && c <= '9' {
        Some((c as u32 - '0' as u32) as u16)
    } else {
        None
    }
}

fn read_two(s: &str, i: usize) -> (r: Option<u16>)
    requires
        i + 1 < s@.len(),
        i < 100,
    ensures
        r is Some <==> (is_digit(s@[i as int]) && is_digit(s@[i + 1])),
        r is Some ==> r->0 as int == two_digits(s@, i as int) && r->0 < 100,
{
    match (read_digit(s, i), read_digit(s, i + 1)) {
        (Some(a), Some(b)) => Some(10 * a + b),
        _ => None,
    }
}

fn is_leap(y: u16) -> (r: bool)
    ensures
        r == is_leap_year(y as int),
{
    (y % 4 == 0 && y % 100 != 0) || y % 400 == 0
}

fn month_length(y: u16, m: u16) -> (r: u16)
    ensures
        r as int == days_in_month(y as int, m as int),
{
    if m == 2 {
        if is_leap(y) { 29 } else { 28 }
    } else if m == 4 || m == 6 || m == 9 || m == 11 {
        30
    } else {
        31
    }
}

impl Timestamp {
    /// Reads a timestamp written as `YYYY-MM-DD HH:MM:SS UTC`; `None` when the
    /// text has another shape or names no real date or time of day.
    pub fn parse(s: &str) -> (r: Option<Timestamp>)
        ensures
            r == parse_spec(s@),
    {
        let n = s.unicode_len();
        if n != 23 {
            return None;
        }
        let sep = s.get_char(4) == '-' && s.get_char(7) == '-' && s.get_char(10) == ' '
            && s.get_char(13) == ':' && s.get_char(16) == ':';
        let zone = s.get_char(19) == ' ' && s.get_char(20) == 'U' && s.get_char(21) == 'T'
            && s.get_char(22) == 'C';
        if !sep || !zone {
            return None;
        }
        let hi = read_two(s, 0);
        let lo = read_two(s, 2);
        let mo = read_two(s, 5);
        let d = read_two(s, 8);
        let h = read_two(s, 11);
        let mi = read_two(s, 14);
        let sec = read_two(s, 17);
        match (hi, lo, mo, d, h, mi, sec) {
            (Some(hi), Some(lo), Some(mo), Some(d), Some(h), Some(mi), Some(sec)) => {
                assert(has_timestamp_shape(s@)) by {
                    assert forall|i: int| 0 <= i < 19 && #[trigger] is_digit_position(i)
                        implies is_digit(s@[i]) by {
                        if i == 0 || i == 1 || i == 5 || i == 8 || i == 11 || i == 14 || i == 17 {
                        } else if i == 2 || i == 3 {
                        } else {
                        }
                    }
                }
                let year = 100 * hi + lo;
                if mo < 1 || mo > 12 || d < 1 || d > month_length(year, mo) || h >= 24
                    || mi >= 60 || sec >= 60 {
                    return None;
                }
                Some(Timestamp {
                    year,
                    month: mo as u8,
                    day: d as u8,
                    hour: h as u8,
                    minute: mi as u8,
                    second: sec as u8,
                })
            },
            _ => {
                assert(!has_timestamp_shape(s@)) by {
                    if hi is None {
                        if !is_digit(s@[0]) { assert(is_digit_position(0)); }
                        else { assert(is_digit_position(1)); }
                    } else if lo is None {
                        if !is_digit(s@[2]) { assert(is_digit_position(2)); }
                        else { assert(is_digit_position(3)); }
                    } else if mo is None {
                        if !is_digit(s@[5]) { assert(is_digit_position(5)); }
                        else { assert(is_digit_position(6)); }
                    } else if d is None {
                        if !is_digit(s@[8]) { assert(is_digit_position(8)); }
                        else { assert(is_digit_position(9)); }
                    } else if h is None {
                        if !is_digit(s@[11]) { assert(is_digit_position(11)); }
                        else { assert(is_digit_position(12)); }
                    } else if mi is None {
                        if !is_digit(s@[14]) { assert(is_digit_position(14)); }
                        else { assert(is_digit_position(15)); }
                    } else {
                        if !is_digit(s@[17]) { assert(is_digit_position(17)); }
                        else { assert(is_digit_position(18)); }
                    }
                }
                None
            },
        }
    }

    /// `self` is not later than `other`.
    pub fn not_later_than(&self, other: &Timestamp) -> (r: bool)
        ensures
            r == ts_le(*self, *other),
    {
        if self.year != other.year {
            self.year < other.year
        } else if self.month != other.month {
            self.month < other.month
        } else if self.day != other.day {
            self.day < other.day
        } else if self.hour != other.hour {
            self.hour < other.hour
        } else if self.minute != other.minute {
            self.minute < other.minute
        } else {
            self.second <= other.second
        }
    }
}

/// The order of timestamps is total and transitive.
pub proof fn lemma_ts_order(a: Timestamp, b: Timestamp, c: Timestamp)
    ensures
        ts_le(a, b) || ts_le(b, a),
        ts_le(a, a),
        ts_le(a, b) && ts_le(b, c) ==> ts_le(a, c),
{
}

} // verus!

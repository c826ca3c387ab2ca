use vstd::prelude::*;
use crate::timestamp::{CivilDate, valid_date, days_from_civil, days_from_civil_exec};

verus! {

pub open spec fn is_digit(c: char) -> bool {
    48 <= (c as u32) && (c as u32) <= 57
}

pub open spec fn digit(c: char) -> int {
    (c as u32) as int - 48
}

/// The two-digit number that starts at position `i`.
pub open spec fn num2(s: Seq<char>, i: int) -> int {
    digit(s[i]) * 10 + digit(s[i + 1])
}

/// The four-digit number that starts at position `i`.
pub open spec fn num4(s: Seq<char>, i: int) -> int {
    num2(s, i) * 100 + num2(s, i + 2)
}

/// `YYYY-MM-DD` at the start of the text.
pub open spec fn date_shape(s: Seq<char>) -> bool {
    &&& s.len() >= 10
    &&& is_digit(s[0]) && is_digit(s[1]) && is_digit(s[2]) && is_digit(s[3])
    &&& s[4] == '-'
    &&& is_digit(s[5]) && is_digit(s[6])
    &&& s[7] == '-'
    &&& is_digit(s[8]) && is_digit(s[9])
}

pub open spec fn date_of(s: Seq<char>) -> CivilDate {
    CivilDate { year: num4(s, 0) as u16, month: num2(s, 5) as u8, day: num2(s, 8) as u8 }
}

/// A text that is exactly `YYYY-MM-DD` naming a real date.
pub open spec fn parse_date_spec(s: Seq<char>) -> Option<CivilDate> {
    if s.len() == 10 && date_shape(s) && valid_date(date_of(s)) {
        Some(date_of(s))
    } else {
        None
    }
}

/// `THH:MM:SS` right after the date.
pub open spec fn time_shape(s: Seq<char>) -> bool {
    &&& s.len() >= 20
    &&& s[10] == 'T'
    &&& is_digit(s[11]) && is_digit(s[12])
    &&& s[13] == ':'
    &&& is_digit(s[14]) && is_digit(s[15])
    &&& s[16] == ':'
    &&& is_digit(s[17]) && is_digit(s[18])
}

/// After the seconds: `Z` alone, or a `.`, one or more digits and `Z`.
pub open spec fn utc_tail(s: Seq<char>) -> bool {
    &&& s.len() >= 20
    &&& s[s.len() - 1] == 'Z'
    &&& (s.len() == 20 || (s.len() >= 22 && s[19] == '.' && forall|k: int|
        20 <= k < s.len() - 1 ==> #[trigger] is_digit(s[k])))
}

/// An RFC 3339 instant in UTC (`YYYY-MM-DDTHH:MM:SS[.fff]Z`), as seconds
/// since the epoch; a fraction of a second is dropped.
pub open spec fn parse_datetime_spec(s: Seq<char>) -> Option<int> {
    if date_shape(s) && time_shape(s) && utc_tail(s) && valid_date(date_of(s)) && num2(s, 11) < 24
        && num2(s, 14) < 60 && num2(s, 17) < 60 {
        Some(days_from_civil(date_of(s)) * 86400 + num2(s, 11) * 3600 + num2(s, 14) * 60 + num2(
            s,
            17,
        ))
    } else {
        None
    }
}

fn digit_at(s: &str, i: usize) -> (r: Option<u8>)
    requires
        i < s@.len(),
    ensures
        r is Some <==> is_digit(s@[i as int]),
        r is Some ==> r->0 as int == digit(s@[i as int]),
{
    let c = s.get_char(i);
    let v: u32 = c as u32;
    if 48 <= v && v <= 57 {
        Some((v - 48) as u8)
    } else {
        None
    }
}

fn two_digits(s: &str, i: usize) -> (r: Option<u8>)
    requires
        i + 1 < s@.len(),
        i < 20,
    ensures
        r is Some <==> is_digit(s@[i as int]) && is_digit(s@[i + 1]),
        r is Some ==> r->0 as int == num2(s@, i as int),
{
    match digit_at(s, i) {
        Some(a) => match digit_at(s, i + 1) {
            Some(b) => Some(a * 10 + b),
            None => None,
        },
        None => None,
    }
}

/// Reads the `YYYY-MM-DD` at the start of `s`, if it is there and names a
/// real date.
fn leading_date(s: &str) -> (r: Option<CivilDate>)
    requires
        s@.len() >= 10,
    ensures
        r is Some <==> date_shape(s@) && valid_date(date_of(s@)),
        r is Some ==> r->0 == date_of(s@),
{
    let y1 = two_digits(s, 0);
    let y2 = two_digits(s, 2);
    let mo = two_digits(s, 5);
    let da = two_digits(s, 8);
    if y1.is_none() || y2.is_none() || mo.is_none() || da.is_none() {
        return None;
    }
    if s.get_char(4) != '-' || s.get_char(7) != '-' {
        return None;
    }
    let year: u16 = y1.unwrap() as u16 * 100 + y2.unwrap() as u16;
    let month: u8 = mo.unwrap();
    let day: u8 = da.unwrap();
    let date = CivilDate { year, month, day };
    if year < 1 || month < 1 || month > 12 || day < 1 {
        return None;
    }
    let leap: bool = (year % 4 == 0 && year % 100 != 0) || year % 400 == 0;
    let dim: u8 = if month == 2 {
        if leap { 29 } else { 28 }
    } else if month == 4 || month == 6 || month == 9 || month == 11 {
        30
    } else {
        31
    };
    if day > dim {
        return None;
    }
    Some(date)
}

/// Parses a date given as exactly `YYYY-MM-DD`.
pub fn parse_date(s: &str) -> (r: Option<CivilDate>)
    ensures
        r == parse_date_spec(s@),
{
    if s.unicode_len() != 10 {
        return None;
    }
    leading_date(s)
}

/// Parses an RFC 3339 instant in UTC, `YYYY-MM-DDTHH:MM:SS` with an optional
/// fraction of a second and a closing `Z`, into seconds since the epoch.
pub fn parse_utc_datetime(s: &str) -> (r: Option<i64>)
    ensures
        r is Some <==> parse_datetime_spec(s@) is Some,
        r is Some ==> r->0 as int == parse_datetime_spec(s@)->0,
{
    let n = s.unicode_len();
    if n < 20 {
        return None;
    }
    let date = match leading_date(s) {
        Some(d) => d,
        None => return None,
    };
    if s.get_char(10) != 'T' || s.get_char(13) != ':' || s.get_char(16) != ':' {
        return None;
    }
    let hh = match two_digits(s, 11) {
        Some(v) => v,
        None => return None,
    };
    let mi = match two_digits(s, 14) {
        Some(v) => v,
        None => return None,
    };
    let ss = match two_digits(s, 17) {
        Some(v) => v,
        None => return None,
    };
    if hh >= 24 || mi >= 60 || ss >= 60 {
        return None;
    }
    if s.get_char(n - 1) != 'Z' {
        return None;
    }
    if n != 20 {
        if n < 22 || s.get_char(19) != '.' {
            return None;
        }
        let mut k: usize = 20;
        while k < n - 1
            invariant
                20 <= k <= n - 1,
                n == s@.len(),
                forall|j: int| 20 <= j < k ==> #[trigger] is_digit(s@[j]),
            decreases n - 1 - k,
        {
            if digit_at(s, k).is_none() {
                return None;
            }
            k = k + 1;
        }
    }
    let days = days_from_civil_exec(date);
    Some(days * 86400 + hh as i64 * 3600 + mi as i64 * 60 + ss as i64)
}

} // verus!

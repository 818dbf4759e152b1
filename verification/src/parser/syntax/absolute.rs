//! Absolute dates: `2000-04-15`, `4/15/2000`, `15(th) April 2000` and
//! `April 15(th) 00`. They do not depend on today.
use vstd::prelude::*;

use crate::calendar::{date_value, lemma_date_value, valid_ymd, Date};
use crate::chrono_ops::ymd_opt;
use crate::parser::syntax::common::{month, number_with_suffix, read_month, read_number_with_suffix};
use crate::text::{
    as_str_result, digits_end, digits_value, ends_within, exact, finish, match_char, match_space1,
    match_uint, pos_val, space1, str_result_view, to_chars, uint, ParseError,
};

verus! {

/// A `u32` read as an `i32` the way `as` does: values above `i32::MAX` wrap
/// around to negative numbers.
pub open spec fn wrap_i32(v: u32) -> int {
    if v <= i32::MAX {
        v as int
    } else {
        v - 0x1_0000_0000
    }
}

/// The date with the given numbers, if it exists.
pub open spec fn date_of(year: int, month: int, day: int) -> Option<Date> {
    if valid_ymd((year, month, day)) {
        Some(date_value((year, month, day)))
    } else {
        None
    }
}

/// After a date's last number: the date, if the numbers name one.
pub open spec fn date_at(j: int, year: int, month: int, day: int) -> Option<(int, Date)> {
    match date_of(year, month, day) {
        Some(d) => Some((j, d)),
        None => None,
    }
}

/// Three numbers separated by `sep`.
pub open spec fn three_numbers(s: Seq<char>, i: int, sep: char) -> Option<(int, (u32, u32, u32))> {
    match uint(s, i) {
        Some((j1, a)) => match exact(s, j1, sep) {
            Some(j2) => match uint(s, j2) {
                Some((j3, b)) => match exact(s, j3, sep) {
                    Some(j4) => match uint(s, j4) {
                        Some((j5, c)) => Some((j5, (a, b, c))),
                        None => None,
                    },
                    None => None,
                },
                None => None,
            },
            None => None,
        },
        None => None,
    }
}

/// `year-month-day`.
pub open spec fn date_iso(s: Seq<char>, i: int) -> Option<(int, Date)> {
    match three_numbers(s, i, '-') {
        Some((j, (y, m, d))) => date_at(j, wrap_i32(y), m as int, d as int),
        None => None,
    }
}

/// `month/day/year`.
pub open spec fn date_freedom_units(s: Seq<char>, i: int) -> Option<(int, Date)> {
    match three_numbers(s, i, '/') {
        Some((j, (m, d, y))) => date_at(j, wrap_i32(y), m as int, d as int),
        None => None,
    }
}

/// A year of two digits (in the 2000s) or of four digits.
pub open spec fn year(s: Seq<char>, i: int) -> Option<(int, i32)> {
    let j: int = digits_end(s, i);
    if j - i == 2 {
        Some((j, (2000 + digits_value(s, i, j)) as i32))
    } else if j - i == 4 {
        Some((j, digits_value(s, i, j) as i32))
    } else {
        None
    }
}

/// `day month year`.
pub open spec fn date_day_month_year(s: Seq<char>, i: int) -> Option<(int, Date)> {
    match number_with_suffix(s, i) {
        Some((j1, d)) => match space1(s, j1) {
            Some(j2) => match month(s, j2) {
                Some((j3, m)) => match space1(s, j3) {
                    Some(j4) => match year(s, j4) {
                        Some((j5, y)) => date_at(j5, y as int, m.number(), d as int),
                        None => None,
                    },
                    None => None,
                },
                None => None,
            },
            None => None,
        },
        None => None,
    }
}

/// `month day year`.
pub open spec fn date_month_day_year(s: Seq<char>, i: int) -> Option<(int, Date)> {
    match month(s, i) {
        Some((j1, m)) => match space1(s, j1) {
            Some(j2) => match number_with_suffix(s, j2) {
                Some((j3, d)) => match space1(s, j3) {
                    Some(j4) => match year(s, j4) {
                        Some((j5, y)) => date_at(j5, y as int, m.number(), d as int),
                        None => None,
                    },
                    None => None,
                },
                None => None,
            },
            None => None,
        },
        None => None,
    }
}

/// The first of the four forms that reads a date.
pub open spec fn absolute(s: Seq<char>, i: int) -> Option<(int, Date)> {
    match date_iso(s, i) {
        Some(r) => Some(r),
        None => match date_freedom_units(s, i) {
            Some(r) => Some(r),
            None => match date_day_month_year(s, i) {
                Some(r) => Some(r),
                None => date_month_day_year(s, i),
            },
        },
    }
}

fn to_i32_wrapping(v: u32) -> (r: i32)
    ensures
        r == wrap_i32(v),
{
    if v <= 0x7fff_ffff {
        v as i32
    } else {
        let low: i32 = (v - 0x8000_0000u32) as i32;
        low - 0x7fff_ffff - 1
    }
}

fn make_date(j: usize, year: i32, month: u32, day: u32) -> (r: Option<(usize, Date)>)
    ensures
        pos_val(r) == date_at(j as int, year as int, month as int, day as int),
        r matches Some((k, _)) ==> k == j,
{
    match ymd_opt(year, month, day) {
        Some(d) => {
            proof {
                lemma_date_value(d);
            }
            Some((j, d))
        },
        None => None,
    }
}

fn read_three_numbers(s: &[char], i: usize, sep: char) -> (r: Option<(usize, (u32, u32, u32))>)
    requires
        i <= s@.len(),
    ensures
        pos_val(r) == three_numbers(s@, i as int, sep),
        ends_within(r, i as int, s@.len() as int),
{
    let (j1, a): (usize, u32) = match match_uint(s, i) {
        Some(x) => x,
        None => return None,
    };
    let j2: usize = match match_char(s, j1, sep) {
        Some(x) => x,
        None => return None,
    };
    let (j3, b): (usize, u32) = match match_uint(s, j2) {
        Some(x) => x,
        None => return None,
    };
    let j4: usize = match match_char(s, j3, sep) {
        Some(x) => x,
        None => return None,
    };
    let (j5, c): (usize, u32) = match match_uint(s, j4) {
        Some(x) => x,
        None => return None,
    };
    Some((j5, (a, b, c)))
}

fn read_date_iso(s: &[char], i: usize) -> (r: Option<(usize, Date)>)
    requires
        i <= s@.len(),
    ensures
        pos_val(r) == date_iso(s@, i as int),
        ends_within(r, i as int, s@.len() as int),
{
    match read_three_numbers(s, i, '-') {
        Some((j, (y, m, d))) => make_date(j, to_i32_wrapping(y), m, d),
        None => None,
    }
}

fn read_date_freedom_units(s: &[char], i: usize) -> (r: Option<(usize, Date)>)
    requires
        i <= s@.len(),
    ensures
        pos_val(r) == date_freedom_units(s@, i as int),
        ends_within(r, i as int, s@.len() as int),
{
    match read_three_numbers(s, i, '/') {
        Some((j, (m, d, y))) => make_date(j, to_i32_wrapping(y), m, d),
        None => None,
    }
}

fn read_year(s: &[char], i: usize) -> (r: Option<(usize, i32)>)
    requires
        i <= s@.len(),
    ensures
        pos_val(r) == year(s@, i as int),
        ends_within(r, i as int, s@.len() as int),
{
    let mut j: usize = i;
    let mut value: u32 = 0;
    while j < s.len() && '0' <= s[j] && s[j] <= '9' && j - i < 5
        invariant
            i <= j <= s@.len(),
            j - i <= 5,
            digits_end(s@, i as int) == digits_end(s@, j as int),
            value == digits_value(s@, i as int, j as int),
            value < if j - i == 0 { 1int } else if j - i == 1 { 10int } else if j - i == 2 {
                100int
            } else if j - i == 3 {
                1000int
            } else if j - i == 4 {
                10000int
            } else {
                100000int
            },
        decreases s@.len() - j,
    {
        let d: u32 = (s[j] as u32) - ('0' as u32);
        value = value * 10 + d;
        j = j + 1;
    }
    if j - i == 5 {
        assert(digits_end(s@, i as int) != i + 2 && digits_end(s@, i as int) != i + 4) by {
            lemma_digits_end_past(s@, i as int, j as int);
        }
        return None;
    }
    if j - i == 2 {
        Some((j, 2000 + value as i32))
    } else if j - i == 4 {
        Some((j, value as i32))
    } else {
        None
    }
}

proof fn lemma_digits_end_past(s: Seq<char>, i: int, j: int)
    requires
        0 <= i <= j <= s.len(),
        digits_end(s, i) == digits_end(s, j),
    ensures
        digits_end(s, i) >= j,
    decreases s.len() - j,
{
    if j < s.len() && '0' <= s[j] && s[j] <= '9' {
        lemma_digits_end_past(s, i, j + 1);
    }
}

fn read_date_day_month_year(s: &[char], i: usize) -> (r: Option<(usize, Date)>)
    requires
        i <= s@.len(),
    ensures
        pos_val(r) == date_day_month_year(s@, i as int),
        ends_within(r, i as int, s@.len() as int),
{
    let (j1, d): (usize, u32) = match read_number_with_suffix(s, i) {
        Some(x) => x,
        None => return None,
    };
    let j2: usize = match match_space1(s, j1) {
        Some(x) => x,
        None => return None,
    };
    let (j3, m) = match read_month(s, j2) {
        Some(x) => x,
        None => return None,
    };
    let j4: usize = match match_space1(s, j3) {
        Some(x) => x,
        None => return None,
    };
    let (j5, y): (usize, i32) = match read_year(s, j4) {
        Some(x) => x,
        None => return None,
    };
    make_date(j5, y, m.number_from_month(), d)
}

fn read_date_month_day_year(s: &[char], i: usize) -> (r: Option<(usize, Date)>)
    requires
        i <= s@.len(),
    ensures
        pos_val(r) == date_month_day_year(s@, i as int),
        ends_within(r, i as int, s@.len() as int),
{
    let (j1, m) = match read_month(s, i) {
        Some(x) => x,
        None => return None,
    };
    let j2: usize = match match_space1(s, j1) {
        Some(x) => x,
        None => return None,
    };
    let (j3, d): (usize, u32) = match read_number_with_suffix(s, j2) {
        Some(x) => x,
        None => return None,
    };
    let j4: usize = match match_space1(s, j3) {
        Some(x) => x,
        None => return None,
    };
    let (j5, y): (usize, i32) = match read_year(s, j4) {
        Some(x) => x,
        None => return None,
    };
    make_date(j5, y, m.number_from_month(), d)
}

pub fn read_absolute(s: &[char], i: usize) -> (r: Option<(usize, Date)>)
    requires
        i <= s@.len(),
    ensures
        pos_val(r) == absolute(s@, i as int),
        ends_within(r, i as int, s@.len() as int),
{
    if let Some(r) = read_date_iso(s, i) {
        return Some(r);
    }
    if let Some(r) = read_date_freedom_units(s, i) {
        return Some(r);
    }
    if let Some(r) = read_date_day_month_year(s, i) {
        return Some(r);
    }
    read_date_month_day_year(s, i)
}

/// Reads an absolute date at the start of `input`.
pub fn parse_absolute(input: &str) -> (r: Result<(&str, Date), ParseError>)
    ensures
        as_str_result(input@, absolute(input@, 0), str_result_view(r)),
{
    let s: Vec<char> = to_chars(input);
    finish(input, read_absolute(s.as_slice(), 0))
}

} // verus!

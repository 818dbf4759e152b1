//! Pieces shared by several expressions: `next`/`last`, days of the month,
//! weekday and month names, and interval units.
use vstd::prelude::*;

use crate::calendar::{Month, Weekday};
use crate::text::{
    as_str_result, ends_within, ends_within_pos, finish, match_space1, match_tag, match_uint, pos, pos_val,
    space1, str_result_view, tag, to_chars, uint, ParseError,
};

verus! {

/// Whether an expression looks forward or backward from today.
#[derive(Clone, Copy, Debug, PartialEq, Eq, Structural)]
pub enum RelativeDirection {
    Future,
    Past,
}

/// The unit of a relative interval.
#[derive(Clone, Copy, Debug, PartialEq, Eq, Structural)]
pub enum IntervalUnit {
    Day,
    Week,
    Month,
    Year,
}

/// `next` or `last`.
pub open spec fn direction(s: Seq<char>, i: int) -> Option<(int, RelativeDirection)> {
    match tag(s, i, "next"@) {
        Some(j) => Some((j, RelativeDirection::Future)),
        None => match tag(s, i, "last"@) {
            Some(j) => Some((j, RelativeDirection::Past)),
            None => None,
        },
    }
}

/// An optional `next` or `last` followed by whitespace: where it ends and
/// the direction, if there was one.
pub open spec fn direction_then_space(s: Seq<char>, i: int) -> (int, Option<RelativeDirection>) {
    match direction(s, i) {
        Some((j, d)) => match space1(s, j) {
            Some(k) => (k, Some(d)),
            None => (i, None),
        },
        None => (i, None),
    }
}

/// `st`, `nd`, `rd` or `th`.
pub open spec fn ordinal_suffix(s: Seq<char>, i: int) -> Option<int> {
    match tag(s, i, "st"@) {
        Some(j) => Some(j),
        None => match tag(s, i, "nd"@) {
            Some(j) => Some(j),
            None => match tag(s, i, "rd"@) {
                Some(j) => Some(j),
                None => tag(s, i, "th"@),
            },
        },
    }
}

/// A number, then an optional ordinal suffix: the number, whatever it is.
pub open spec fn number_with_suffix(s: Seq<char>, i: int) -> Option<(int, u32)> {
    match uint(s, i) {
        Some((j, n)) => match ordinal_suffix(s, j) {
            Some(k) => Some((k, n)),
            None => Some((j, n)),
        },
        None => None,
    }
}

/// A day of the month from 1 to 31, with an optional ordinal suffix.
pub open spec fn ordinal_day(s: Seq<char>, i: int) -> Option<(int, u32)> {
    match number_with_suffix(s, i) {
        Some((k, n)) => if 1 <= n <= 31 {
            Some((k, n))
        } else {
            None
        },
        None => None,
    }
}

/// The full name of a weekday or its three-letter abbreviation.
pub open spec fn weekday_name(s: Seq<char>, i: int, full: Seq<char>, short: Seq<char>) -> Option<
    int,
> {
    match tag(s, i, full) {
        Some(j) => Some(j),
        None => tag(s, i, short),
    }
}

pub open spec fn weekday(s: Seq<char>, i: int) -> Option<(int, Weekday)> {
    match weekday_name(s, i, "monday"@, "mon"@) {
        Some(j) => Some((j, Weekday::Mon)),
        None => match weekday_name(s, i, "tuesday"@, "tue"@) {
            Some(j) => Some((j, Weekday::Tue)),
            None => match weekday_name(s, i, "wednesday"@, "wed"@) {
                Some(j) => Some((j, Weekday::Wed)),
                None => match weekday_name(s, i, "thursday"@, "thu"@) {
                    Some(j) => Some((j, Weekday::Thu)),
                    None => match weekday_name(s, i, "friday"@, "fri"@) {
                        Some(j) => Some((j, Weekday::Fri)),
                        None => match weekday_name(s, i, "saturday"@, "sat"@) {
                            Some(j) => Some((j, Weekday::Sat)),
                            None => match weekday_name(s, i, "sunday"@, "sun"@) {
                                Some(j) => Some((j, Weekday::Sun)),
                                None => None,
                            },
                        },
                    },
                },
            },
        },
    }
}

/// The full name of a month.
pub open spec fn month(s: Seq<char>, i: int) -> Option<(int, Month)> {
    match tag(s, i, "january"@) {
        Some(j) => Some((j, Month::January)),
        None => match tag(s, i, "february"@) {
            Some(j) => Some((j, Month::February)),
            None => match tag(s, i, "march"@) {
                Some(j) => Some((j, Month::March)),
                None => match tag(s, i, "april"@) {
                    Some(j) => Some((j, Month::April)),
                    None => match tag(s, i, "may"@) {
                        Some(j) => Some((j, Month::May)),
                        None => match tag(s, i, "june"@) {
                            Some(j) => Some((j, Month::June)),
                            None => match tag(s, i, "july"@) {
                                Some(j) => Some((j, Month::July)),
                                None => match tag(s, i, "august"@) {
                                    Some(j) => Some((j, Month::August)),
                                    None => match tag(s, i, "september"@) {
                                        Some(j) => Some((j, Month::September)),
                                        None => match tag(s, i, "october"@) {
                                            Some(j) => Some((j, Month::October)),
                                            None => match tag(s, i, "november"@) {
                                                Some(j) => Some((j, Month::November)),
                                                None => match tag(s, i, "december"@) {
                                                    Some(j) => Some((j, Month::December)),
                                                    None => None,
                                                },
                                            },
                                        },
                                    },
                                },
                            },
                        },
                    },
                },
            },
        },
    }
}

/// `day`, `week`, `month` or `year`.
pub open spec fn interval_unit(s: Seq<char>, i: int) -> Option<(int, IntervalUnit)> {
    match tag(s, i, "day"@) {
        Some(j) => Some((j, IntervalUnit::Day)),
        None => match tag(s, i, "week"@) {
            Some(j) => Some((j, IntervalUnit::Week)),
            None => match tag(s, i, "month"@) {
                Some(j) => Some((j, IntervalUnit::Month)),
                None => match tag(s, i, "year"@) {
                    Some(j) => Some((j, IntervalUnit::Year)),
                    None => None,
                },
            },
        },
    }
}

pub fn read_direction(s: &[char], i: usize) -> (r: Option<(usize, RelativeDirection)>)
    requires
        i <= s@.len(),
    ensures
        pos_val(r) == direction(s@, i as int),
        ends_within(r, i as int, s@.len() as int),
{
    if let Some(j) = match_tag(s, i, "next") {
        return Some((j, RelativeDirection::Future));
    }
    if let Some(j) = match_tag(s, i, "last") {
        return Some((j, RelativeDirection::Past));
    }
    None
}

pub fn read_direction_then_space(s: &[char], i: usize) -> (r: (usize, Option<RelativeDirection>))
    requires
        i <= s@.len(),
    ensures
        (r.0 as int, r.1) == direction_then_space(s@, i as int),
        i <= r.0 <= s@.len(),
{
    match read_direction(s, i) {
        Some((j, d)) => match match_space1(s, j) {
            Some(k) => (k, Some(d)),
            None => (i, None),
        },
        None => (i, None),
    }
}

fn read_ordinal_suffix(s: &[char], i: usize) -> (r: Option<usize>)
    requires
        i <= s@.len(),
    ensures
        pos(r) == ordinal_suffix(s@, i as int),
        ends_within_pos(r, i as int, s@.len() as int),
{
    if let Some(j) = match_tag(s, i, "st") {
        return Some(j);
    }
    if let Some(j) = match_tag(s, i, "nd") {
        return Some(j);
    }
    if let Some(j) = match_tag(s, i, "rd") {
        return Some(j);
    }
    match_tag(s, i, "th")
}

pub fn read_number_with_suffix(s: &[char], i: usize) -> (r: Option<(usize, u32)>)
    requires
        i <= s@.len(),
    ensures
        pos_val(r) == number_with_suffix(s@, i as int),
        ends_within(r, i as int, s@.len() as int),
{
    match match_uint(s, i) {
        Some((j, n)) => match read_ordinal_suffix(s, j) {
            Some(k) => Some((k, n)),
            None => Some((j, n)),
        },
        None => None,
    }
}

pub fn read_ordinal_day(s: &[char], i: usize) -> (r: Option<(usize, u32)>)
    requires
        i <= s@.len(),
    ensures
        pos_val(r) == ordinal_day(s@, i as int),
        ends_within(r, i as int, s@.len() as int),
{
    match read_number_with_suffix(s, i) {
        Some((k, n)) => if 1 <= n && n <= 31 {
            Some((k, n))
        } else {
            None
        },
        None => None,
    }
}

fn read_weekday_name(s: &[char], i: usize, full: &str, short: &str) -> (r: Option<usize>)
    requires
        i <= s@.len(),
    ensures
        pos(r) == weekday_name(s@, i as int, full@, short@),
        ends_within_pos(r, i as int, s@.len() as int),
{
    match match_tag(s, i, full) {
        Some(j) => Some(j),
        None => match_tag(s, i, short),
    }
}

pub fn read_weekday(s: &[char], i: usize) -> (r: Option<(usize, Weekday)>)
    requires
        i <= s@.len(),
    ensures
        pos_val(r) == weekday(s@, i as int),
        ends_within(r, i as int, s@.len() as int),
{
    if let Some(j) = read_weekday_name(s, i, "monday", "mon") {
        return Some((j, Weekday::Mon));
    }
    if let Some(j) = read_weekday_name(s, i, "tuesday", "tue") {
        return Some((j, Weekday::Tue));
    }
    if let Some(j) = read_weekday_name(s, i, "wednesday", "wed") {
        return Some((j, Weekday::Wed));
    }
    if let Some(j) = read_weekday_name(s, i, "thursday", "thu") {
        return Some((j, Weekday::Thu));
    }
    if let Some(j) = read_weekday_name(s, i, "friday", "fri") {
        return Some((j, Weekday::Fri));
    }
    if let Some(j) = read_weekday_name(s, i, "saturday", "sat") {
        return Some((j, Weekday::Sat));
    }
    if let Some(j) = read_weekday_name(s, i, "sunday", "sun") {
        return Some((j, Weekday::Sun));
    }
    None
}

pub fn read_month(s: &[char], i: usize) -> (r: Option<(usize, Month)>)
    requires
        i <= s@.len(),
    ensures
        pos_val(r) == month(s@, i as int),
        ends_within(r, i as int, s@.len() as int),
{
    if let Some(j) = match_tag(s, i, "january") {
        return Some((j, Month::January));
    }
    if let Some(j) = match_tag(s, i, "february") {
        return Some((j, Month::February));
    }
    if let Some(j) = match_tag(s, i, "march") {
        return Some((j, Month::March));
    }
    if let Some(j) = match_tag(s, i, "april") {
        return Some((j, Month::April));
    }
    if let Some(j) = match_tag(s, i, "may") {
        return Some((j, Month::May));
    }
    if let Some(j) = match_tag(s, i, "june") {
        return Some((j, Month::June));
    }
    if let Some(j) = match_tag(s, i, "july") {
        return Some((j, Month::July));
    }
    if let Some(j) = match_tag(s, i, "august") {
        return Some((j, Month::August));
    }
    if let Some(j) = match_tag(s, i, "september") {
        return Some((j, Month::September));
    }
    if let Some(j) = match_tag(s, i, "october") {
        return Some((j, Month::October));
    }
    if let Some(j) = match_tag(s, i, "november") {
        return Some((j, Month::November));
    }
    if let Some(j) = match_tag(s, i, "december") {
        return Some((j, Month::December));
    }
    None
}

pub fn read_interval_unit(s: &[char], i: usize) -> (r: Option<(usize, IntervalUnit)>)
    requires
        i <= s@.len(),
    ensures
        pos_val(r) == interval_unit(s@, i as int),
        ends_within(r, i as int, s@.len() as int),
{
    if let Some(j) = match_tag(s, i, "day") {
        return Some((j, IntervalUnit::Day));
    }
    if let Some(j) = match_tag(s, i, "week") {
        return Some((j, IntervalUnit::Week));
    }
    if let Some(j) = match_tag(s, i, "month") {
        return Some((j, IntervalUnit::Month));
    }
    if let Some(j) = match_tag(s, i, "year") {
        return Some((j, IntervalUnit::Year));
    }
    None
}

/// Reads `next` or `last` at the start of `input`.
pub fn parse_relative_direction(input: &str) -> (r: Result<(&str, RelativeDirection), ParseError>)
    ensures
        as_str_result(input@, direction(input@, 0), str_result_view(r)),
{
    let s: Vec<char> = to_chars(input);
    finish(input, read_direction(s.as_slice(), 0))
}

/// Reads a day of the month (1 to 31, optionally `st`/`nd`/`rd`/`th`) at the
/// start of `input`.
pub fn parse_ordinal_day(input: &str) -> (r: Result<(&str, u32), ParseError>)
    ensures
        as_str_result(input@, ordinal_day(input@, 0), str_result_view(r)),
{
    let s: Vec<char> = to_chars(input);
    finish(input, read_ordinal_day(s.as_slice(), 0))
}

/// Reads a weekday name or abbreviation at the start of `input`.
pub fn parse_weekday(input: &str) -> (r: Result<(&str, Weekday), ParseError>)
    ensures
        as_str_result(input@, weekday(input@, 0), str_result_view(r)),
{
    let s: Vec<char> = to_chars(input);
    finish(input, read_weekday(s.as_slice(), 0))
}

/// Reads a full month name at the start of `input`.
pub fn parse_month(input: &str) -> (r: Result<(&str, Month), ParseError>)
    ensures
        as_str_result(input@, month(input@, 0), str_result_view(r)),
{
    let s: Vec<char> = to_chars(input);
    finish(input, read_month(s.as_slice(), 0))
}

impl IntervalUnit {
    /// Reads `day`, `week`, `month` or `year` at the start of `input`.
    pub fn parse(input: &str) -> (r: Result<(&str, IntervalUnit), ParseError>)
        ensures
            as_str_result(input@, interval_unit(input@, 0), str_result_view(r)),
    {
        let s: Vec<char> = to_chars(input);
        finish(input, read_interval_unit(s.as_slice(), 0))
    }
}

} // verus!

//! A date inside a week, month or year relative to today: `wednesday this
//! week`, `friday in 2 weeks`, `14th next month`, `1st May 2 years ago`.
use vstd::prelude::*;

use crate::calendar::{Month, Weekday};
use crate::parser::syntax::common::{
    ordinal_day, read_ordinal_day, read_weekday, weekday, IntervalUnit, RelativeDirection,
};
use crate::parser::syntax::interval::{non_literal_interval, read_non_literal_interval};
use crate::parser::syntax::partial_date::{partial_date_body, read_partial_date_body};
use crate::text::{
    as_str_result, ends_within, finish, match_space1, match_tag, pos_val, space1, str_result_view,
    tag, to_chars, ParseError,
};

verus! {

#[derive(Clone, Copy, Debug, PartialEq, Eq, Structural)]
pub struct RelativeIntervalDate {
    pub direction: RelativeDirection,
    pub distance: u32,
    pub target: RelativeIntervalDateSpec,
}

/// What is picked inside the week, month or year.
#[derive(Clone, Copy, Debug, PartialEq, Eq, Structural)]
pub enum RelativeIntervalDateSpec {
    Weekday { weekday: Weekday },
    DayOfMonth { day: u32 },
    DayOfYear { day: u32, month: Month },
}

/// Which week, month or year: `this <unit>`, `next <unit>`, `last <unit>`,
/// or an explicit interval in that unit, as in `in 2 weeks` or `a month ago`.
pub open spec fn relative_period(
    s: Seq<char>,
    i: int,
    this_unit: Seq<char>,
    next_unit: Seq<char>,
    last_unit: Seq<char>,
    unit: IntervalUnit,
) -> Option<(int, (RelativeDirection, u32))> {
    match tag(s, i, this_unit) {
        Some(j) => Some((j, (RelativeDirection::Future, 0))),
        None => match tag(s, i, next_unit) {
            Some(j) => Some((j, (RelativeDirection::Future, 1))),
            None => match tag(s, i, last_unit) {
                Some(j) => Some((j, (RelativeDirection::Past, 1))),
                None => match non_literal_interval(s, i, true) {
                    Some((j, iv)) => if iv.unit == unit {
                        Some((j, (iv.direction, iv.distance)))
                    } else {
                        None
                    },
                    None => None,
                },
            },
        },
    }
}

/// The target, whitespace, then the period.
pub open spec fn with_period(
    s: Seq<char>,
    target: Option<(int, RelativeIntervalDateSpec)>,
    this_unit: Seq<char>,
    next_unit: Seq<char>,
    last_unit: Seq<char>,
    unit: IntervalUnit,
) -> Option<(int, RelativeIntervalDate)> {
    match target {
        Some((p, t)) => match space1(s, p) {
            Some(q) => match relative_period(s, q, this_unit, next_unit, last_unit, unit) {
                Some((e, (direction, distance))) => Some(
                    (e, RelativeIntervalDate { direction, distance, target: t }),
                ),
                None => None,
            },
            None => None,
        },
        None => None,
    }
}

pub open spec fn weekday_target(s: Seq<char>, i: int) -> Option<(int, RelativeIntervalDateSpec)> {
    match weekday(s, i) {
        Some((p, w)) => Some((p, RelativeIntervalDateSpec::Weekday { weekday: w })),
        None => None,
    }
}

pub open spec fn day_of_month_target(s: Seq<char>, i: int) -> Option<
    (int, RelativeIntervalDateSpec),
> {
    match ordinal_day(s, i) {
        Some((p, d)) => Some((p, RelativeIntervalDateSpec::DayOfMonth { day: d })),
        None => None,
    }
}

pub open spec fn day_of_year_target(s: Seq<char>, i: int) -> Option<
    (int, RelativeIntervalDateSpec),
> {
    match partial_date_body(s, i) {
        Some((p, (d, m))) => Some((p, RelativeIntervalDateSpec::DayOfYear { day: d, month: m })),
        None => None,
    }
}

pub open spec fn week_interval_weekday(s: Seq<char>, i: int) -> Option<(int, RelativeIntervalDate)> {
    with_period(
        s,
        weekday_target(s, i),
        "this week"@,
        "next week"@,
        "last week"@,
        IntervalUnit::Week,
    )
}

pub open spec fn month_interval_day_of_month(s: Seq<char>, i: int) -> Option<
    (int, RelativeIntervalDate),
> {
    with_period(
        s,
        day_of_month_target(s, i),
        "this month"@,
        "next month"@,
        "last month"@,
        IntervalUnit::Month,
    )
}

pub open spec fn year_interval_day_of_year(s: Seq<char>, i: int) -> Option<
    (int, RelativeIntervalDate),
> {
    with_period(
        s,
        day_of_year_target(s, i),
        "this year"@,
        "next year"@,
        "last year"@,
        IntervalUnit::Year,
    )
}

/// A weekday in a week, else a day in a month, else a day in a year.
pub open spec fn relative_interval_date(s: Seq<char>, i: int) -> Option<(int, RelativeIntervalDate)> {
    match week_interval_weekday(s, i) {
        Some(r) => Some(r),
        None => match month_interval_day_of_month(s, i) {
            Some(r) => Some(r),
            None => year_interval_day_of_year(s, i),
        },
    }
}

fn same_unit(a: IntervalUnit, b: IntervalUnit) -> (r: bool)
    ensures
        r == (a == b),
{
    match (a, b) {
        (IntervalUnit::Day, IntervalUnit::Day) => true,
        (IntervalUnit::Week, IntervalUnit::Week) => true,
        (IntervalUnit::Month, IntervalUnit::Month) => true,
        (IntervalUnit::Year, IntervalUnit::Year) => true,
        _ => false,
    }
}

fn read_relative_period(
    s: &[char],
    i: usize,
    this_unit: &str,
    next_unit: &str,
    last_unit: &str,
    unit: IntervalUnit,
) -> (r: Option<(usize, (RelativeDirection, u32))>)
    requires
        i <= s@.len(),
    ensures
        pos_val(r) == relative_period(s@, i as int, this_unit@, next_unit@, last_unit@, unit),
        ends_within(r, i as int, s@.len() as int),
{
    if let Some(j) = match_tag(s, i, this_unit) {
        return Some((j, (RelativeDirection::Future, 0)));
    }
    if let Some(j) = match_tag(s, i, next_unit) {
        return Some((j, (RelativeDirection::Future, 1)));
    }
    if let Some(j) = match_tag(s, i, last_unit) {
        return Some((j, (RelativeDirection::Past, 1)));
    }
    match read_non_literal_interval(s, i, true) {
        Some((j, iv)) => if same_unit(iv.unit, unit) {
            Some((j, (iv.direction, iv.distance)))
        } else {
            None
        },
        None => None,
    }
}

fn read_with_period(
    s: &[char],
    i: usize,
    target: Option<(usize, RelativeIntervalDateSpec)>,
    this_unit: &str,
    next_unit: &str,
    last_unit: &str,
    unit: IntervalUnit,
) -> (r: Option<(usize, RelativeIntervalDate)>)
    requires
        ends_within(target, i as int, s@.len() as int),
    ensures
        pos_val(r) == with_period(s@, pos_val(target), this_unit@, next_unit@, last_unit@, unit),
        ends_within(r, i as int, s@.len() as int),
{
    let (p, t) = match target {
        Some(x) => x,
        None => return None,
    };
    let q: usize = match match_space1(s, p) {
        Some(x) => x,
        None => return None,
    };
    match read_relative_period(s, q, this_unit, next_unit, last_unit, unit) {
        Some((e, (direction, distance))) => Some(
            (e, RelativeIntervalDate { direction, distance, target: t }),
        ),
        None => None,
    }
}

fn read_weekday_target(s: &[char], i: usize) -> (r: Option<(usize, RelativeIntervalDateSpec)>)
    requires
        i <= s@.len(),
    ensures
        pos_val(r) == weekday_target(s@, i as int),
        ends_within(r, i as int, s@.len() as int),
{
    match read_weekday(s, i) {
        Some((p, w)) => Some((p, RelativeIntervalDateSpec::Weekday { weekday: w })),
        None => None,
    }
}

fn read_day_of_month_target(s: &[char], i: usize) -> (r: Option<(usize, RelativeIntervalDateSpec)>)
    requires
        i <= s@.len(),
    ensures
        pos_val(r) == day_of_month_target(s@, i as int),
        ends_within(r, i as int, s@.len() as int),
{
    match read_ordinal_day(s, i) {
        Some((p, d)) => Some((p, RelativeIntervalDateSpec::DayOfMonth { day: d })),
        None => None,
    }
}

fn read_day_of_year_target(s: &[char], i: usize) -> (r: Option<(usize, RelativeIntervalDateSpec)>)
    requires
        i <= s@.len(),
    ensures
        pos_val(r) == day_of_year_target(s@, i as int),
        ends_within(r, i as int, s@.len() as int),
{
    match read_partial_date_body(s, i) {
        Some((p, (d, m))) => Some((p, RelativeIntervalDateSpec::DayOfYear { day: d, month: m })),
        None => None,
    }
}

pub fn read_week_interval_weekday(s: &[char], i: usize) -> (r: Option<(usize, RelativeIntervalDate)>)
    requires
        i <= s@.len(),
    ensures
        pos_val(r) == week_interval_weekday(s@, i as int),
        ends_within(r, i as int, s@.len() as int),
{
    let target = read_weekday_target(s, i);
    read_with_period(s, i, target, "this week", "next week", "last week", IntervalUnit::Week)
}

pub fn read_month_interval_day_of_month(s: &[char], i: usize) -> (r: Option<
    (usize, RelativeIntervalDate),
>)
    requires
        i <= s@.len(),
    ensures
        pos_val(r) == month_interval_day_of_month(s@, i as int),
        ends_within(r, i as int, s@.len() as int),
{
    let target = read_day_of_month_target(s, i);
    read_with_period(s, i, target, "this month", "next month", "last month", IntervalUnit::Month)
}

pub fn read_year_interval_day_of_year(s: &[char], i: usize) -> (r: Option<
    (usize, RelativeIntervalDate),
>)
    requires
        i <= s@.len(),
    ensures
        pos_val(r) == year_interval_day_of_year(s@, i as int),
        ends_within(r, i as int, s@.len() as int),
{
    let target = read_day_of_year_target(s, i);
    read_with_period(s, i, target, "this year", "next year", "last year", IntervalUnit::Year)
}

pub fn read_relative_interval_date(s: &[char], i: usize) -> (r: Option<(usize, RelativeIntervalDate)>)
    requires
        i <= s@.len(),
    ensures
        pos_val(r) == relative_interval_date(s@, i as int),
        ends_within(r, i as int, s@.len() as int),
{
    if let Some(r) = read_week_interval_weekday(s, i) {
        return Some(r);
    }
    if let Some(r) = read_month_interval_day_of_month(s, i) {
        return Some(r);
    }
    read_year_interval_day_of_year(s, i)
}

/// Reads a weekday in a week relative to today at the start of `input`.
pub fn parse_relative_week_interval_weekday(input: &str) -> (r: Result<
    (&str, RelativeIntervalDate),
    ParseError,
>)
    ensures
        as_str_result(input@, week_interval_weekday(input@, 0), str_result_view(r)),
{
    let s: Vec<char> = to_chars(input);
    finish(input, read_week_interval_weekday(s.as_slice(), 0))
}

/// Reads a day of a month relative to today at the start of `input`.
pub fn parse_relative_month_interval_day_of_month(input: &str) -> (r: Result<
    (&str, RelativeIntervalDate),
    ParseError,
>)
    ensures
        as_str_result(input@, month_interval_day_of_month(input@, 0), str_result_view(r)),
{
    let s: Vec<char> = to_chars(input);
    finish(input, read_month_interval_day_of_month(s.as_slice(), 0))
}

/// Reads a day and month of a year relative to today at the start of `input`.
pub fn parse_relative_year_interval_day_of_year(input: &str) -> (r: Result<
    (&str, RelativeIntervalDate),
    ParseError,
>)
    ensures
        as_str_result(input@, year_interval_day_of_year(input@, 0), str_result_view(r)),
{
    let s: Vec<char> = to_chars(input);
    finish(input, read_year_interval_day_of_year(s.as_slice(), 0))
}

/// Reads any of the three forms at the start of `input`.
pub fn parse_relative_interval_date(input: &str) -> (r: Result<
    (&str, RelativeIntervalDate),
    ParseError,
>)
    ensures
        as_str_result(input@, relative_interval_date(input@, 0), str_result_view(r)),
{
    let s: Vec<char> = to_chars(input);
    finish(input, read_relative_interval_date(s.as_slice(), 0))
}

} // verus!

//! A day and a month without a year: `(next|last) 14(th) April` or
//! `(next|last) April 14(th)`.
use vstd::prelude::*;

use crate::calendar::Month;
use crate::parser::syntax::common::{
    direction_then_space, month, ordinal_day, read_direction_then_space, read_month,
    read_ordinal_day, RelativeDirection,
};
use crate::text::{
    as_str_result, ends_within, finish, match_space1, pos_val, space1, str_result_view, to_chars,
    ParseError,
};

verus! {

#[derive(Clone, Copy, Debug, PartialEq, Eq, Structural)]
pub struct RelativePartialDate {
    pub direction: Option<RelativeDirection>,
    pub day: u32,
    pub month: Month,
}

/// `day month`, or else `month day`.
pub open spec fn partial_date_body(s: Seq<char>, i: int) -> Option<(int, (u32, Month))> {
    match ordinal_day(s, i) {
        Some((j1, d)) => match space1(s, j1) {
            Some(j2) => match month(s, j2) {
                Some((j3, m)) => Some((j3, (d, m))),
                None => month_first_body(s, i),
            },
            None => month_first_body(s, i),
        },
        None => month_first_body(s, i),
    }
}

/// `month day`.
pub open spec fn month_first_body(s: Seq<char>, i: int) -> Option<(int, (u32, Month))> {
    match month(s, i) {
        Some((j1, m)) => match space1(s, j1) {
            Some(j2) => match ordinal_day(s, j2) {
                Some((j3, d)) => Some((j3, (d, m))),
                None => None,
            },
            None => None,
        },
        None => None,
    }
}

pub open spec fn relative_partial_date(s: Seq<char>, i: int) -> Option<(int, RelativePartialDate)> {
    let (p, direction): (int, Option<RelativeDirection>) = direction_then_space(s, i);
    match partial_date_body(s, p) {
        Some((q, (day, month))) => Some((q, RelativePartialDate { direction, day, month })),
        None => None,
    }
}

fn read_month_first_body(s: &[char], i: usize) -> (r: Option<(usize, (u32, Month))>)
    requires
        i <= s@.len(),
    ensures
        pos_val(r) == month_first_body(s@, i as int),
        ends_within(r, i as int, s@.len() as int),
{
    let (j1, m) = match read_month(s, i) {
        Some(x) => x,
        None => return None,
    };
    let j2: usize = match match_space1(s, j1) {
        Some(x) => x,
        None => return None,
    };
    match read_ordinal_day(s, j2) {
        Some((j3, d)) => Some((j3, (d, m))),
        None => None,
    }
}

pub fn read_partial_date_body(s: &[char], i: usize) -> (r: Option<(usize, (u32, Month))>)
    requires
        i <= s@.len(),
    ensures
        pos_val(r) == partial_date_body(s@, i as int),
        ends_within(r, i as int, s@.len() as int),
{
    if let Some((j1, d)) = read_ordinal_day(s, i) {
        if let Some(j2) = match_space1(s, j1) {
            if let Some((j3, m)) = read_month(s, j2) {
                return Some((j3, (d, m)));
            }
        }
    }
    read_month_first_body(s, i)
}

pub fn read_relative_partial_date(s: &[char], i: usize) -> (r: Option<(usize, RelativePartialDate)>)
    requires
        i <= s@.len(),
    ensures
        pos_val(r) == relative_partial_date(s@, i as int),
        ends_within(r, i as int, s@.len() as int),
{
    let (p, direction): (usize, Option<RelativeDirection>) = read_direction_then_space(s, i);
    match read_partial_date_body(s, p) {
        Some((q, (day, month))) => Some((q, RelativePartialDate { direction, day, month })),
        None => None,
    }
}

/// Reads a day and a month, with an optional `next` or `last`, at the start
/// of `input`.
pub fn parse_relative_partial_date(input: &str) -> (r: Result<(&str, RelativePartialDate), ParseError>)
    ensures
        as_str_result(input@, relative_partial_date(input@, 0), str_result_view(r)),
{
    let s: Vec<char> = to_chars(input);
    finish(input, read_relative_partial_date(s.as_slice(), 0))
}

/// Reads `day month` or `month day` at the start of `input`.
pub fn parse_partial_date_body(input: &str) -> (r: Result<(&str, (u32, Month)), ParseError>)
    ensures
        as_str_result(input@, partial_date_body(input@, 0), str_result_view(r)),
{
    let s: Vec<char> = to_chars(input);
    finish(input, read_partial_date_body(s.as_slice(), 0))
}

} // verus!

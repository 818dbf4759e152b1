//! The grammar of date expressions. Each form is a recognizer on characters
//! from a position; an expression is the first form that recognizes the start
//! of the input, and it must take the whole input.
use vstd::prelude::*;

use crate::calendar::Date;
use crate::text::to_chars;

pub mod absolute;
pub mod common;
pub mod day_of_month;
pub mod interval;
pub mod partial_date;
pub mod relative_interval_date;
pub mod relative_weekday;

use absolute::{absolute, read_absolute};
use day_of_month::{read_relative_day_of_month, relative_day_of_month, RelativeDayOfMonth};
use interval::{read_relative_interval, relative_interval, RelativeInterval};
use partial_date::{read_relative_partial_date, relative_partial_date, RelativePartialDate};
use relative_interval_date::{
    read_relative_interval_date, relative_interval_date, RelativeIntervalDate,
};
use relative_weekday::{read_relative_weekday, relative_weekday, RelativeWeekday};

verus! {

/// A parsed date expression, before it is resolved against today.
#[derive(Clone, Copy, Debug, PartialEq, Eq, Structural)]
pub enum FdateExpression {
    Absolute(Date),
    RelativeInterval(RelativeInterval),
    RelativeWeekday(RelativeWeekday),
    RelativeDayOfMonth(RelativeDayOfMonth),
    RelativePartialDate(RelativePartialDate),
    RelativeIntervalDate(RelativeIntervalDate),
}

/// The first form, in a fixed order, that recognizes the start of `s`.
pub open spec fn first_form(s: Seq<char>) -> Option<(int, FdateExpression)> {
    match absolute(s, 0) {
        Some((j, d)) => Some((j, FdateExpression::Absolute(d))),
        None => match relative_interval(s, 0) {
            Some((j, e)) => Some((j, FdateExpression::RelativeInterval(e))),
            None => match relative_interval_date(s, 0) {
                Some((j, e)) => Some((j, FdateExpression::RelativeIntervalDate(e))),
                None => match relative_weekday(s, 0) {
                    Some((j, e)) => Some((j, FdateExpression::RelativeWeekday(e))),
                    None => match relative_partial_date(s, 0) {
                        Some((j, e)) => Some((j, FdateExpression::RelativePartialDate(e))),
                        None => match relative_day_of_month(s, 0) {
                            Some((j, e)) => Some((j, FdateExpression::RelativeDayOfMonth(e))),
                            None => None,
                        },
                    },
                },
            },
        },
    }
}

/// The expression that `s` spells: the first form that recognizes its start,
/// provided that form takes all of `s`.
pub open spec fn expression(s: Seq<char>) -> Option<FdateExpression> {
    match first_form(s) {
        Some((j, e)) => if j == s.len() {
            Some(e)
        } else {
            None
        },
        None => None,
    }
}

fn read_first_form(s: &[char]) -> (r: Option<(usize, FdateExpression)>)
    ensures
        r matches Some((j, e)) ==> first_form(s@) == Some((j as int, e)),
        r is None ==> first_form(s@) is None,
{
    if let Some((j, d)) = read_absolute(s, 0) {
        return Some((j, FdateExpression::Absolute(d)));
    }
    if let Some((j, e)) = read_relative_interval(s, 0) {
        return Some((j, FdateExpression::RelativeInterval(e)));
    }
    if let Some((j, e)) = read_relative_interval_date(s, 0) {
        return Some((j, FdateExpression::RelativeIntervalDate(e)));
    }
    if let Some((j, e)) = read_relative_weekday(s, 0) {
        return Some((j, FdateExpression::RelativeWeekday(e)));
    }
    if let Some((j, e)) = read_relative_partial_date(s, 0) {
        return Some((j, FdateExpression::RelativePartialDate(e)));
    }
    if let Some((j, e)) = read_relative_day_of_month(s, 0) {
        return Some((j, FdateExpression::RelativeDayOfMonth(e)));
    }
    None
}

impl FdateExpression {
    /// The expression spelled by the whole of `input`, if any.
    pub fn parse(input: &str) -> (r: Option<FdateExpression>)
        ensures
            r == expression(input@),
    {
        let s: Vec<char> = to_chars(input);
        match read_first_form(s.as_slice()) {
            Some((j, e)) => if j == s.len() {
                Some(e)
            } else {
                None
            },
            None => None,
        }
    }
}

} // verus!

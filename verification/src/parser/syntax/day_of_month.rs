//! A bare day of the month: `(next|last) 14(th)`, not followed by a month.
use vstd::prelude::*;

use crate::parser::syntax::common::{
    direction_then_space, month, ordinal_day, read_direction_then_space, read_month,
    read_ordinal_day, RelativeDirection,
};
use crate::text::{
    as_str_result, ends_within, finish, match_space1, pos_val, space1, str_result_view, to_chars,
    ParseError,
};

verus! {

#[derive(Clone, Copy, Debug, PartialEq, Eq, Structural)]
pub struct RelativeDayOfMonth {
    pub direction: Option<RelativeDirection>,
    pub day: u32,
}

/// Whitespace and a month name come next.
pub open spec fn month_follows(s: Seq<char>, i: int) -> bool {
    match space1(s, i) {
        Some(j) => month(s, j) is Some,
        None => false,
    }
}

pub open spec fn relative_day_of_month(s: Seq<char>, i: int) -> Option<(int, RelativeDayOfMonth)> {
    let (p, direction): (int, Option<RelativeDirection>) = direction_then_space(s, i);
    match ordinal_day(s, p) {
        Some((q, day)) => if month_follows(s, q) {
            None
        } else {
            Some((q, RelativeDayOfMonth { direction, day }))
        },
        None => None,
    }
}

fn check_month_follows(s: &[char], i: usize) -> (r: bool)
    requires
        i <= s@.len(),
    ensures
        r == month_follows(s@, i as int),
{
    match match_space1(s, i) {
        Some(j) => read_month(s, j).is_some(),
        None => false,
    }
}

pub fn read_relative_day_of_month(s: &[char], i: usize) -> (r: Option<(usize, RelativeDayOfMonth)>)
    requires
        i <= s@.len(),
    ensures
        pos_val(r) == relative_day_of_month(s@, i as int),
        ends_within(r, i as int, s@.len() as int),
{
    let (p, direction): (usize, Option<RelativeDirection>) = read_direction_then_space(s, i);
    match read_ordinal_day(s, p) {
        Some((q, day)) => if check_month_follows(s, q) {
            None
        } else {
            Some((q, RelativeDayOfMonth { direction, day }))
        },
        None => None,
    }
}

/// Reads a bare day of the month, with an optional `next` or `last`, at the
/// start of `input`.
pub fn parse_relative_day_of_month(input: &str) -> (r: Result<(&str, RelativeDayOfMonth), ParseError>)
    ensures
        as_str_result(input@, relative_day_of_month(input@, 0), str_result_view(r)),
{
    let s: Vec<char> = to_chars(input);
    finish(input, read_relative_day_of_month(s.as_slice(), 0))
}

} // verus!

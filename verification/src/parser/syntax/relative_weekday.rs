//! A weekday with an optional direction: `(next|last) wednesday`.
use vstd::prelude::*;

use crate::calendar::Weekday;
use crate::parser::syntax::common::{
    direction_then_space, read_direction_then_space, read_weekday, weekday, RelativeDirection,
};
use crate::text::{as_str_result, ends_within, finish, pos_val, str_result_view, to_chars, ParseError};

verus! {

#[derive(Clone, Copy, Debug, PartialEq, Eq, Structural)]
pub struct RelativeWeekday {
    pub direction: Option<RelativeDirection>,
    pub weekday: Weekday,
}

pub open spec fn relative_weekday(s: Seq<char>, i: int) -> Option<(int, RelativeWeekday)> {
    let (p, direction): (int, Option<RelativeDirection>) = direction_then_space(s, i);
    match weekday(s, p) {
        Some((q, w)) => Some((q, RelativeWeekday { direction, weekday: w })),
        None => None,
    }
}

pub fn read_relative_weekday(s: &[char], i: usize) -> (r: Option<(usize, RelativeWeekday)>)
    requires
        i <= s@.len(),
    ensures
        pos_val(r) == relative_weekday(s@, i as int),
        ends_within(r, i as int, s@.len() as int),
{
    let (p, direction): (usize, Option<RelativeDirection>) = read_direction_then_space(s, i);
    match read_weekday(s, p) {
        Some((q, w)) => Some((q, RelativeWeekday { direction, weekday: w })),
        None => None,
    }
}

/// Reads a weekday, with an optional `next` or `last`, at the start of `input`.
pub fn parse_relative_weekday(input: &str) -> (r: Result<(&str, RelativeWeekday), ParseError>)
    ensures
        as_str_result(input@, relative_weekday(input@, 0), str_result_view(r)),
{
    let s: Vec<char> = to_chars(input);
    finish(input, read_relative_weekday(s.as_slice(), 0))
}

} // verus!

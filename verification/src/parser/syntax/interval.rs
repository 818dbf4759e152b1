//! Relative intervals: `today`, `tomorrow`, `yesterday`, `(in) (N|a) unit(s)`
//! and `(N|a) unit(s) ago`, where N is a number in digits or a word from `one`
//! to `twelve`.
use vstd::prelude::*;

use crate::parser::syntax::common::{
    interval_unit, read_interval_unit, IntervalUnit, RelativeDirection,
};
use crate::text::{
    as_str_result, ends_within, exact, finish, match_char, match_space1, match_tag, match_uint,
    pos_val, space1, str_result_view, tag, to_chars, uint, ParseError,
};

verus! {

/// A distance in some unit, forward or backward from today.
#[derive(Clone, Copy, Debug, PartialEq, Eq, Structural)]
pub struct RelativeInterval {
    pub direction: RelativeDirection,
    pub distance: u32,
    pub unit: IntervalUnit,
}

pub open spec fn interval(direction: RelativeDirection, distance: u32, unit: IntervalUnit) -> RelativeInterval {
    RelativeInterval { direction, distance, unit }
}

/// `today`, `tomorrow` or `yesterday`.
pub open spec fn interval_literal(s: Seq<char>, i: int) -> Option<(int, RelativeInterval)> {
    match tag(s, i, "today"@) {
        Some(j) => Some((j, interval(RelativeDirection::Future, 0, IntervalUnit::Day))),
        None => match tag(s, i, "tomorrow"@) {
            Some(j) => Some((j, interval(RelativeDirection::Future, 1, IntervalUnit::Day))),
            None => match tag(s, i, "yesterday"@) {
                Some(j) => Some((j, interval(RelativeDirection::Past, 1, IntervalUnit::Day))),
                None => None,
            },
        },
    }
}

/// A number from one to twelve, written as a word.
pub open spec fn number_word(s: Seq<char>, i: int) -> Option<(int, u32)> {
    match tag(s, i, "one"@) {
        Some(j) => Some((j, 1)),
        None => match tag(s, i, "two"@) {
            Some(j) => Some((j, 2)),
            None => match tag(s, i, "three"@) {
                Some(j) => Some((j, 3)),
                None => match tag(s, i, "four"@) {
                    Some(j) => Some((j, 4)),
                    None => match tag(s, i, "five"@) {
                        Some(j) => Some((j, 5)),
                        None => match tag(s, i, "six"@) {
                            Some(j) => Some((j, 6)),
                            None => match tag(s, i, "seven"@) {
                                Some(j) => Some((j, 7)),
                                None => match tag(s, i, "eight"@) {
                                    Some(j) => Some((j, 8)),
                                    None => match tag(s, i, "nine"@) {
                                        Some(j) => Some((j, 9)),
                                        None => match tag(s, i, "ten"@) {
                                            Some(j) => Some((j, 10)),
                                            None => match tag(s, i, "eleven"@) {
                                                Some(j) => Some((j, 11)),
                                                None => match tag(s, i, "twelve"@) {
                                                    Some(j) => Some((j, 12)),
                                                    None => None,
                                                },
                                            },
                                        },
                                    },
                                },
                            },
                        },
                    },
                },
            },
        },
    }
}

/// `a` (one), a number in digits, or a number word.
pub open spec fn interval_value(s: Seq<char>, i: int) -> Option<(int, u32)> {
    match tag(s, i, "a"@) {
        Some(j) => Some((j, 1)),
        None => match uint(s, i) {
            Some(r) => Some(r),
            None => number_word(s, i),
        },
    }
}

/// An optional value followed by whitespace: where it ends and the value.
pub open spec fn value_then_space(s: Seq<char>, i: int) -> (int, Option<u32>) {
    match interval_value(s, i) {
        Some((j, v)) => match space1(s, j) {
            Some(k) => (k, Some(v)),
            None => (i, None),
        },
        None => (i, None),
    }
}

/// An optional `in` followed by whitespace: where it ends and whether it was there.
pub open spec fn in_then_space(s: Seq<char>, i: int) -> (int, bool) {
    match tag(s, i, "in"@) {
        Some(j) => match space1(s, j) {
            Some(k) => (k, true),
            None => (i, false),
        },
        None => (i, false),
    }
}

/// An optional `s` right after a unit.
pub open spec fn plural(s: Seq<char>, i: int) -> int {
    match exact(s, i, 's') {
        Some(j) => j,
        None => i,
    }
}

pub open spec fn value_or_one(v: Option<u32>) -> u32 {
    match v {
        Some(x) => x,
        None => 1,
    }
}

/// `(in) (N|a) unit(s)`; when `explicit`, both `in` and the value must be there.
pub open spec fn interval_future(s: Seq<char>, i: int, explicit: bool) -> Option<
    (int, RelativeInterval),
> {
    let (a, prefix): (int, bool) = in_then_space(s, i);
    let (b, value): (int, Option<u32>) = value_then_space(s, a);
    if explicit && (!prefix || value is None) {
        None
    } else {
        match interval_unit(s, b) {
            Some((c, unit)) => Some(
                (plural(s, c), interval(RelativeDirection::Future, value_or_one(value), unit)),
            ),
            None => None,
        }
    }
}

/// `(N|a) unit(s) ago`.
pub open spec fn interval_past(s: Seq<char>, i: int) -> Option<(int, RelativeInterval)> {
    let (b, value): (int, Option<u32>) = value_then_space(s, i);
    match interval_unit(s, b) {
        Some((c, unit)) => match space1(s, plural(s, c)) {
            Some(d) => match tag(s, d, "ago"@) {
                Some(e) => Some((e, interval(RelativeDirection::Past, value_or_one(value), unit))),
                None => None,
            },
            None => None,
        },
        None => None,
    }
}

/// A past interval, or else a future one.
pub open spec fn non_literal_interval(s: Seq<char>, i: int, explicit: bool) -> Option<
    (int, RelativeInterval),
> {
    match interval_past(s, i) {
        Some(r) => Some(r),
        None => interval_future(s, i, explicit),
    }
}

/// A literal, or else a past or future interval.
pub open spec fn relative_interval(s: Seq<char>, i: int) -> Option<(int, RelativeInterval)> {
    match interval_literal(s, i) {
        Some(r) => Some(r),
        None => non_literal_interval(s, i, false),
    }
}

fn read_interval_literal(s: &[char], i: usize) -> (r: Option<(usize, RelativeInterval)>)
    requires
        i <= s@.len(),
    ensures
        pos_val(r) == interval_literal(s@, i as int),
        ends_within(r, i as int, s@.len() as int),
{
    if let Some(j) = match_tag(s, i, "today") {
        return Some(
            (
                j,
                RelativeInterval {
                    direction: RelativeDirection::Future,
                    distance: 0,
                    unit: IntervalUnit::Day,
                },
            ),
        );
    }
    if let Some(j) = match_tag(s, i, "tomorrow") {
        return Some(
            (
                j,
                RelativeInterval {
                    direction: RelativeDirection::Future,
                    distance: 1,
                    unit: IntervalUnit::Day,
                },
            ),
        );
    }
    if let Some(j) = match_tag(s, i, "yesterday") {
        return Some(
            (
                j,
                RelativeInterval {
                    direction: RelativeDirection::Past,
                    distance: 1,
                    unit: IntervalUnit::Day,
                },
            ),
        );
    }
    None
}

fn read_number_word(s: &[char], i: usize) -> (r: Option<(usize, u32)>)
    requires
        i <= s@.len(),
    ensures
        pos_val(r) == number_word(s@, i as int),
        ends_within(r, i as int, s@.len() as int),
{
    if let Some(j) = match_tag(s, i, "one") {
        return Some((j, 1));
    }
    if let Some(j) = match_tag(s, i, "two") {
        return Some((j, 2));
    }
    if let Some(j) = match_tag(s, i, "three") {
        return Some((j, 3));
    }
    if let Some(j) = match_tag(s, i, "four") {
        return Some((j, 4));
    }
    if let Some(j) = match_tag(s, i, "five") {
        return Some((j, 5));
    }
    if let Some(j) = match_tag(s, i, "six") {
        return Some((j, 6));
    }
    if let Some(j) = match_tag(s, i, "seven") {
        return Some((j, 7));
    }
    if let Some(j) = match_tag(s, i, "eight") {
        return Some((j, 8));
    }
    if let Some(j) = match_tag(s, i, "nine") {
        return Some((j, 9));
    }
    if let Some(j) = match_tag(s, i, "ten") {
        return Some((j, 10));
    }
    if let Some(j) = match_tag(s, i, "eleven") {
        return Some((j, 11));
    }
    if let Some(j) = match_tag(s, i, "twelve") {
        return Some((j, 12));
    }
    None
}

fn read_interval_value(s: &[char], i: usize) -> (r: Option<(usize, u32)>)
    requires
        i <= s@.len(),
    ensures
        pos_val(r) == interval_value(s@, i as int),
        ends_within(r, i as int, s@.len() as int),
{
    match match_tag(s, i, "a") {
        Some(j) => Some((j, 1)),
        None => match match_uint(s, i) {
            Some(r) => Some(r),
            None => read_number_word(s, i),
        },
    }
}

fn read_value_then_space(s: &[char], i: usize) -> (r: (usize, Option<u32>))
    requires
        i <= s@.len(),
    ensures
        (r.0 as int, r.1) == value_then_space(s@, i as int),
        i <= r.0 <= s@.len(),
{
    match read_interval_value(s, i) {
        Some((j, v)) => match match_space1(s, j) {
            Some(k) => (k, Some(v)),
            None => (i, None),
        },
        None => (i, None),
    }
}

fn read_in_then_space(s: &[char], i: usize) -> (r: (usize, bool))
    requires
        i <= s@.len(),
    ensures
        (r.0 as int, r.1) == in_then_space(s@, i as int),
        i <= r.0 <= s@.len(),
{
    match match_tag(s, i, "in") {
        Some(j) => match match_space1(s, j) {
            Some(k) => (k, true),
            None => (i, false),
        },
        None => (i, false),
    }
}

fn read_plural(s: &[char], i: usize) -> (r: usize)
    requires
        i <= s@.len(),
    ensures
        r == plural(s@, i as int),
        i <= r <= s@.len(),
{
    match match_char(s, i, 's') {
        Some(j) => j,
        None => i,
    }
}

/// Reads future intervals; with `explicit` set it insists on `in` and on a
/// value, so that a bare unit such as `month` is not taken for an interval.
pub struct RelativeIntervalFutureParser {
    pub explicit: bool,
}

impl RelativeIntervalFutureParser {
    pub fn new(explicit: bool) -> (r: Self)
        ensures
            r.explicit == explicit,
    {
        RelativeIntervalFutureParser { explicit }
    }

    pub fn read(&self, s: &[char], i: usize) -> (r: Option<(usize, RelativeInterval)>)
        requires
            i <= s@.len(),
        ensures
            pos_val(r) == interval_future(s@, i as int, self.explicit),
            ends_within(r, i as int, s@.len() as int),
    {
        let (a, prefix): (usize, bool) = read_in_then_space(s, i);
        let (b, value): (usize, Option<u32>) = read_value_then_space(s, a);
        if self.explicit && (!prefix || value.is_none()) {
            return None;
        }
        let distance: u32 = match value {
            Some(x) => x,
            None => 1,
        };
        match read_interval_unit(s, b) {
            Some((c, unit)) => Some(
                (
                    read_plural(s, c),
                    RelativeInterval { direction: RelativeDirection::Future, distance, unit },
                ),
            ),
            None => None,
        }
    }
}

fn read_interval_past(s: &[char], i: usize) -> (r: Option<(usize, RelativeInterval)>)
    requires
        i <= s@.len(),
    ensures
        pos_val(r) == interval_past(s@, i as int),
        ends_within(r, i as int, s@.len() as int),
{
    let (b, value): (usize, Option<u32>) = read_value_then_space(s, i);
    let distance: u32 = match value {
        Some(x) => x,
        None => 1,
    };
    let (c, unit) = match read_interval_unit(s, b) {
        Some(x) => x,
        None => return None,
    };
    let d: usize = match match_space1(s, read_plural(s, c)) {
        Some(x) => x,
        None => return None,
    };
    match match_tag(s, d, "ago") {
        Some(e) => Some((e, RelativeInterval { direction: RelativeDirection::Past, distance, unit })),
        None => None,
    }
}

pub fn read_non_literal_interval(s: &[char], i: usize, explicit: bool) -> (r: Option<
    (usize, RelativeInterval),
>)
    requires
        i <= s@.len(),
    ensures
        pos_val(r) == non_literal_interval(s@, i as int, explicit),
        ends_within(r, i as int, s@.len() as int),
{
    match read_interval_past(s, i) {
        Some(r) => Some(r),
        None => RelativeIntervalFutureParser::new(explicit).read(s, i),
    }
}

pub fn read_relative_interval(s: &[char], i: usize) -> (r: Option<(usize, RelativeInterval)>)
    requires
        i <= s@.len(),
    ensures
        pos_val(r) == relative_interval(s@, i as int),
        ends_within(r, i as int, s@.len() as int),
{
    match read_interval_literal(s, i) {
        Some(r) => Some(r),
        None => read_non_literal_interval(s, i, false),
    }
}

/// Reads a relative interval at the start of `input`.
pub fn parse_relative_interval(input: &str) -> (r: Result<(&str, RelativeInterval), ParseError>)
    ensures
        as_str_result(input@, relative_interval(input@, 0), str_result_view(r)),
{
    let s: Vec<char> = to_chars(input);
    finish(input, read_relative_interval(s.as_slice(), 0))
}

/// Reads a past or future interval (not `today`, `tomorrow` or `yesterday`)
/// at the start of `input`.
pub fn parse_non_literal_relative_interval(input: &str) -> (r: Result<
    (&str, RelativeInterval),
    ParseError,
>)
    ensures
        as_str_result(input@, non_literal_interval(input@, 0, false), str_result_view(r)),
{
    let s: Vec<char> = to_chars(input);
    finish(input, read_non_literal_interval(s.as_slice(), 0, false))
}

/// Like [`parse_non_literal_relative_interval`], but a future interval must
/// say `in` and give a value, as in `in a month`.
pub fn parse_explicit_non_literal_relative_interval(input: &str) -> (r: Result<
    (&str, RelativeInterval),
    ParseError,
>)
    ensures
        as_str_result(input@, non_literal_interval(input@, 0, true), str_result_view(r)),
{
    let s: Vec<char> = to_chars(input);
    finish(input, read_non_literal_interval(s.as_slice(), 0, true))
}

} // verus!

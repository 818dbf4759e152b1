//! Intervals written the usual ways read as what they say: `in 3 days` is
//! three days ahead and `2 weeks ago` two weeks back, for every number and
//! unit, and weekday names and `next`/`last` read as what they name.
use vstd::prelude::*;

use crate::parser::syntax::absolute::{
    absolute, date_day_month_year, date_freedom_units, date_iso, date_month_day_year,
    three_numbers,
};
use crate::parser::syntax::common::{
    direction, interval_unit, month, number_with_suffix, ordinal_suffix, weekday, IntervalUnit,
    RelativeDirection,
};
use crate::calendar::Weekday;
use crate::parser::syntax::interval::{
    in_then_space, interval_future, interval_literal, interval_past, interval_value, plural,
    relative_interval, value_then_space, RelativeInterval,
};
use crate::parser::syntax::{expression, FdateExpression};
use crate::properties::lemma_lower_char;
use crate::text::{
    digits_end, digits_value, exact, is_digit, is_space, lower, space1, spaces_end, tag, tag_at,
    uint,
};

verus! {

/// The name of a unit, in the singular.
pub open spec fn unit_name(u: IntervalUnit) -> Seq<char> {
    match u {
        IntervalUnit::Day => "day"@,
        IntervalUnit::Week => "week"@,
        IntervalUnit::Month => "month"@,
        IntervalUnit::Year => "year"@,
    }
}

/// A unit's name, with an `s` when `plural`.
pub open spec fn unit_text(u: IntervalUnit, plural: bool) -> Seq<char> {
    if plural {
        unit_name(u) + seq!['s']
    } else {
        unit_name(u)
    }
}

/// `in <number> <unit>(s)`, the number written in the digits `p`.
pub open spec fn future_text(p: Seq<char>, u: IntervalUnit, plural: bool) -> Seq<char> {
    seq!['i', 'n', ' '] + p + seq![' '] + unit_text(u, plural)
}

/// `<number> <unit>(s) ago`, the number written in the digits `p`.
pub open spec fn past_text(p: Seq<char>, u: IntervalUnit, plural: bool) -> Seq<char> {
    p + seq![' '] + unit_text(u, plural) + seq![' ', 'a', 'g', 'o']
}

/// `p` is a number written in decimal digits that fits in a `u32`.
pub open spec fn decimal(p: Seq<char>) -> bool {
    &&& 0 < p.len()
    &&& forall|k: int| 0 <= k < p.len() ==> is_digit(#[trigger] p[k])
    &&& digits_value(p, 0, p.len() as int) <= u32::MAX
}

proof fn lemma_tag_mismatch(s: Seq<char>, i: int, t: Seq<char>, q: int)
    requires
        0 <= q < t.len(),
        0 <= i,
        i + q < s.len(),
        lower(s[i + q]) != t[q],
    ensures
        tag(s, i, t) is None,
{
}

proof fn lemma_digits_at(s: Seq<char>, i: int, p: Seq<char>, j: int)
    requires
        0 <= i,
        0 <= j <= p.len(),
        i + j <= s.len(),
        forall|k: int| 0 <= k < j ==> s[i + k] == #[trigger] p[k],
    ensures
        digits_value(s, i, i + j) == digits_value(p, 0, j),
    decreases j,
{
    if 0 < j {
        assert(s[i + (j - 1)] == p[j - 1]);
        lemma_digits_at(s, i, p, j - 1);
    }
}

proof fn lemma_digit_run_at(s: Seq<char>, i: int, j: int)
    requires
        0 <= i <= j <= s.len(),
        forall|k: int| i <= k < j ==> is_digit(#[trigger] s[k]),
        j == s.len() || !is_digit(s[j]),
    ensures
        digits_end(s, i) == j,
    decreases j - i,
{
    if i < j {
        lemma_digit_run_at(s, i + 1, j);
    }
}

/// The digits `p` at `i`, then something other than a digit: the number.
proof fn lemma_number_at(s: Seq<char>, i: int, p: Seq<char>)
    requires
        decimal(p),
        0 <= i,
        i + p.len() < s.len(),
        forall|k: int| 0 <= k < p.len() ==> s[i + k] == #[trigger] p[k],
        !is_digit(s[i + p.len()]),
    ensures
        uint(s, i) == Some((i + p.len(), digits_value(p, 0, p.len() as int) as u32)),
{
    let l: int = p.len() as int;
    assert forall|k: int| i <= k < i + l implies is_digit(#[trigger] s[k]) by {
        assert(s[i + (k - i)] == p[k - i]);
    }
    lemma_digit_run_at(s, i, i + l);
    lemma_digits_at(s, i, p, l);
}

/// A unit's name at `i`, with its `s` when `plural` and nothing else after it.
proof fn lemma_unit_at(s: Seq<char>, i: int, u: IntervalUnit, is_plural: bool)
    requires
        0 <= i,
        i + unit_text(u, is_plural).len() <= s.len(),
        forall|k: int| 0 <= k < unit_text(u, is_plural).len() ==> s[i + k] == #[trigger] unit_text(u, is_plural)[k],
        !is_plural ==> i + unit_name(u).len() == s.len() || s[i + unit_name(u).len()] == ' ',
    ensures
        interval_unit(s, i) == Some((i + unit_name(u).len(), u)),
        plural(s, i + unit_name(u).len()) == i + unit_text(u, is_plural).len(),
        month(s, i) is None,
        !is_digit(s[i]),
        !is_space(s[i]),
{
    reveal_strlit("s");
    reveal_strlit("day");
    reveal_strlit("week");
    reveal_strlit("month");
    reveal_strlit("year");
    reveal_strlit("january");
    reveal_strlit("february");
    reveal_strlit("march");
    reveal_strlit("april");
    reveal_strlit("may");
    reveal_strlit("june");
    reveal_strlit("july");
    reveal_strlit("august");
    reveal_strlit("september");
    reveal_strlit("october");
    reveal_strlit("november");
    reveal_strlit("december");
    let t: Seq<char> = unit_text(u, is_plural);
    assert forall|k: int| 0 <= k < unit_name(u).len() implies s[i + k] == #[trigger] unit_name(u)[k] by {
        assert(t[k] == unit_name(u)[k]);
    }
    lemma_lower_char(s[i]);
    let l: int = unit_name(u).len() as int;
    if is_plural {
        assert(s[i + l] == t[l]);
        assert(t[l] == 's');
    }
    match u {
        IntervalUnit::Day => {
            assert(s[i + 0] == unit_name(u)[0]);
            assert(s[i + 1] == unit_name(u)[1]);
            assert(s[i + 2] == unit_name(u)[2]);
            assert(tag_at(s, i, "day"@));
            lemma_tag_mismatch(s, i, "january"@, 0);
            lemma_tag_mismatch(s, i, "february"@, 0);
            lemma_tag_mismatch(s, i, "march"@, 0);
            lemma_tag_mismatch(s, i, "april"@, 0);
            lemma_tag_mismatch(s, i, "may"@, 0);
            lemma_tag_mismatch(s, i, "june"@, 0);
            lemma_tag_mismatch(s, i, "july"@, 0);
            lemma_tag_mismatch(s, i, "august"@, 0);
            lemma_tag_mismatch(s, i, "september"@, 0);
            lemma_tag_mismatch(s, i, "october"@, 0);
            lemma_tag_mismatch(s, i, "november"@, 0);
            lemma_tag_mismatch(s, i, "december"@, 1);
        },
        IntervalUnit::Week => {
            assert(s[i + 0] == unit_name(u)[0]);
            assert(s[i + 1] == unit_name(u)[1]);
            assert(s[i + 2] == unit_name(u)[2]);
            assert(s[i + 3] == unit_name(u)[3]);
            assert(tag_at(s, i, "week"@));
            lemma_tag_mismatch(s, i, "day"@, 0);
            lemma_tag_mismatch(s, i, "january"@, 0);
            lemma_tag_mismatch(s, i, "february"@, 0);
            lemma_tag_mismatch(s, i, "march"@, 0);
            lemma_tag_mismatch(s, i, "april"@, 0);
            lemma_tag_mismatch(s, i, "may"@, 0);
            lemma_tag_mismatch(s, i, "june"@, 0);
            lemma_tag_mismatch(s, i, "july"@, 0);
            lemma_tag_mismatch(s, i, "august"@, 0);
            lemma_tag_mismatch(s, i, "september"@, 0);
            lemma_tag_mismatch(s, i, "october"@, 0);
            lemma_tag_mismatch(s, i, "november"@, 0);
            lemma_tag_mismatch(s, i, "december"@, 0);
        },
        IntervalUnit::Month => {
            assert(s[i + 0] == unit_name(u)[0]);
            assert(s[i + 1] == unit_name(u)[1]);
            assert(s[i + 2] == unit_name(u)[2]);
            assert(s[i + 3] == unit_name(u)[3]);
            assert(s[i + 4] == unit_name(u)[4]);
            assert(tag_at(s, i, "month"@));
            lemma_tag_mismatch(s, i, "day"@, 0);
            lemma_tag_mismatch(s, i, "week"@, 0);
            lemma_tag_mismatch(s, i, "january"@, 0);
            lemma_tag_mismatch(s, i, "february"@, 0);
            lemma_tag_mismatch(s, i, "march"@, 1);
            lemma_tag_mismatch(s, i, "april"@, 0);
            lemma_tag_mismatch(s, i, "may"@, 1);
            lemma_tag_mismatch(s, i, "june"@, 0);
            lemma_tag_mismatch(s, i, "july"@, 0);
            lemma_tag_mismatch(s, i, "august"@, 0);
            lemma_tag_mismatch(s, i, "september"@, 0);
            lemma_tag_mismatch(s, i, "october"@, 0);
            lemma_tag_mismatch(s, i, "november"@, 0);
            lemma_tag_mismatch(s, i, "december"@, 0);
        },
        IntervalUnit::Year => {
            assert(s[i + 0] == unit_name(u)[0]);
            assert(s[i + 1] == unit_name(u)[1]);
            assert(s[i + 2] == unit_name(u)[2]);
            assert(s[i + 3] == unit_name(u)[3]);
            assert(tag_at(s, i, "year"@));
            lemma_tag_mismatch(s, i, "day"@, 0);
            lemma_tag_mismatch(s, i, "week"@, 0);
            lemma_tag_mismatch(s, i, "month"@, 0);
            lemma_tag_mismatch(s, i, "january"@, 0);
            lemma_tag_mismatch(s, i, "february"@, 0);
            lemma_tag_mismatch(s, i, "march"@, 0);
            lemma_tag_mismatch(s, i, "april"@, 0);
            lemma_tag_mismatch(s, i, "may"@, 0);
            lemma_tag_mismatch(s, i, "june"@, 0);
            lemma_tag_mismatch(s, i, "july"@, 0);
            lemma_tag_mismatch(s, i, "august"@, 0);
            lemma_tag_mismatch(s, i, "september"@, 0);
            lemma_tag_mismatch(s, i, "october"@, 0);
            lemma_tag_mismatch(s, i, "november"@, 0);
            lemma_tag_mismatch(s, i, "december"@, 0);
        },
    }
}

proof fn lemma_future_text(p: Seq<char>, u: IntervalUnit, is_plural: bool)
    ensures
        ({
            let s: Seq<char> = future_text(p, u, is_plural);
            let t: Seq<char> = unit_text(u, is_plural);
            let l: int = p.len() as int;
            &&& s.len() == 4 + l + t.len()
            &&& s[0] == 'i' && s[1] == 'n' && s[2] == ' '
            &&& forall|k: int| 0 <= k < l ==> s[3 + k] == #[trigger] p[k]
            &&& s[3 + l] == ' '
            &&& forall|k: int| 0 <= k < t.len() ==> s[4 + l + k] == #[trigger] t[k]
        }),
{
    let l: int = p.len() as int;
    let t: Seq<char> = unit_text(u, is_plural);
    let a: Seq<char> = seq!['i', 'n', ' '] + p;
    let b: Seq<char> = a + seq![' '];
    let s: Seq<char> = b + t;
    assert(s == future_text(p, u, is_plural));
    assert forall|k: int| 0 <= k < l implies a[3 + k] == #[trigger] p[k] by {}
    assert forall|k: int| 0 <= k < 3 + l implies #[trigger] b[k] == a[k] by {}
    assert forall|k: int| 0 <= k < 4 + l implies #[trigger] s[k] == b[k] by {}
    assert forall|k: int| 0 <= k < t.len() implies s[4 + l + k] == #[trigger] t[k] by {}
    assert forall|k: int| 0 <= k < l implies s[3 + k] == #[trigger] p[k] by {
        assert(s[3 + k] == b[3 + k]);
        assert(b[3 + k] == a[3 + k]);
    }
    assert(s[0] == a[0] && s[1] == a[1] && s[2] == a[2]);
}

proof fn lemma_past_text(p: Seq<char>, u: IntervalUnit, is_plural: bool)
    ensures
        ({
            let s: Seq<char> = past_text(p, u, is_plural);
            let t: Seq<char> = unit_text(u, is_plural);
            let l: int = p.len() as int;
            let m: int = t.len() as int;
            &&& s.len() == l + m + 5
            &&& forall|k: int| 0 <= k < l ==> s[k] == #[trigger] p[k]
            &&& s[l] == ' '
            &&& forall|k: int| 0 <= k < m ==> s[l + 1 + k] == #[trigger] t[k]
            &&& s[l + 1 + m] == ' ' && s[l + 2 + m] == 'a' && s[l + 3 + m] == 'g' && s[l + 4 + m]
                == 'o'
        }),
{
    let l: int = p.len() as int;
    let t: Seq<char> = unit_text(u, is_plural);
    let m: int = t.len() as int;
    let a: Seq<char> = p + seq![' '];
    let b: Seq<char> = a + t;
    let s: Seq<char> = b + seq![' ', 'a', 'g', 'o'];
    assert(s == past_text(p, u, is_plural));
    assert forall|k: int| 0 <= k < l implies #[trigger] a[k] == p[k] by {}
    assert forall|k: int| 0 <= k < 1 + l implies #[trigger] b[k] == a[k] by {}
    assert forall|k: int| 0 <= k < m implies b[l + 1 + k] == #[trigger] t[k] by {}
    assert forall|k: int| 0 <= k < 1 + l + m implies #[trigger] s[k] == b[k] by {}
    assert forall|k: int| 0 <= k < l implies s[k] == #[trigger] p[k] by {
        assert(s[k] == b[k]);
        assert(b[k] == a[k]);
    }
    assert forall|k: int| 0 <= k < m implies s[l + 1 + k] == #[trigger] t[k] by {
        assert(s[l + 1 + k] == b[l + 1 + k]);
    }
    assert(s[l] == b[l] && b[l] == a[l]);
}

/// Nothing but `in` reads a text that starts with an `i`.
proof fn lemma_starts_with_i(s: Seq<char>)
    requires
        0 < s.len(),
        s[0] == 'i',
    ensures
        uint(s, 0) is None,
        month(s, 0) is None,
        interval_literal(s, 0) is None,
        interval_value(s, 0) is None,
        interval_unit(s, 0) is None,
{
    reveal_strlit("january");
    reveal_strlit("february");
    reveal_strlit("march");
    reveal_strlit("april");
    reveal_strlit("may");
    reveal_strlit("june");
    reveal_strlit("july");
    reveal_strlit("august");
    reveal_strlit("september");
    reveal_strlit("october");
    reveal_strlit("november");
    reveal_strlit("december");
    reveal_strlit("one");
    reveal_strlit("two");
    reveal_strlit("three");
    reveal_strlit("four");
    reveal_strlit("five");
    reveal_strlit("six");
    reveal_strlit("seven");
    reveal_strlit("eight");
    reveal_strlit("nine");
    reveal_strlit("ten");
    reveal_strlit("eleven");
    reveal_strlit("twelve");
    reveal_strlit("day");
    reveal_strlit("week");
    reveal_strlit("month");
    reveal_strlit("year");
    reveal_strlit("today");
    reveal_strlit("tomorrow");
    reveal_strlit("yesterday");
    reveal_strlit("a");
    assert(digits_end(s, 0) == 0);
    assert(lower(s[0int + 0int]) == 'i');
    lemma_tag_mismatch(s, 0, "january"@, 0);
    lemma_tag_mismatch(s, 0, "february"@, 0);
    lemma_tag_mismatch(s, 0, "march"@, 0);
    lemma_tag_mismatch(s, 0, "april"@, 0);
    lemma_tag_mismatch(s, 0, "may"@, 0);
    lemma_tag_mismatch(s, 0, "june"@, 0);
    lemma_tag_mismatch(s, 0, "july"@, 0);
    lemma_tag_mismatch(s, 0, "august"@, 0);
    lemma_tag_mismatch(s, 0, "september"@, 0);
    lemma_tag_mismatch(s, 0, "october"@, 0);
    lemma_tag_mismatch(s, 0, "november"@, 0);
    lemma_tag_mismatch(s, 0, "december"@, 0);
    lemma_tag_mismatch(s, 0, "one"@, 0);
    lemma_tag_mismatch(s, 0, "two"@, 0);
    lemma_tag_mismatch(s, 0, "three"@, 0);
    lemma_tag_mismatch(s, 0, "four"@, 0);
    lemma_tag_mismatch(s, 0, "five"@, 0);
    lemma_tag_mismatch(s, 0, "six"@, 0);
    lemma_tag_mismatch(s, 0, "seven"@, 0);
    lemma_tag_mismatch(s, 0, "eight"@, 0);
    lemma_tag_mismatch(s, 0, "nine"@, 0);
    lemma_tag_mismatch(s, 0, "ten"@, 0);
    lemma_tag_mismatch(s, 0, "eleven"@, 0);
    lemma_tag_mismatch(s, 0, "twelve"@, 0);
    lemma_tag_mismatch(s, 0, "day"@, 0);
    lemma_tag_mismatch(s, 0, "week"@, 0);
    lemma_tag_mismatch(s, 0, "month"@, 0);
    lemma_tag_mismatch(s, 0, "year"@, 0);
    lemma_tag_mismatch(s, 0, "today"@, 0);
    lemma_tag_mismatch(s, 0, "tomorrow"@, 0);
    lemma_tag_mismatch(s, 0, "yesterday"@, 0);
    lemma_tag_mismatch(s, 0, "a"@, 0);
}

/// Nothing but a number reads a text that starts with a digit.
proof fn lemma_starts_with_digit(s: Seq<char>, i: int)
    requires
        0 <= i < s.len(),
        is_digit(s[i]),
    ensures
        month(s, i) is None,
        interval_literal(s, i) is None,
        tag(s, i, "a"@) is None,
{
    lemma_lower_char(s[i]);
    assert(lower(s[i + 0]) == s[i]);
    reveal_strlit("january");
    lemma_tag_mismatch(s, i, "january"@, 0);
    reveal_strlit("february");
    lemma_tag_mismatch(s, i, "february"@, 0);
    reveal_strlit("march");
    lemma_tag_mismatch(s, i, "march"@, 0);
    reveal_strlit("april");
    lemma_tag_mismatch(s, i, "april"@, 0);
    reveal_strlit("may");
    lemma_tag_mismatch(s, i, "may"@, 0);
    reveal_strlit("june");
    lemma_tag_mismatch(s, i, "june"@, 0);
    reveal_strlit("july");
    lemma_tag_mismatch(s, i, "july"@, 0);
    reveal_strlit("august");
    lemma_tag_mismatch(s, i, "august"@, 0);
    reveal_strlit("september");
    lemma_tag_mismatch(s, i, "september"@, 0);
    reveal_strlit("october");
    lemma_tag_mismatch(s, i, "october"@, 0);
    reveal_strlit("november");
    lemma_tag_mismatch(s, i, "november"@, 0);
    reveal_strlit("december");
    lemma_tag_mismatch(s, i, "december"@, 0);
    reveal_strlit("today");
    lemma_tag_mismatch(s, i, "today"@, 0);
    reveal_strlit("tomorrow");
    lemma_tag_mismatch(s, i, "tomorrow"@, 0);
    reveal_strlit("yesterday");
    lemma_tag_mismatch(s, i, "yesterday"@, 0);
    reveal_strlit("a");
    lemma_tag_mismatch(s, i, "a"@, 0);
}

/// `in <number> <unit>(s)` is the interval that many units ahead of today.
pub proof fn law_future_intervals_read_back(p: Seq<char>, u: IntervalUnit, is_plural: bool)
    requires
        decimal(p),
    ensures
        expression(future_text(p, u, is_plural)) == Some(
            FdateExpression::RelativeInterval(
                RelativeInterval {
                    direction: RelativeDirection::Future,
                    distance: digits_value(p, 0, p.len() as int) as u32,
                    unit: u,
                },
            ),
        ),
{
    let s: Seq<char> = future_text(p, u, is_plural);
    let t: Seq<char> = unit_text(u, is_plural);
    let l: int = p.len() as int;
    let n: u32 = digits_value(p, 0, l) as u32;
    lemma_future_text(p, u, is_plural);
    lemma_starts_with_i(s);
    assert(absolute(s, 0) is None) by {
        assert(three_numbers(s, 0, '-') is None);
        assert(three_numbers(s, 0, '/') is None);
        assert(number_with_suffix(s, 0) is None);
    }
    assert(value_then_space(s, 0) == (0int, None::<u32>));
    assert(interval_past(s, 0) is None);
    reveal_strlit("in");
    assert(lower(s[0int + 0int]) == "in"@[0] && lower(s[0int + 1int]) == "in"@[1]);
    assert(tag(s, 0, "in"@) == Some(2int));
    assert(s[3int + 0int] == p[0]);
    assert(spaces_end(s, 3) == 3);
    assert(spaces_end(s, 2) == 3);
    assert(in_then_space(s, 0) == (3int, true));
    lemma_starts_with_digit(s, 3);
    lemma_number_at(s, 3, p);
    lemma_unit_at(s, 4 + l, u, is_plural);
    assert(spaces_end(s, 4 + l) == 4 + l);
    assert(spaces_end(s, 3 + l) == 4 + l);
    assert(value_then_space(s, 3) == (4 + l, Some(n)));
    assert(interval_future(s, 0, false) == Some(
        (s.len() as int, RelativeInterval { direction: RelativeDirection::Future, distance: n, unit: u }),
    ));
    assert(relative_interval(s, 0) == Some(
        (s.len() as int, RelativeInterval { direction: RelativeDirection::Future, distance: n, unit: u }),
    ));
}

proof fn lemma_space_before_word(s: Seq<char>, j: int)
    requires
        0 <= j,
        j + 1 < s.len(),
        s[j] == ' ',
        !is_space(s[j + 1]),
    ensures
        space1(s, j) == Some(j + 1),
{
    assert(spaces_end(s, j + 1) == j + 1);
    assert(spaces_end(s, j) == j + 1);
}

/// A number, a space, then a word that is not a month: no absolute date.
proof fn lemma_number_then_space(s: Seq<char>, l: int, n: u32)
    requires
        0 < l,
        l + 1 < s.len(),
        uint(s, 0) == Some((l, n)),
        s[l] == ' ',
        space1(s, l) == Some(l + 1),
        month(s, l + 1) is None,
        month(s, 0) is None,
    ensures
        absolute(s, 0) is None,
{
    reveal_strlit("st");
    reveal_strlit("nd");
    reveal_strlit("rd");
    reveal_strlit("th");
    assert(lower(s[l + 0]) == ' ');
    lemma_tag_mismatch(s, l, "st"@, 0);
    lemma_tag_mismatch(s, l, "nd"@, 0);
    lemma_tag_mismatch(s, l, "rd"@, 0);
    lemma_tag_mismatch(s, l, "th"@, 0);
    assert(ordinal_suffix(s, l) is None);
    assert(exact(s, l, '-') is None);
    assert(exact(s, l, '/') is None);
    assert(three_numbers(s, 0, '-') is None);
    assert(three_numbers(s, 0, '/') is None);
    assert(date_iso(s, 0) is None);
    assert(date_freedom_units(s, 0) is None);
    assert(number_with_suffix(s, 0) == Some((l, n)));
    assert(date_day_month_year(s, 0) is None);
    assert(date_month_day_year(s, 0) is None);
}

/// ` ago` closes the text at `j`.
proof fn lemma_ago_tail(s: Seq<char>, j: int)
    requires
        0 <= j,
        s.len() == j + 4,
        s[j] == ' ',
        s[j + 1] == 'a',
        s[j + 2] == 'g',
        s[j + 3] == 'o',
    ensures
        space1(s, j) == Some(j + 1),
        tag(s, j + 1, "ago"@) == Some(j + 4),
{
    assert(spaces_end(s, j + 1) == j + 1);
    assert(spaces_end(s, j) == j + 1);
    reveal_strlit("ago");
    assert(lower(s[(j + 1) + 0]) == "ago"@[0]);
    assert(lower(s[(j + 1) + 1]) == "ago"@[1]);
    assert(lower(s[(j + 1) + 2]) == "ago"@[2]);
}

/// `<number> <unit>(s) ago` is the interval that many units behind today.
pub proof fn law_past_intervals_read_back(p: Seq<char>, u: IntervalUnit, is_plural: bool)
    requires
        decimal(p),
    ensures
        expression(past_text(p, u, is_plural)) == Some(
            FdateExpression::RelativeInterval(
                RelativeInterval {
                    direction: RelativeDirection::Past,
                    distance: digits_value(p, 0, p.len() as int) as u32,
                    unit: u,
                },
            ),
        ),
{
    let s: Seq<char> = past_text(p, u, is_plural);
    let t: Seq<char> = unit_text(u, is_plural);
    let l: int = p.len() as int;
    let m: int = t.len() as int;
    let n: u32 = digits_value(p, 0, l) as u32;
    lemma_past_text(p, u, is_plural);
    assert(s[0] == p[0]);
    lemma_starts_with_digit(s, 0);
    lemma_number_at(s, 0, p);
    lemma_unit_at(s, l + 1, u, is_plural);
    lemma_space_before_word(s, l);
    lemma_number_then_space(s, l, n);
    lemma_ago_tail(s, l + 1 + m);
    assert(value_then_space(s, 0) == (l + 1, Some(n)));
    assert(interval_past(s, 0) == Some(
        (s.len() as int, RelativeInterval { direction: RelativeDirection::Past, distance: n, unit: u }),
    ));
    assert(relative_interval(s, 0) == Some(
        (s.len() as int, RelativeInterval { direction: RelativeDirection::Past, distance: n, unit: u }),
    ));
}

/// The full English name of a weekday.
pub open spec fn weekday_full_name(w: Weekday) -> Seq<char> {
    match w {
        Weekday::Mon => "monday"@,
        Weekday::Tue => "tuesday"@,
        Weekday::Wed => "wednesday"@,
        Weekday::Thu => "thursday"@,
        Weekday::Fri => "friday"@,
        Weekday::Sat => "saturday"@,
        Weekday::Sun => "sunday"@,
    }
}

/// The three-letter abbreviation of a weekday.
pub open spec fn weekday_short_name(w: Weekday) -> Seq<char> {
    match w {
        Weekday::Mon => "mon"@,
        Weekday::Tue => "tue"@,
        Weekday::Wed => "wed"@,
        Weekday::Thu => "thu"@,
        Weekday::Fri => "fri"@,
        Weekday::Sat => "sat"@,
        Weekday::Sun => "sun"@,
    }
}

/// A weekday's name, in any letter case, reads as that weekday: its full name,
/// or else its three-letter abbreviation.
pub proof fn law_weekday_names_read(s: Seq<char>, i: int, w: Weekday)
    ensures
        tag(s, i, weekday_full_name(w)) is Some ==> weekday(s, i) == Some(
            (i + weekday_full_name(w).len(), w),
        ),
        tag(s, i, weekday_short_name(w)) is Some && tag(s, i, weekday_full_name(w)) is None
            ==> weekday(s, i) == Some((i + 3, w)),
{
    reveal_strlit("monday");
    reveal_strlit("mon");
    reveal_strlit("tuesday");
    reveal_strlit("tue");
    reveal_strlit("wednesday");
    reveal_strlit("wed");
    reveal_strlit("thursday");
    reveal_strlit("thu");
    reveal_strlit("friday");
    reveal_strlit("fri");
    reveal_strlit("saturday");
    reveal_strlit("sat");
    reveal_strlit("sunday");
    reveal_strlit("sun");
    match w {
        Weekday::Mon => {
            if tag(s, i, "monday"@) is Some {
            }
            if tag(s, i, "mon"@) is Some {
            }
        },
        Weekday::Tue => {
            if tag(s, i, "tuesday"@) is Some {
                assert(lower(s[i + 0]) == "tuesday"@[0]);
                assert(!tag_at(s, i, "monday"@));
                assert(lower(s[i + 0]) == "tuesday"@[0]);
                assert(!tag_at(s, i, "mon"@));
            }
            if tag(s, i, "tue"@) is Some {
                assert(lower(s[i + 0]) == "tue"@[0]);
                assert(!tag_at(s, i, "monday"@));
                assert(lower(s[i + 0]) == "tue"@[0]);
                assert(!tag_at(s, i, "mon"@));
            }
        },
        Weekday::Wed => {
            if tag(s, i, "wednesday"@) is Some {
                assert(lower(s[i + 0]) == "wednesday"@[0]);
                assert(!tag_at(s, i, "monday"@));
                assert(lower(s[i + 0]) == "wednesday"@[0]);
                assert(!tag_at(s, i, "mon"@));
                assert(lower(s[i + 0]) == "wednesday"@[0]);
                assert(!tag_at(s, i, "tuesday"@));
                assert(lower(s[i + 0]) == "wednesday"@[0]);
                assert(!tag_at(s, i, "tue"@));
            }
            if tag(s, i, "wed"@) is Some {
                assert(lower(s[i + 0]) == "wed"@[0]);
                assert(!tag_at(s, i, "monday"@));
                assert(lower(s[i + 0]) == "wed"@[0]);
                assert(!tag_at(s, i, "mon"@));
                assert(lower(s[i + 0]) == "wed"@[0]);
                assert(!tag_at(s, i, "tuesday"@));
                assert(lower(s[i + 0]) == "wed"@[0]);
                assert(!tag_at(s, i, "tue"@));
            }
        },
        Weekday::Thu => {
            if tag(s, i, "thursday"@) is Some {
                assert(lower(s[i + 0]) == "thursday"@[0]);
                assert(!tag_at(s, i, "monday"@));
                assert(lower(s[i + 0]) == "thursday"@[0]);
                assert(!tag_at(s, i, "mon"@));
                assert(lower(s[i + 1]) == "thursday"@[1]);
                assert(!tag_at(s, i, "tuesday"@));
                assert(lower(s[i + 1]) == "thursday"@[1]);
                assert(!tag_at(s, i, "tue"@));
                assert(lower(s[i + 0]) == "thursday"@[0]);
                assert(!tag_at(s, i, "wednesday"@));
                assert(lower(s[i + 0]) == "thursday"@[0]);
                assert(!tag_at(s, i, "wed"@));
            }
            if tag(s, i, "thu"@) is Some {
                assert(lower(s[i + 0]) == "thu"@[0]);
                assert(!tag_at(s, i, "monday"@));
                assert(lower(s[i + 0]) == "thu"@[0]);
                assert(!tag_at(s, i, "mon"@));
                assert(lower(s[i + 1]) == "thu"@[1]);
                assert(!tag_at(s, i, "tuesday"@));
                assert(lower(s[i + 1]) == "thu"@[1]);
                assert(!tag_at(s, i, "tue"@));
                assert(lower(s[i + 0]) == "thu"@[0]);
                assert(!tag_at(s, i, "wednesday"@));
                assert(lower(s[i + 0]) == "thu"@[0]);
                assert(!tag_at(s, i, "wed"@));
            }
        },
        Weekday::Fri => {
            if tag(s, i, "friday"@) is Some {
                assert(lower(s[i + 0]) == "friday"@[0]);
                assert(!tag_at(s, i, "monday"@));
                assert(lower(s[i + 0]) == "friday"@[0]);
                assert(!tag_at(s, i, "mon"@));
                assert(lower(s[i + 0]) == "friday"@[0]);
                assert(!tag_at(s, i, "tuesday"@));
                assert(lower(s[i + 0]) == "friday"@[0]);
                assert(!tag_at(s, i, "tue"@));
                assert(lower(s[i + 0]) == "friday"@[0]);
                assert(!tag_at(s, i, "wednesday"@));
                assert(lower(s[i + 0]) == "friday"@[0]);
                assert(!tag_at(s, i, "wed"@));
                assert(lower(s[i + 0]) == "friday"@[0]);
                assert(!tag_at(s, i, "thursday"@));
                assert(lower(s[i + 0]) == "friday"@[0]);
                assert(!tag_at(s, i, "thu"@));
            }
            if tag(s, i, "fri"@) is Some {
                assert(lower(s[i + 0]) == "fri"@[0]);
                assert(!tag_at(s, i, "monday"@));
                assert(lower(s[i + 0]) == "fri"@[0]);
                assert(!tag_at(s, i, "mon"@));
                assert(lower(s[i + 0]) == "fri"@[0]);
                assert(!tag_at(s, i, "tuesday"@));
                assert(lower(s[i + 0]) == "fri"@[0]);
                assert(!tag_at(s, i, "tue"@));
                assert(lower(s[i + 0]) == "fri"@[0]);
                assert(!tag_at(s, i, "wednesday"@));
                assert(lower(s[i + 0]) == "fri"@[0]);
                assert(!tag_at(s, i, "wed"@));
                assert(lower(s[i + 0]) == "fri"@[0]);
                assert(!tag_at(s, i, "thursday"@));
                assert(lower(s[i + 0]) == "fri"@[0]);
                assert(!tag_at(s, i, "thu"@));
            }
        },
        Weekday::Sat => {
            if tag(s, i, "saturday"@) is Some {
                assert(lower(s[i + 0]) == "saturday"@[0]);
                assert(!tag_at(s, i, "monday"@));
                assert(lower(s[i + 0]) == "saturday"@[0]);
                assert(!tag_at(s, i, "mon"@));
                assert(lower(s[i + 0]) == "saturday"@[0]);
                assert(!tag_at(s, i, "tuesday"@));
                assert(lower(s[i + 0]) == "saturday"@[0]);
                assert(!tag_at(s, i, "tue"@));
                assert(lower(s[i + 0]) == "saturday"@[0]);
                assert(!tag_at(s, i, "wednesday"@));
                assert(lower(s[i + 0]) == "saturday"@[0]);
                assert(!tag_at(s, i, "wed"@));
                assert(lower(s[i + 0]) == "saturday"@[0]);
                assert(!tag_at(s, i, "thursday"@));
                assert(lower(s[i + 0]) == "saturday"@[0]);
                assert(!tag_at(s, i, "thu"@));
                assert(lower(s[i + 0]) == "saturday"@[0]);
                assert(!tag_at(s, i, "friday"@));
                assert(lower(s[i + 0]) == "saturday"@[0]);
                assert(!tag_at(s, i, "fri"@));
            }
            if tag(s, i, "sat"@) is Some {
                assert(lower(s[i + 0]) == "sat"@[0]);
                assert(!tag_at(s, i, "monday"@));
                assert(lower(s[i + 0]) == "sat"@[0]);
                assert(!tag_at(s, i, "mon"@));
                assert(lower(s[i + 0]) == "sat"@[0]);
                assert(!tag_at(s, i, "tuesday"@));
                assert(lower(s[i + 0]) == "sat"@[0]);
                assert(!tag_at(s, i, "tue"@));
                assert(lower(s[i + 0]) == "sat"@[0]);
                assert(!tag_at(s, i, "wednesday"@));
                assert(lower(s[i + 0]) == "sat"@[0]);
                assert(!tag_at(s, i, "wed"@));
                assert(lower(s[i + 0]) == "sat"@[0]);
                assert(!tag_at(s, i, "thursday"@));
                assert(lower(s[i + 0]) == "sat"@[0]);
                assert(!tag_at(s, i, "thu"@));
                assert(lower(s[i + 0]) == "sat"@[0]);
                assert(!tag_at(s, i, "friday"@));
                assert(lower(s[i + 0]) == "sat"@[0]);
                assert(!tag_at(s, i, "fri"@));
            }
        },
        Weekday::Sun => {
            if tag(s, i, "sunday"@) is Some {
                assert(lower(s[i + 0]) == "sunday"@[0]);
                assert(!tag_at(s, i, "monday"@));
                assert(lower(s[i + 0]) == "sunday"@[0]);
                assert(!tag_at(s, i, "mon"@));
                assert(lower(s[i + 0]) == "sunday"@[0]);
                assert(!tag_at(s, i, "tuesday"@));
                assert(lower(s[i + 0]) == "sunday"@[0]);
                assert(!tag_at(s, i, "tue"@));
                assert(lower(s[i + 0]) == "sunday"@[0]);
                assert(!tag_at(s, i, "wednesday"@));
                assert(lower(s[i + 0]) == "sunday"@[0]);
                assert(!tag_at(s, i, "wed"@));
                assert(lower(s[i + 0]) == "sunday"@[0]);
                assert(!tag_at(s, i, "thursday"@));
                assert(lower(s[i + 0]) == "sunday"@[0]);
                assert(!tag_at(s, i, "thu"@));
                assert(lower(s[i + 0]) == "sunday"@[0]);
                assert(!tag_at(s, i, "friday"@));
                assert(lower(s[i + 0]) == "sunday"@[0]);
                assert(!tag_at(s, i, "fri"@));
                assert(lower(s[i + 1]) == "sunday"@[1]);
                assert(!tag_at(s, i, "saturday"@));
                assert(lower(s[i + 1]) == "sunday"@[1]);
                assert(!tag_at(s, i, "sat"@));
            }
            if tag(s, i, "sun"@) is Some {
                assert(lower(s[i + 0]) == "sun"@[0]);
                assert(!tag_at(s, i, "monday"@));
                assert(lower(s[i + 0]) == "sun"@[0]);
                assert(!tag_at(s, i, "mon"@));
                assert(lower(s[i + 0]) == "sun"@[0]);
                assert(!tag_at(s, i, "tuesday"@));
                assert(lower(s[i + 0]) == "sun"@[0]);
                assert(!tag_at(s, i, "tue"@));
                assert(lower(s[i + 0]) == "sun"@[0]);
                assert(!tag_at(s, i, "wednesday"@));
                assert(lower(s[i + 0]) == "sun"@[0]);
                assert(!tag_at(s, i, "wed"@));
                assert(lower(s[i + 0]) == "sun"@[0]);
                assert(!tag_at(s, i, "thursday"@));
                assert(lower(s[i + 0]) == "sun"@[0]);
                assert(!tag_at(s, i, "thu"@));
                assert(lower(s[i + 0]) == "sun"@[0]);
                assert(!tag_at(s, i, "friday"@));
                assert(lower(s[i + 0]) == "sun"@[0]);
                assert(!tag_at(s, i, "fri"@));
                assert(lower(s[i + 1]) == "sun"@[1]);
                assert(!tag_at(s, i, "saturday"@));
                assert(lower(s[i + 1]) == "sun"@[1]);
                assert(!tag_at(s, i, "sat"@));
            }
        },
    }
}

/// `next` reads as the future and `last` as the past, in any letter case.
pub proof fn law_direction_words_read(s: Seq<char>, i: int)
    ensures
        tag(s, i, "next"@) is Some ==> direction(s, i) == Some(
            (i + 4, RelativeDirection::Future),
        ),
        tag(s, i, "last"@) is Some ==> direction(s, i) == Some((i + 4, RelativeDirection::Past)),
{
    reveal_strlit("next");
    reveal_strlit("last");
    if tag(s, i, "last"@) is Some {
        assert(lower(s[i + 0]) == "last"@[0]);
        assert(!tag_at(s, i, "next"@));
    }
}

} // verus!

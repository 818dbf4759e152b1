//! Numbers written with words or suffixes: a day of the month may carry its
//! English ordinal suffix (`23rd` reads as `23`), and an interval's value may be
//! a word from `one` to `twelve`.
use vstd::prelude::*;

use crate::parser::syntax::absolute::{
    absolute, date_day_month_year, date_freedom_units, date_iso, date_month_day_year,
    three_numbers,
};
use crate::parser::syntax::common::{
    direction, direction_then_space, interval_unit, month, number_with_suffix, ordinal_day,
    ordinal_suffix, weekday,
};
use crate::parser::syntax::day_of_month::{month_follows, RelativeDayOfMonth};
use crate::parser::syntax::interval::{
    in_then_space, interval_future, interval_literal, interval_past, interval_value, number_word,
    relative_interval, value_then_space,
};
use crate::parser::syntax::partial_date::{month_first_body, partial_date_body, relative_partial_date};
use crate::parser::syntax::relative_interval_date::{
    day_of_year_target, month_interval_day_of_month, relative_interval_date,
    week_interval_weekday, weekday_target, year_interval_day_of_year,
};
use crate::parser::syntax::relative_weekday::relative_weekday;
use crate::parser::syntax::{expression, FdateExpression};
use crate::properties::{lemma_lower_char, lowered};
use crate::text::{
    digits_end, digits_value, exact, is_digit, is_space, lower, space1, spaces_end, tag, tag_at,
    uint,
};

verus! {

proof fn lemma_tag_at_digit(s: Seq<char>, i: int, t: Seq<char>)
    requires
        0 <= i < s.len(),
        is_digit(s[i]),
        t.len() > 0,
        !is_digit(t[0]),
    ensures
        tag(s, i, t) is None,
{
    if tag_at(s, i, t) {
        assert(lower(s[i + 0]) == t[0]);
    }
}

/// No keyword starts with a digit.
proof fn lemma_keywords_at_digit(s: Seq<char>, i: int)
    requires
        0 <= i < s.len(),
        is_digit(s[i]),
    ensures
        interval_literal(s, i) is None,
        direction(s, i) is None,
        weekday(s, i) is None,
        month(s, i) is None,
        interval_unit(s, i) is None,
        number_word(s, i) is None,
        tag(s, i, "a"@) is None,
        tag(s, i, "in"@) is None,
{
    reveal_strlit("today");
    lemma_tag_at_digit(s, i, "today"@);
    reveal_strlit("tomorrow");
    lemma_tag_at_digit(s, i, "tomorrow"@);
    reveal_strlit("yesterday");
    lemma_tag_at_digit(s, i, "yesterday"@);
    reveal_strlit("next");
    lemma_tag_at_digit(s, i, "next"@);
    reveal_strlit("last");
    lemma_tag_at_digit(s, i, "last"@);
    reveal_strlit("monday");
    lemma_tag_at_digit(s, i, "monday"@);
    reveal_strlit("mon");
    lemma_tag_at_digit(s, i, "mon"@);
    reveal_strlit("tuesday");
    lemma_tag_at_digit(s, i, "tuesday"@);
    reveal_strlit("tue");
    lemma_tag_at_digit(s, i, "tue"@);
    reveal_strlit("wednesday");
    lemma_tag_at_digit(s, i, "wednesday"@);
    reveal_strlit("wed");
    lemma_tag_at_digit(s, i, "wed"@);
    reveal_strlit("thursday");
    lemma_tag_at_digit(s, i, "thursday"@);
    reveal_strlit("thu");
    lemma_tag_at_digit(s, i, "thu"@);
    reveal_strlit("friday");
    lemma_tag_at_digit(s, i, "friday"@);
    reveal_strlit("fri");
    lemma_tag_at_digit(s, i, "fri"@);
    reveal_strlit("saturday");
    lemma_tag_at_digit(s, i, "saturday"@);
    reveal_strlit("sat");
    lemma_tag_at_digit(s, i, "sat"@);
    reveal_strlit("sunday");
    lemma_tag_at_digit(s, i, "sunday"@);
    reveal_strlit("sun");
    lemma_tag_at_digit(s, i, "sun"@);
    reveal_strlit("january");
    lemma_tag_at_digit(s, i, "january"@);
    reveal_strlit("february");
    lemma_tag_at_digit(s, i, "february"@);
    reveal_strlit("march");
    lemma_tag_at_digit(s, i, "march"@);
    reveal_strlit("april");
    lemma_tag_at_digit(s, i, "april"@);
    reveal_strlit("may");
    lemma_tag_at_digit(s, i, "may"@);
    reveal_strlit("june");
    lemma_tag_at_digit(s, i, "june"@);
    reveal_strlit("july");
    lemma_tag_at_digit(s, i, "july"@);
    reveal_strlit("august");
    lemma_tag_at_digit(s, i, "august"@);
    reveal_strlit("september");
    lemma_tag_at_digit(s, i, "september"@);
    reveal_strlit("october");
    lemma_tag_at_digit(s, i, "october"@);
    reveal_strlit("november");
    lemma_tag_at_digit(s, i, "november"@);
    reveal_strlit("december");
    lemma_tag_at_digit(s, i, "december"@);
    reveal_strlit("day");
    lemma_tag_at_digit(s, i, "day"@);
    reveal_strlit("week");
    lemma_tag_at_digit(s, i, "week"@);
    reveal_strlit("month");
    lemma_tag_at_digit(s, i, "month"@);
    reveal_strlit("year");
    lemma_tag_at_digit(s, i, "year"@);
    reveal_strlit("one");
    lemma_tag_at_digit(s, i, "one"@);
    reveal_strlit("two");
    lemma_tag_at_digit(s, i, "two"@);
    reveal_strlit("three");
    lemma_tag_at_digit(s, i, "three"@);
    reveal_strlit("four");
    lemma_tag_at_digit(s, i, "four"@);
    reveal_strlit("five");
    lemma_tag_at_digit(s, i, "five"@);
    reveal_strlit("six");
    lemma_tag_at_digit(s, i, "six"@);
    reveal_strlit("seven");
    lemma_tag_at_digit(s, i, "seven"@);
    reveal_strlit("eight");
    lemma_tag_at_digit(s, i, "eight"@);
    reveal_strlit("nine");
    lemma_tag_at_digit(s, i, "nine"@);
    reveal_strlit("ten");
    lemma_tag_at_digit(s, i, "ten"@);
    reveal_strlit("eleven");
    lemma_tag_at_digit(s, i, "eleven"@);
    reveal_strlit("twelve");
    lemma_tag_at_digit(s, i, "twelve"@);
    reveal_strlit("a");
    lemma_tag_at_digit(s, i, "a"@);
    reveal_strlit("in");
    lemma_tag_at_digit(s, i, "in"@);
}

/// What a text that starts with a number and has nothing after the number (and
/// its suffix) is: a bare day of the month when the number is one, else
/// nothing.
pub open spec fn bare_day(s: Seq<char>) -> Option<FdateExpression> {
    match ordinal_day(s, 0) {
        Some((_, n)) => Some(
            FdateExpression::RelativeDayOfMonth(RelativeDayOfMonth { direction: None, day: n }),
        ),
        None => None,
    }
}

proof fn lemma_number_only(s: Seq<char>)
    requires
        0 < s.len(),
        is_digit(s[0]),
        number_with_suffix(s, 0) matches Some((e, _)) ==> e == s.len(),
        exact(s, digits_end(s, 0), '-') is None,
        exact(s, digits_end(s, 0), '/') is None,
        space1(s, digits_end(s, 0)) is None,
    ensures
        expression(s) == bare_day(s),
{
    lemma_keywords_at_digit(s, 0);
    let n: int = s.len() as int;
    assert(spaces_end(s, n) == n);
    assert(space1(s, n) is None);
    assert(three_numbers(s, 0, '-') is None);
    assert(three_numbers(s, 0, '/') is None);
    assert(date_iso(s, 0) is None);
    assert(date_freedom_units(s, 0) is None);
    assert(date_day_month_year(s, 0) is None);
    assert(date_month_day_year(s, 0) is None);
    assert(absolute(s, 0) is None);
    assert(value_then_space(s, 0) == (0int, None::<u32>));
    assert(in_then_space(s, 0) == (0int, false));
    assert(interval_past(s, 0) is None);
    assert(interval_future(s, 0, false) is None);
    assert(relative_interval(s, 0) is None);
    assert(weekday_target(s, 0) is None);
    assert(week_interval_weekday(s, 0) is None);
    assert(month_interval_day_of_month(s, 0) is None);
    assert(month_first_body(s, 0) is None);
    assert(partial_date_body(s, 0) is None);
    assert(day_of_year_target(s, 0) is None);
    assert(year_interval_day_of_year(s, 0) is None);
    assert(relative_interval_date(s, 0) is None);
    assert(direction_then_space(s, 0) == (0int, None::<crate::parser::syntax::common::RelativeDirection>));
    assert(relative_weekday(s, 0) is None);
    assert(relative_partial_date(s, 0) is None);
    if let Some((e, d)) = ordinal_day(s, 0) {
        assert(month_follows(s, e) == false);
    }
}

proof fn lemma_digit_run(s: Seq<char>, i: int, j: int)
    requires
        0 <= i <= j <= s.len(),
        forall|k: int| i <= k < j ==> is_digit(#[trigger] s[k]),
        j == s.len() || !is_digit(s[j]),
    ensures
        digits_end(s, i) == j,
    decreases j - i,
{
    if i < j {
        lemma_digit_run(s, i + 1, j);
    }
}

proof fn lemma_same_digits_value(s: Seq<char>, t: Seq<char>, j: int)
    requires
        0 <= j <= s.len(),
        j <= t.len(),
        forall|k: int| 0 <= k < j ==> #[trigger] s[k] == t[k],
    ensures
        digits_value(s, 0, j) == digits_value(t, 0, j),
    decreases j,
{
    if 0 < j {
        lemma_same_digits_value(s, t, j - 1);
    }
}

/// A day of the month written in digits may be followed by `st`, `nd`, `rd` or
/// `th`, in any letter case: the text reads as the digits alone would, and as
/// the bare day of the month they count when that is from 1 to 31.
pub proof fn law_ordinal_suffix_is_read(p: Seq<char>, suf: Seq<char>)
    requires
        0 < p.len(),
        forall|k: int| 0 <= k < p.len() ==> is_digit(#[trigger] p[k]),
        lowered(suf) == "st"@ || lowered(suf) == "nd"@ || lowered(suf) == "rd"@ || lowered(suf)
            == "th"@,
    ensures
        expression(p + suf) == expression(p),
        1 <= digits_value(p, 0, p.len() as int) <= 31 ==> expression(p + suf) == Some(
            FdateExpression::RelativeDayOfMonth(
                RelativeDayOfMonth {
                    direction: None,
                    day: digits_value(p, 0, p.len() as int) as u32,
                },
            ),
        ),
{
    reveal_strlit("st");
    reveal_strlit("nd");
    reveal_strlit("rd");
    reveal_strlit("th");
    let s: Seq<char> = p + suf;
    let n: int = p.len() as int;
    assert(suf.len() == 2);
    assert(lowered(suf)[0] == lower(suf[0]));
    assert(lowered(suf)[1] == lower(suf[1]));
    crate::properties::lemma_lower_char(suf[0]);
    assert(s[n] == suf[0]);
    assert(s[n + 1] == suf[1]);
    assert(!is_digit(s[n]) && !is_space(s[n]) && s[n] != '-' && s[n] != '/');
    assert forall|k: int| 0 <= k < n implies is_digit(#[trigger] s[k]) by {
        assert(s[k] == p[k]);
    }
    lemma_digit_run(s, 0, n);
    lemma_digit_run(p, 0, n);
    assert forall|k: int| 0 <= k < n implies #[trigger] s[k] == p[k] by {}
    lemma_same_digits_value(s, p, n);
    assert(uint(s, 0) == uint(p, 0));
    assert(tag_at(s, n, lowered(suf))) by {
        assert forall|k: int| 0 <= k < 2 implies lower(#[trigger] s[n + k]) == lowered(suf)[k] by {
            if k == 0 {
                assert(s[n + 0] == suf[0]);
            } else {
                assert(s[n + 1] == suf[1]);
            }
        }
    }
    assert(ordinal_suffix(s, n) == Some(n + 2));
    assert(ordinal_suffix(p, n) is None);
    assert(spaces_end(s, n) == n);
    assert(spaces_end(p, n) == n);
    lemma_number_only(s);
    lemma_number_only(p);
}

/// The English word for the numbers from 1 to 12.
pub open spec fn number_name(k: int) -> Seq<char> {
    if k == 1 {
        "one"@
    } else if k == 2 {
        "two"@
    } else if k == 3 {
        "three"@
    } else if k == 4 {
        "four"@
    } else if k == 5 {
        "five"@
    } else if k == 6 {
        "six"@
    } else if k == 7 {
        "seven"@
    } else if k == 8 {
        "eight"@
    } else if k == 9 {
        "nine"@
    } else if k == 10 {
        "ten"@
    } else if k == 11 {
        "eleven"@
    } else {
        "twelve"@
    }
}

/// An interval's value may be written as a word: where the word for `k`
/// (from 1 to 12) is written, in any letter case, the value read is `k`.
pub proof fn law_number_words_count(s: Seq<char>, i: int, k: int)
    requires
        1 <= k <= 12,
        tag(s, i, number_name(k)) is Some,
    ensures
        interval_value(s, i) == Some((i + number_name(k).len(), k as u32)),
{
    reveal_strlit("a");
    reveal_strlit("one");
    reveal_strlit("two");
    reveal_strlit("three");
    reveal_strlit("four");
    reveal_strlit("five");
    reveal_strlit("six");
    reveal_strlit("seven");
    reveal_strlit("eight");
    reveal_strlit("nine");
    reveal_strlit("ten");
    reveal_strlit("eleven");
    reveal_strlit("twelve");
    let t: Seq<char> = number_name(k);
    assert(tag_at(s, i, t));
    assert(lower(s[i + 0]) == t[0]);
    lemma_lower_char(s[i]);
    assert(!is_digit(s[i]));
    assert(digits_end(s, i) == i);
    assert(lower(s[i + 0]) != "a"@[0]);
    assert(!tag_at(s, i, "a"@));
    if k == 1 {
    } else if k == 2 {
        assert(lower(s[i + 0]) == "two"@[0]);
        assert(!tag_at(s, i, "one"@));
    } else if k == 3 {
        assert(lower(s[i + 0]) == "three"@[0]);
        assert(!tag_at(s, i, "one"@));
        assert(lower(s[i + 1]) == "three"@[1]);
        assert(!tag_at(s, i, "two"@));
    } else if k == 4 {
        assert(lower(s[i + 0]) == "four"@[0]);
        assert(!tag_at(s, i, "one"@));
        assert(lower(s[i + 0]) == "four"@[0]);
        assert(!tag_at(s, i, "two"@));
        assert(lower(s[i + 0]) == "four"@[0]);
        assert(!tag_at(s, i, "three"@));
    } else if k == 5 {
        assert(lower(s[i + 0]) == "five"@[0]);
        assert(!tag_at(s, i, "one"@));
        assert(lower(s[i + 0]) == "five"@[0]);
        assert(!tag_at(s, i, "two"@));
        assert(lower(s[i + 0]) == "five"@[0]);
        assert(!tag_at(s, i, "three"@));
        assert(lower(s[i + 1]) == "five"@[1]);
        assert(!tag_at(s, i, "four"@));
    } else if k == 6 {
        assert(lower(s[i + 0]) == "six"@[0]);
        assert(!tag_at(s, i, "one"@));
        assert(lower(s[i + 0]) == "six"@[0]);
        assert(!tag_at(s, i, "two"@));
        assert(lower(s[i + 0]) == "six"@[0]);
        assert(!tag_at(s, i, "three"@));
        assert(lower(s[i + 0]) == "six"@[0]);
        assert(!tag_at(s, i, "four"@));
        assert(lower(s[i + 0]) == "six"@[0]);
        assert(!tag_at(s, i, "five"@));
    } else if k == 7 {
        assert(lower(s[i + 0]) == "seven"@[0]);
        assert(!tag_at(s, i, "one"@));
        assert(lower(s[i + 0]) == "seven"@[0]);
        assert(!tag_at(s, i, "two"@));
        assert(lower(s[i + 0]) == "seven"@[0]);
        assert(!tag_at(s, i, "three"@));
        assert(lower(s[i + 0]) == "seven"@[0]);
        assert(!tag_at(s, i, "four"@));
        assert(lower(s[i + 0]) == "seven"@[0]);
        assert(!tag_at(s, i, "five"@));
        assert(lower(s[i + 1]) == "seven"@[1]);
        assert(!tag_at(s, i, "six"@));
    } else if k == 8 {
        assert(lower(s[i + 0]) == "eight"@[0]);
        assert(!tag_at(s, i, "one"@));
        assert(lower(s[i + 0]) == "eight"@[0]);
        assert(!tag_at(s, i, "two"@));
        assert(lower(s[i + 0]) == "eight"@[0]);
        assert(!tag_at(s, i, "three"@));
        assert(lower(s[i + 0]) == "eight"@[0]);
        assert(!tag_at(s, i, "four"@));
        assert(lower(s[i + 0]) == "eight"@[0]);
        assert(!tag_at(s, i, "five"@));
        assert(lower(s[i + 0]) == "eight"@[0]);
        assert(!tag_at(s, i, "six"@));
        assert(lower(s[i + 0]) == "eight"@[0]);
        assert(!tag_at(s, i, "seven"@));
    } else if k == 9 {
        assert(lower(s[i + 0]) == "nine"@[0]);
        assert(!tag_at(s, i, "one"@));
        assert(lower(s[i + 0]) == "nine"@[0]);
        assert(!tag_at(s, i, "two"@));
        assert(lower(s[i + 0]) == "nine"@[0]);
        assert(!tag_at(s, i, "three"@));
        assert(lower(s[i + 0]) == "nine"@[0]);
        assert(!tag_at(s, i, "four"@));
        assert(lower(s[i + 0]) == "nine"@[0]);
        assert(!tag_at(s, i, "five"@));
        assert(lower(s[i + 0]) == "nine"@[0]);
        assert(!tag_at(s, i, "six"@));
        assert(lower(s[i + 0]) == "nine"@[0]);
        assert(!tag_at(s, i, "seven"@));
        assert(lower(s[i + 0]) == "nine"@[0]);
        assert(!tag_at(s, i, "eight"@));
    } else if k == 10 {
        assert(lower(s[i + 0]) == "ten"@[0]);
        assert(!tag_at(s, i, "one"@));
        assert(lower(s[i + 1]) == "ten"@[1]);
        assert(!tag_at(s, i, "two"@));
        assert(lower(s[i + 1]) == "ten"@[1]);
        assert(!tag_at(s, i, "three"@));
        assert(lower(s[i + 0]) == "ten"@[0]);
        assert(!tag_at(s, i, "four"@));
        assert(lower(s[i + 0]) == "ten"@[0]);
        assert(!tag_at(s, i, "five"@));
        assert(lower(s[i + 0]) == "ten"@[0]);
        assert(!tag_at(s, i, "six"@));
        assert(lower(s[i + 0]) == "ten"@[0]);
        assert(!tag_at(s, i, "seven"@));
        assert(lower(s[i + 0]) == "ten"@[0]);
        assert(!tag_at(s, i, "eight"@));
        assert(lower(s[i + 0]) == "ten"@[0]);
        assert(!tag_at(s, i, "nine"@));
    } else if k == 11 {
        assert(lower(s[i + 0]) == "eleven"@[0]);
        assert(!tag_at(s, i, "one"@));
        assert(lower(s[i + 0]) == "eleven"@[0]);
        assert(!tag_at(s, i, "two"@));
        assert(lower(s[i + 0]) == "eleven"@[0]);
        assert(!tag_at(s, i, "three"@));
        assert(lower(s[i + 0]) == "eleven"@[0]);
        assert(!tag_at(s, i, "four"@));
        assert(lower(s[i + 0]) == "eleven"@[0]);
        assert(!tag_at(s, i, "five"@));
        assert(lower(s[i + 0]) == "eleven"@[0]);
        assert(!tag_at(s, i, "six"@));
        assert(lower(s[i + 0]) == "eleven"@[0]);
        assert(!tag_at(s, i, "seven"@));
        assert(lower(s[i + 1]) == "eleven"@[1]);
        assert(!tag_at(s, i, "eight"@));
        assert(lower(s[i + 0]) == "eleven"@[0]);
        assert(!tag_at(s, i, "nine"@));
        assert(lower(s[i + 0]) == "eleven"@[0]);
        assert(!tag_at(s, i, "ten"@));
    } else if k == 12 {
        assert(lower(s[i + 0]) == "twelve"@[0]);
        assert(!tag_at(s, i, "one"@));
        assert(lower(s[i + 2]) == "twelve"@[2]);
        assert(!tag_at(s, i, "two"@));
        assert(lower(s[i + 1]) == "twelve"@[1]);
        assert(!tag_at(s, i, "three"@));
        assert(lower(s[i + 0]) == "twelve"@[0]);
        assert(!tag_at(s, i, "four"@));
        assert(lower(s[i + 0]) == "twelve"@[0]);
        assert(!tag_at(s, i, "five"@));
        assert(lower(s[i + 0]) == "twelve"@[0]);
        assert(!tag_at(s, i, "six"@));
        assert(lower(s[i + 0]) == "twelve"@[0]);
        assert(!tag_at(s, i, "seven"@));
        assert(lower(s[i + 0]) == "twelve"@[0]);
        assert(!tag_at(s, i, "eight"@));
        assert(lower(s[i + 0]) == "twelve"@[0]);
        assert(!tag_at(s, i, "nine"@));
        assert(lower(s[i + 1]) == "twelve"@[1]);
        assert(!tag_at(s, i, "ten"@));
        assert(lower(s[i + 0]) == "twelve"@[0]);
        assert(!tag_at(s, i, "eleven"@));
    }
}

/// `a` as an interval's value counts one, as in `in a week`.
pub proof fn law_a_counts_one(s: Seq<char>, i: int)
    requires
        tag(s, i, "a"@) is Some,
    ensures
        interval_value(s, i) == Some((i + 1, 1u32)),
{
    reveal_strlit("a");
}

} // verus!

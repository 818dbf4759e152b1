//! Days and months written without a year (`14 april`, `next 14 april`)
//! read as partial dates of that day and month.
use vstd::prelude::*;

use crate::calendar::Month;
use crate::parser::syntax::absolute::{
    absolute, date_day_month_year, date_freedom_units, date_iso, date_month_day_year,
    three_numbers,
};
use crate::parser::syntax::common::{
    direction, direction_then_space, interval_unit, month, number_with_suffix, ordinal_day,
    ordinal_suffix, weekday, RelativeDirection,
};
use crate::parser::syntax::interval::{
    in_then_space, interval_future, interval_literal, interval_past, interval_value,
    non_literal_interval, relative_interval, value_then_space,
};
use crate::parser::syntax::partial_date::{partial_date_body, RelativePartialDate};
use crate::parser::syntax::relative_interval_date::{
    month_interval_day_of_month, relative_interval_date, relative_period, week_interval_weekday,
    weekday_target, year_interval_day_of_year,
};
use crate::parser::syntax::relative_weekday::relative_weekday;
use crate::parser::syntax::{expression, first_form, FdateExpression};
use crate::properties::lemma_lower_char;
use crate::properties::written_dates::{digit, lemma_digit, lemma_two_digits_at, two_digits};
use crate::text::{
    digits_end, exact, is_digit, is_space, lower, space1, spaces_end, tag, tag_at, uint,
};

verus! {

/// The name of a month, in small letters.
pub open spec fn month_word(mo: Month) -> Seq<char> {
    match mo {
        Month::January => "january"@,
        Month::February => "february"@,
        Month::March => "march"@,
        Month::April => "april"@,
        Month::May => "may"@,
        Month::June => "june"@,
        Month::July => "july"@,
        Month::August => "august"@,
        Month::September => "september"@,
        Month::October => "october"@,
        Month::November => "november"@,
        Month::December => "december"@,
    }
}

/// The day in two digits, a space, then the month's name.
pub open spec fn partial_text(d: int, mo: Month) -> Seq<char> {
    two_digits(d) + seq![' '] + month_word(mo)
}

proof fn lemma_tag_mismatch(s: Seq<char>, i: int, t: Seq<char>, q: int)
    requires
        0 <= q < t.len(),
        0 <= i,
        i + q < s.len(),
        lower(s[i + q]) != t[q],
    ensures
        tag(s, i, t) is None,
{
}

/// A month's name at `i`, up to the end of `s`.
proof fn lemma_month_word_at(s: Seq<char>, i: int, mo: Month)
    requires
        0 <= i,
        s.len() == i + month_word(mo).len(),
        forall|k: int| 0 <= k < month_word(mo).len() ==> s[i + k] == #[trigger] month_word(mo)[k],
    ensures
        month(s, i) == Some((s.len() as int, mo)),
        interval_unit(s, i) is None,
        tag(s, i, "this month"@) is None,
        tag(s, i, "next month"@) is None,
        tag(s, i, "last month"@) is None,
        value_then_space(s, i) == (i, None::<u32>),
        in_then_space(s, i) == (i, false),
        !is_digit(s[i]),
        !is_space(s[i]),
        month_word(mo).len() >= 3,
{
    reveal_strlit("a");
    reveal_strlit("april");
    reveal_strlit("august");
    reveal_strlit("day");
    reveal_strlit("december");
    reveal_strlit("eight");
    reveal_strlit("eleven");
    reveal_strlit("february");
    reveal_strlit("five");
    reveal_strlit("four");
    reveal_strlit("in");
    reveal_strlit("january");
    reveal_strlit("july");
    reveal_strlit("june");
    reveal_strlit("last month");
    reveal_strlit("march");
    reveal_strlit("may");
    reveal_strlit("month");
    reveal_strlit("next month");
    reveal_strlit("nine");
    reveal_strlit("november");
    reveal_strlit("october");
    reveal_strlit("one");
    reveal_strlit("september");
    reveal_strlit("seven");
    reveal_strlit("six");
    reveal_strlit("ten");
    reveal_strlit("this month");
    reveal_strlit("three");
    reveal_strlit("twelve");
    reveal_strlit("two");
    reveal_strlit("week");
    reveal_strlit("year");
    lemma_lower_char(s[i]);
    match mo {
        Month::January => {
            assert(s[i + 0] == month_word(mo)[0]);
            assert(s[i + 1] == month_word(mo)[1]);
            assert(s[i + 2] == month_word(mo)[2]);
            assert(s[i + 3] == month_word(mo)[3]);
            assert(s[i + 4] == month_word(mo)[4]);
            assert(s[i + 5] == month_word(mo)[5]);
            assert(s[i + 6] == month_word(mo)[6]);
            assert(tag_at(s, i, "january"@));
            lemma_tag_mismatch(s, i, "day"@, 0);
            lemma_tag_mismatch(s, i, "week"@, 0);
            lemma_tag_mismatch(s, i, "month"@, 0);
            lemma_tag_mismatch(s, i, "year"@, 0);
            lemma_tag_mismatch(s, i, "this month"@, 0);
            lemma_tag_mismatch(s, i, "next month"@, 0);
            lemma_tag_mismatch(s, i, "last month"@, 0);
            lemma_tag_mismatch(s, i, "in"@, 0);
            lemma_tag_mismatch(s, i, "one"@, 0);
            lemma_tag_mismatch(s, i, "two"@, 0);
            lemma_tag_mismatch(s, i, "three"@, 0);
            lemma_tag_mismatch(s, i, "four"@, 0);
            lemma_tag_mismatch(s, i, "five"@, 0);
            lemma_tag_mismatch(s, i, "six"@, 0);
            lemma_tag_mismatch(s, i, "seven"@, 0);
            lemma_tag_mismatch(s, i, "eight"@, 0);
            lemma_tag_mismatch(s, i, "nine"@, 0);
            lemma_tag_mismatch(s, i, "ten"@, 0);
            lemma_tag_mismatch(s, i, "eleven"@, 0);
            lemma_tag_mismatch(s, i, "twelve"@, 0);
            lemma_tag_mismatch(s, i, "a"@, 0);
            assert(digits_end(s, i) == i);
        },
        Month::February => {
            assert(s[i + 0] == month_word(mo)[0]);
            assert(s[i + 1] == month_word(mo)[1]);
            assert(s[i + 2] == month_word(mo)[2]);
            assert(s[i + 3] == month_word(mo)[3]);
            assert(s[i + 4] == month_word(mo)[4]);
            assert(s[i + 5] == month_word(mo)[5]);
            assert(s[i + 6] == month_word(mo)[6]);
            assert(s[i + 7] == month_word(mo)[7]);
            assert(tag_at(s, i, "february"@));
            lemma_tag_mismatch(s, i, "january"@, 0);
            lemma_tag_mismatch(s, i, "day"@, 0);
            lemma_tag_mismatch(s, i, "week"@, 0);
            lemma_tag_mismatch(s, i, "month"@, 0);
            lemma_tag_mismatch(s, i, "year"@, 0);
            lemma_tag_mismatch(s, i, "this month"@, 0);
            lemma_tag_mismatch(s, i, "next month"@, 0);
            lemma_tag_mismatch(s, i, "last month"@, 0);
            lemma_tag_mismatch(s, i, "in"@, 0);
            lemma_tag_mismatch(s, i, "one"@, 0);
            lemma_tag_mismatch(s, i, "two"@, 0);
            lemma_tag_mismatch(s, i, "three"@, 0);
            lemma_tag_mismatch(s, i, "four"@, 1);
            lemma_tag_mismatch(s, i, "five"@, 1);
            lemma_tag_mismatch(s, i, "six"@, 0);
            lemma_tag_mismatch(s, i, "seven"@, 0);
            lemma_tag_mismatch(s, i, "eight"@, 0);
            lemma_tag_mismatch(s, i, "nine"@, 0);
            lemma_tag_mismatch(s, i, "ten"@, 0);
            lemma_tag_mismatch(s, i, "eleven"@, 0);
            lemma_tag_mismatch(s, i, "twelve"@, 0);
            lemma_tag_mismatch(s, i, "a"@, 0);
            assert(digits_end(s, i) == i);
        },
        Month::March => {
            assert(s[i + 0] == month_word(mo)[0]);
            assert(s[i + 1] == month_word(mo)[1]);
            assert(s[i + 2] == month_word(mo)[2]);
            assert(s[i + 3] == month_word(mo)[3]);
            assert(s[i + 4] == month_word(mo)[4]);
            assert(tag_at(s, i, "march"@));
            lemma_tag_mismatch(s, i, "january"@, 0);
            lemma_tag_mismatch(s, i, "february"@, 0);
            lemma_tag_mismatch(s, i, "day"@, 0);
            lemma_tag_mismatch(s, i, "week"@, 0);
            lemma_tag_mismatch(s, i, "month"@, 1);
            lemma_tag_mismatch(s, i, "year"@, 0);
            lemma_tag_mismatch(s, i, "this month"@, 0);
            lemma_tag_mismatch(s, i, "next month"@, 0);
            lemma_tag_mismatch(s, i, "last month"@, 0);
            lemma_tag_mismatch(s, i, "in"@, 0);
            lemma_tag_mismatch(s, i, "one"@, 0);
            lemma_tag_mismatch(s, i, "two"@, 0);
            lemma_tag_mismatch(s, i, "three"@, 0);
            lemma_tag_mismatch(s, i, "four"@, 0);
            lemma_tag_mismatch(s, i, "five"@, 0);
            lemma_tag_mismatch(s, i, "six"@, 0);
            lemma_tag_mismatch(s, i, "seven"@, 0);
            lemma_tag_mismatch(s, i, "eight"@, 0);
            lemma_tag_mismatch(s, i, "nine"@, 0);
            lemma_tag_mismatch(s, i, "ten"@, 0);
            lemma_tag_mismatch(s, i, "eleven"@, 0);
            lemma_tag_mismatch(s, i, "twelve"@, 0);
            lemma_tag_mismatch(s, i, "a"@, 0);
            assert(digits_end(s, i) == i);
        },
        Month::April => {
            assert(s[i + 0] == month_word(mo)[0]);
            assert(s[i + 1] == month_word(mo)[1]);
            assert(s[i + 2] == month_word(mo)[2]);
            assert(s[i + 3] == month_word(mo)[3]);
            assert(s[i + 4] == month_word(mo)[4]);
            assert(tag_at(s, i, "april"@));
            lemma_tag_mismatch(s, i, "january"@, 0);
            lemma_tag_mismatch(s, i, "february"@, 0);
            lemma_tag_mismatch(s, i, "march"@, 0);
            lemma_tag_mismatch(s, i, "day"@, 0);
            lemma_tag_mismatch(s, i, "week"@, 0);
            lemma_tag_mismatch(s, i, "month"@, 0);
            lemma_tag_mismatch(s, i, "year"@, 0);
            lemma_tag_mismatch(s, i, "this month"@, 0);
            lemma_tag_mismatch(s, i, "next month"@, 0);
            lemma_tag_mismatch(s, i, "last month"@, 0);
            lemma_tag_mismatch(s, i, "in"@, 0);
            lemma_tag_mismatch(s, i, "one"@, 0);
            lemma_tag_mismatch(s, i, "two"@, 0);
            lemma_tag_mismatch(s, i, "three"@, 0);
            lemma_tag_mismatch(s, i, "four"@, 0);
            lemma_tag_mismatch(s, i, "five"@, 0);
            lemma_tag_mismatch(s, i, "six"@, 0);
            lemma_tag_mismatch(s, i, "seven"@, 0);
            lemma_tag_mismatch(s, i, "eight"@, 0);
            lemma_tag_mismatch(s, i, "nine"@, 0);
            lemma_tag_mismatch(s, i, "ten"@, 0);
            lemma_tag_mismatch(s, i, "eleven"@, 0);
            lemma_tag_mismatch(s, i, "twelve"@, 0);
            assert(tag(s, i, "a"@) == Some(i + 1));
            assert(spaces_end(s, i + 1) == i + 1);
            assert(digits_end(s, i) == i);
        },
        Month::May => {
            assert(s[i + 0] == month_word(mo)[0]);
            assert(s[i + 1] == month_word(mo)[1]);
            assert(s[i + 2] == month_word(mo)[2]);
            assert(tag_at(s, i, "may"@));
            lemma_tag_mismatch(s, i, "january"@, 0);
            lemma_tag_mismatch(s, i, "february"@, 0);
            lemma_tag_mismatch(s, i, "march"@, 2);
            lemma_tag_mismatch(s, i, "april"@, 0);
            lemma_tag_mismatch(s, i, "day"@, 0);
            lemma_tag_mismatch(s, i, "week"@, 0);
            lemma_tag_mismatch(s, i, "month"@, 1);
            lemma_tag_mismatch(s, i, "year"@, 0);
            lemma_tag_mismatch(s, i, "this month"@, 0);
            lemma_tag_mismatch(s, i, "next month"@, 0);
            lemma_tag_mismatch(s, i, "last month"@, 0);
            lemma_tag_mismatch(s, i, "in"@, 0);
            lemma_tag_mismatch(s, i, "one"@, 0);
            lemma_tag_mismatch(s, i, "two"@, 0);
            lemma_tag_mismatch(s, i, "three"@, 0);
            lemma_tag_mismatch(s, i, "four"@, 0);
            lemma_tag_mismatch(s, i, "five"@, 0);
            lemma_tag_mismatch(s, i, "six"@, 0);
            lemma_tag_mismatch(s, i, "seven"@, 0);
            lemma_tag_mismatch(s, i, "eight"@, 0);
            lemma_tag_mismatch(s, i, "nine"@, 0);
            lemma_tag_mismatch(s, i, "ten"@, 0);
            lemma_tag_mismatch(s, i, "eleven"@, 0);
            lemma_tag_mismatch(s, i, "twelve"@, 0);
            lemma_tag_mismatch(s, i, "a"@, 0);
            assert(digits_end(s, i) == i);
        },
        Month::June => {
            assert(s[i + 0] == month_word(mo)[0]);
            assert(s[i + 1] == month_word(mo)[1]);
            assert(s[i + 2] == month_word(mo)[2]);
            assert(s[i + 3] == month_word(mo)[3]);
            assert(tag_at(s, i, "june"@));
            lemma_tag_mismatch(s, i, "january"@, 1);
            lemma_tag_mismatch(s, i, "february"@, 0);
            lemma_tag_mismatch(s, i, "march"@, 0);
            lemma_tag_mismatch(s, i, "april"@, 0);
            lemma_tag_mismatch(s, i, "may"@, 0);
            lemma_tag_mismatch(s, i, "day"@, 0);
            lemma_tag_mismatch(s, i, "week"@, 0);
            lemma_tag_mismatch(s, i, "month"@, 0);
            lemma_tag_mismatch(s, i, "year"@, 0);
            lemma_tag_mismatch(s, i, "this month"@, 0);
            lemma_tag_mismatch(s, i, "next month"@, 0);
            lemma_tag_mismatch(s, i, "last month"@, 0);
            lemma_tag_mismatch(s, i, "in"@, 0);
            lemma_tag_mismatch(s, i, "one"@, 0);
            lemma_tag_mismatch(s, i, "two"@, 0);
            lemma_tag_mismatch(s, i, "three"@, 0);
            lemma_tag_mismatch(s, i, "four"@, 0);
            lemma_tag_mismatch(s, i, "five"@, 0);
            lemma_tag_mismatch(s, i, "six"@, 0);
            lemma_tag_mismatch(s, i, "seven"@, 0);
            lemma_tag_mismatch(s, i, "eight"@, 0);
            lemma_tag_mismatch(s, i, "nine"@, 0);
            lemma_tag_mismatch(s, i, "ten"@, 0);
            lemma_tag_mismatch(s, i, "eleven"@, 0);
            lemma_tag_mismatch(s, i, "twelve"@, 0);
            lemma_tag_mismatch(s, i, "a"@, 0);
            assert(digits_end(s, i) == i);
        },
        Month::July => {
            assert(s[i + 0] == month_word(mo)[0]);
            assert(s[i + 1] == month_word(mo)[1]);
            assert(s[i + 2] == month_word(mo)[2]);
            assert(s[i + 3] == month_word(mo)[3]);
            assert(tag_at(s, i, "july"@));
            lemma_tag_mismatch(s, i, "january"@, 1);
            lemma_tag_mismatch(s, i, "february"@, 0);
            lemma_tag_mismatch(s, i, "march"@, 0);
            lemma_tag_mismatch(s, i, "april"@, 0);
            lemma_tag_mismatch(s, i, "may"@, 0);
            lemma_tag_mismatch(s, i, "june"@, 2);
            lemma_tag_mismatch(s, i, "day"@, 0);
            lemma_tag_mismatch(s, i, "week"@, 0);
            lemma_tag_mismatch(s, i, "month"@, 0);
            lemma_tag_mismatch(s, i, "year"@, 0);
            lemma_tag_mismatch(s, i, "this month"@, 0);
            lemma_tag_mismatch(s, i, "next month"@, 0);
            lemma_tag_mismatch(s, i, "last month"@, 0);
            lemma_tag_mismatch(s, i, "in"@, 0);
            lemma_tag_mismatch(s, i, "one"@, 0);
            lemma_tag_mismatch(s, i, "two"@, 0);
            lemma_tag_mismatch(s, i, "three"@, 0);
            lemma_tag_mismatch(s, i, "four"@, 0);
            lemma_tag_mismatch(s, i, "five"@, 0);
            lemma_tag_mismatch(s, i, "six"@, 0);
            lemma_tag_mismatch(s, i, "seven"@, 0);
            lemma_tag_mismatch(s, i, "eight"@, 0);
            lemma_tag_mismatch(s, i, "nine"@, 0);
            lemma_tag_mismatch(s, i, "ten"@, 0);
            lemma_tag_mismatch(s, i, "eleven"@, 0);
            lemma_tag_mismatch(s, i, "twelve"@, 0);
            lemma_tag_mismatch(s, i, "a"@, 0);
            assert(digits_end(s, i) == i);
        },
        Month::August => {
            assert(s[i + 0] == month_word(mo)[0]);
            assert(s[i + 1] == month_word(mo)[1]);
            assert(s[i + 2] == month_word(mo)[2]);
            assert(s[i + 3] == month_word(mo)[3]);
            assert(s[i + 4] == month_word(mo)[4]);
            assert(s[i + 5] == month_word(mo)[5]);
            assert(tag_at(s, i, "august"@));
            lemma_tag_mismatch(s, i, "january"@, 0);
            lemma_tag_mismatch(s, i, "february"@, 0);
            lemma_tag_mismatch(s, i, "march"@, 0);
            lemma_tag_mismatch(s, i, "april"@, 1);
            lemma_tag_mismatch(s, i, "may"@, 0);
            lemma_tag_mismatch(s, i, "june"@, 0);
            lemma_tag_mismatch(s, i, "july"@, 0);
            lemma_tag_mismatch(s, i, "day"@, 0);
            lemma_tag_mismatch(s, i, "week"@, 0);
            lemma_tag_mismatch(s, i, "month"@, 0);
            lemma_tag_mismatch(s, i, "year"@, 0);
            lemma_tag_mismatch(s, i, "this month"@, 0);
            lemma_tag_mismatch(s, i, "next month"@, 0);
            lemma_tag_mismatch(s, i, "last month"@, 0);
            lemma_tag_mismatch(s, i, "in"@, 0);
            lemma_tag_mismatch(s, i, "one"@, 0);
            lemma_tag_mismatch(s, i, "two"@, 0);
            lemma_tag_mismatch(s, i, "three"@, 0);
            lemma_tag_mismatch(s, i, "four"@, 0);
            lemma_tag_mismatch(s, i, "five"@, 0);
            lemma_tag_mismatch(s, i, "six"@, 0);
            lemma_tag_mismatch(s, i, "seven"@, 0);
            lemma_tag_mismatch(s, i, "eight"@, 0);
            lemma_tag_mismatch(s, i, "nine"@, 0);
            lemma_tag_mismatch(s, i, "ten"@, 0);
            lemma_tag_mismatch(s, i, "eleven"@, 0);
            lemma_tag_mismatch(s, i, "twelve"@, 0);
            assert(tag(s, i, "a"@) == Some(i + 1));
            assert(spaces_end(s, i + 1) == i + 1);
            assert(digits_end(s, i) == i);
        },
        Month::September => {
            assert(s[i + 0] == month_word(mo)[0]);
            assert(s[i + 1] == month_word(mo)[1]);
            assert(s[i + 2] == month_word(mo)[2]);
            assert(s[i + 3] == month_word(mo)[3]);
            assert(s[i + 4] == month_word(mo)[4]);
            assert(s[i + 5] == month_word(mo)[5]);
            assert(s[i + 6] == month_word(mo)[6]);
            assert(s[i + 7] == month_word(mo)[7]);
            assert(s[i + 8] == month_word(mo)[8]);
            assert(tag_at(s, i, "september"@));
            lemma_tag_mismatch(s, i, "january"@, 0);
            lemma_tag_mismatch(s, i, "february"@, 0);
            lemma_tag_mismatch(s, i, "march"@, 0);
            lemma_tag_mismatch(s, i, "april"@, 0);
            lemma_tag_mismatch(s, i, "may"@, 0);
            lemma_tag_mismatch(s, i, "june"@, 0);
            lemma_tag_mismatch(s, i, "july"@, 0);
            lemma_tag_mismatch(s, i, "august"@, 0);
            lemma_tag_mismatch(s, i, "day"@, 0);
            lemma_tag_mismatch(s, i, "week"@, 0);
            lemma_tag_mismatch(s, i, "month"@, 0);
            lemma_tag_mismatch(s, i, "year"@, 0);
            lemma_tag_mismatch(s, i, "this month"@, 0);
            lemma_tag_mismatch(s, i, "next month"@, 0);
            lemma_tag_mismatch(s, i, "last month"@, 0);
            lemma_tag_mismatch(s, i, "in"@, 0);
            lemma_tag_mismatch(s, i, "one"@, 0);
            lemma_tag_mismatch(s, i, "two"@, 0);
            lemma_tag_mismatch(s, i, "three"@, 0);
            lemma_tag_mismatch(s, i, "four"@, 0);
            lemma_tag_mismatch(s, i, "five"@, 0);
            lemma_tag_mismatch(s, i, "six"@, 1);
            lemma_tag_mismatch(s, i, "seven"@, 2);
            lemma_tag_mismatch(s, i, "eight"@, 0);
            lemma_tag_mismatch(s, i, "nine"@, 0);
            lemma_tag_mismatch(s, i, "ten"@, 0);
            lemma_tag_mismatch(s, i, "eleven"@, 0);
            lemma_tag_mismatch(s, i, "twelve"@, 0);
            lemma_tag_mismatch(s, i, "a"@, 0);
            assert(digits_end(s, i) == i);
        },
        Month::October => {
            assert(s[i + 0] == month_word(mo)[0]);
            assert(s[i + 1] == month_word(mo)[1]);
            assert(s[i + 2] == month_word(mo)[2]);
            assert(s[i + 3] == month_word(mo)[3]);
            assert(s[i + 4] == month_word(mo)[4]);
            assert(s[i + 5] == month_word(mo)[5]);
            assert(s[i + 6] == month_word(mo)[6]);
            assert(tag_at(s, i, "october"@));
            lemma_tag_mismatch(s, i, "january"@, 0);
            lemma_tag_mismatch(s, i, "february"@, 0);
            lemma_tag_mismatch(s, i, "march"@, 0);
            lemma_tag_mismatch(s, i, "april"@, 0);
            lemma_tag_mismatch(s, i, "may"@, 0);
            lemma_tag_mismatch(s, i, "june"@, 0);
            lemma_tag_mismatch(s, i, "july"@, 0);
            lemma_tag_mismatch(s, i, "august"@, 0);
            lemma_tag_mismatch(s, i, "september"@, 0);
            lemma_tag_mismatch(s, i, "day"@, 0);
            lemma_tag_mismatch(s, i, "week"@, 0);
            lemma_tag_mismatch(s, i, "month"@, 0);
            lemma_tag_mismatch(s, i, "year"@, 0);
            lemma_tag_mismatch(s, i, "this month"@, 0);
            lemma_tag_mismatch(s, i, "next month"@, 0);
            lemma_tag_mismatch(s, i, "last month"@, 0);
            lemma_tag_mismatch(s, i, "in"@, 0);
            lemma_tag_mismatch(s, i, "one"@, 1);
            lemma_tag_mismatch(s, i, "two"@, 0);
            lemma_tag_mismatch(s, i, "three"@, 0);
            lemma_tag_mismatch(s, i, "four"@, 0);
            lemma_tag_mismatch(s, i, "five"@, 0);
            lemma_tag_mismatch(s, i, "six"@, 0);
            lemma_tag_mismatch(s, i, "seven"@, 0);
            lemma_tag_mismatch(s, i, "eight"@, 0);
            lemma_tag_mismatch(s, i, "nine"@, 0);
            lemma_tag_mismatch(s, i, "ten"@, 0);
            lemma_tag_mismatch(s, i, "eleven"@, 0);
            lemma_tag_mismatch(s, i, "twelve"@, 0);
            lemma_tag_mismatch(s, i, "a"@, 0);
            assert(digits_end(s, i) == i);
        },
        Month::November => {
            assert(s[i + 0] == month_word(mo)[0]);
            assert(s[i + 1] == month_word(mo)[1]);
            assert(s[i + 2] == month_word(mo)[2]);
            assert(s[i + 3] == month_word(mo)[3]);
            assert(s[i + 4] == month_word(mo)[4]);
            assert(s[i + 5] == month_word(mo)[5]);
            assert(s[i + 6] == month_word(mo)[6]);
            assert(s[i + 7] == month_word(mo)[7]);
            assert(tag_at(s, i, "november"@));
            lemma_tag_mismatch(s, i, "january"@, 0);
            lemma_tag_mismatch(s, i, "february"@, 0);
            lemma_tag_mismatch(s, i, "march"@, 0);
            lemma_tag_mismatch(s, i, "april"@, 0);
            lemma_tag_mismatch(s, i, "may"@, 0);
            lemma_tag_mismatch(s, i, "june"@, 0);
            lemma_tag_mismatch(s, i, "july"@, 0);
            lemma_tag_mismatch(s, i, "august"@, 0);
            lemma_tag_mismatch(s, i, "september"@, 0);
            lemma_tag_mismatch(s, i, "october"@, 0);
            lemma_tag_mismatch(s, i, "day"@, 0);
            lemma_tag_mismatch(s, i, "week"@, 0);
            lemma_tag_mismatch(s, i, "month"@, 0);
            lemma_tag_mismatch(s, i, "year"@, 0);
            lemma_tag_mismatch(s, i, "this month"@, 0);
            lemma_tag_mismatch(s, i, "next month"@, 1);
            lemma_tag_mismatch(s, i, "last month"@, 0);
            lemma_tag_mismatch(s, i, "in"@, 0);
            lemma_tag_mismatch(s, i, "one"@, 0);
            lemma_tag_mismatch(s, i, "two"@, 0);
            lemma_tag_mismatch(s, i, "three"@, 0);
            lemma_tag_mismatch(s, i, "four"@, 0);
            lemma_tag_mismatch(s, i, "five"@, 0);
            lemma_tag_mismatch(s, i, "six"@, 0);
            lemma_tag_mismatch(s, i, "seven"@, 0);
            lemma_tag_mismatch(s, i, "eight"@, 0);
            lemma_tag_mismatch(s, i, "nine"@, 1);
            lemma_tag_mismatch(s, i, "ten"@, 0);
            lemma_tag_mismatch(s, i, "eleven"@, 0);
            lemma_tag_mismatch(s, i, "twelve"@, 0);
            lemma_tag_mismatch(s, i, "a"@, 0);
            assert(digits_end(s, i) == i);
        },
        Month::December => {
            assert(s[i + 0] == month_word(mo)[0]);
            assert(s[i + 1] == month_word(mo)[1]);
            assert(s[i + 2] == month_word(mo)[2]);
            assert(s[i + 3] == month_word(mo)[3]);
            assert(s[i + 4] == month_word(mo)[4]);
            assert(s[i + 5] == month_word(mo)[5]);
            assert(s[i + 6] == month_word(mo)[6]);
            assert(s[i + 7] == month_word(mo)[7]);
            assert(tag_at(s, i, "december"@));
            lemma_tag_mismatch(s, i, "january"@, 0);
            lemma_tag_mismatch(s, i, "february"@, 0);
            lemma_tag_mismatch(s, i, "march"@, 0);
            lemma_tag_mismatch(s, i, "april"@, 0);
            lemma_tag_mismatch(s, i, "may"@, 0);
            lemma_tag_mismatch(s, i, "june"@, 0);
            lemma_tag_mismatch(s, i, "july"@, 0);
            lemma_tag_mismatch(s, i, "august"@, 0);
            lemma_tag_mismatch(s, i, "september"@, 0);
            lemma_tag_mismatch(s, i, "october"@, 0);
            lemma_tag_mismatch(s, i, "november"@, 0);
            lemma_tag_mismatch(s, i, "day"@, 1);
            lemma_tag_mismatch(s, i, "week"@, 0);
            lemma_tag_mismatch(s, i, "month"@, 0);
            lemma_tag_mismatch(s, i, "year"@, 0);
            lemma_tag_mismatch(s, i, "this month"@, 0);
            lemma_tag_mismatch(s, i, "next month"@, 0);
            lemma_tag_mismatch(s, i, "last month"@, 0);
            lemma_tag_mismatch(s, i, "in"@, 0);
            lemma_tag_mismatch(s, i, "one"@, 0);
            lemma_tag_mismatch(s, i, "two"@, 0);
            lemma_tag_mismatch(s, i, "three"@, 0);
            lemma_tag_mismatch(s, i, "four"@, 0);
            lemma_tag_mismatch(s, i, "five"@, 0);
            lemma_tag_mismatch(s, i, "six"@, 0);
            lemma_tag_mismatch(s, i, "seven"@, 0);
            lemma_tag_mismatch(s, i, "eight"@, 0);
            lemma_tag_mismatch(s, i, "nine"@, 0);
            lemma_tag_mismatch(s, i, "ten"@, 0);
            lemma_tag_mismatch(s, i, "eleven"@, 0);
            lemma_tag_mismatch(s, i, "twelve"@, 0);
            lemma_tag_mismatch(s, i, "a"@, 0);
            assert(digits_end(s, i) == i);
        },
    }
}

/// Nothing but a number reads a text that starts with a digit.
proof fn lemma_digit_start(s: Seq<char>)
    requires
        0 < s.len(),
        is_digit(s[0]),
    ensures
        month(s, 0) is None,
        interval_literal(s, 0) is None,
        weekday(s, 0) is None,
        direction(s, 0) is None,
        tag(s, 0, "a"@) is None,
        tag(s, 0, "in"@) is None,
{
    lemma_lower_char(s[0]);
    assert(lower(s[0int + 0int]) == s[0]);
    reveal_strlit("january");
    lemma_tag_mismatch(s, 0, "january"@, 0);
    reveal_strlit("february");
    lemma_tag_mismatch(s, 0, "february"@, 0);
    reveal_strlit("march");
    lemma_tag_mismatch(s, 0, "march"@, 0);
    reveal_strlit("april");
    lemma_tag_mismatch(s, 0, "april"@, 0);
    reveal_strlit("may");
    lemma_tag_mismatch(s, 0, "may"@, 0);
    reveal_strlit("june");
    lemma_tag_mismatch(s, 0, "june"@, 0);
    reveal_strlit("july");
    lemma_tag_mismatch(s, 0, "july"@, 0);
    reveal_strlit("august");
    lemma_tag_mismatch(s, 0, "august"@, 0);
    reveal_strlit("september");
    lemma_tag_mismatch(s, 0, "september"@, 0);
    reveal_strlit("october");
    lemma_tag_mismatch(s, 0, "october"@, 0);
    reveal_strlit("november");
    lemma_tag_mismatch(s, 0, "november"@, 0);
    reveal_strlit("december");
    lemma_tag_mismatch(s, 0, "december"@, 0);
    reveal_strlit("today");
    lemma_tag_mismatch(s, 0, "today"@, 0);
    reveal_strlit("tomorrow");
    lemma_tag_mismatch(s, 0, "tomorrow"@, 0);
    reveal_strlit("yesterday");
    lemma_tag_mismatch(s, 0, "yesterday"@, 0);
    reveal_strlit("next");
    lemma_tag_mismatch(s, 0, "next"@, 0);
    reveal_strlit("last");
    lemma_tag_mismatch(s, 0, "last"@, 0);
    reveal_strlit("a");
    lemma_tag_mismatch(s, 0, "a"@, 0);
    reveal_strlit("in");
    lemma_tag_mismatch(s, 0, "in"@, 0);
    reveal_strlit("monday");
    lemma_tag_mismatch(s, 0, "monday"@, 0);
    reveal_strlit("mon");
    lemma_tag_mismatch(s, 0, "mon"@, 0);
    reveal_strlit("tuesday");
    lemma_tag_mismatch(s, 0, "tuesday"@, 0);
    reveal_strlit("tue");
    lemma_tag_mismatch(s, 0, "tue"@, 0);
    reveal_strlit("wednesday");
    lemma_tag_mismatch(s, 0, "wednesday"@, 0);
    reveal_strlit("wed");
    lemma_tag_mismatch(s, 0, "wed"@, 0);
    reveal_strlit("thursday");
    lemma_tag_mismatch(s, 0, "thursday"@, 0);
    reveal_strlit("thu");
    lemma_tag_mismatch(s, 0, "thu"@, 0);
    reveal_strlit("friday");
    lemma_tag_mismatch(s, 0, "friday"@, 0);
    reveal_strlit("fri");
    lemma_tag_mismatch(s, 0, "fri"@, 0);
    reveal_strlit("saturday");
    lemma_tag_mismatch(s, 0, "saturday"@, 0);
    reveal_strlit("sat");
    lemma_tag_mismatch(s, 0, "sat"@, 0);
    reveal_strlit("sunday");
    lemma_tag_mismatch(s, 0, "sunday"@, 0);
    reveal_strlit("sun");
    lemma_tag_mismatch(s, 0, "sun"@, 0);
}

proof fn lemma_partial_text(d: int, mo: Month)
    ensures
        ({
            let s: Seq<char> = partial_text(d, mo);
            let w: Seq<char> = month_word(mo);
            &&& s.len() == 3 + w.len()
            &&& s[0] == digit(d / 10)
            &&& s[1] == digit(d % 10)
            &&& s[2] == ' '
            &&& forall|k: int| 0 <= k < w.len() ==> s[3 + k] == #[trigger] w[k]
        }),
{
    let w: Seq<char> = month_word(mo);
    let a: Seq<char> = two_digits(d) + seq![' '];
    let s: Seq<char> = a + w;
    assert(s == partial_text(d, mo));
    assert(a[0] == digit(d / 10) && a[1] == digit(d % 10) && a[2] == ' ');
    assert(s[0] == a[0] && s[1] == a[1] && s[2] == a[2]);
    assert forall|k: int| 0 <= k < w.len() implies s[3 + k] == #[trigger] w[k] by {}
}

/// The day in two digits, then a space, then a word.
proof fn lemma_day_then_word(s: Seq<char>, d: int)
    requires
        1 <= d <= 31,
        s.len() > 3,
        s[0] == digit(d / 10),
        s[1] == digit(d % 10),
        s[2] == ' ',
        !is_space(s[3]),
    ensures
        uint(s, 0) == Some((2int, d as u32)),
        number_with_suffix(s, 0) == Some((2int, d as u32)),
        ordinal_day(s, 0) == Some((2int, d as u32)),
        space1(s, 2) == Some(3int),
        exact(s, 2, '-') is None,
        exact(s, 2, '/') is None,
        is_digit(s[0]),
{
    lemma_digit(d / 10);
    lemma_two_digits_at(s, 0, d);
    reveal_strlit("st");
    reveal_strlit("nd");
    reveal_strlit("rd");
    reveal_strlit("th");
    assert(lower(s[2int + 0int]) == ' ');
    lemma_tag_mismatch(s, 2, "st"@, 0);
    lemma_tag_mismatch(s, 2, "nd"@, 0);
    lemma_tag_mismatch(s, 2, "rd"@, 0);
    lemma_tag_mismatch(s, 2, "th"@, 0);
    assert(ordinal_suffix(s, 2) is None);
    assert(spaces_end(s, 3) == 3);
    assert(spaces_end(s, 2) == 3);
}

/// A day of the month and a month's name, with nothing after them: no form
/// before the partial date reads it.
proof fn lemma_partial_text_forms(s: Seq<char>, d: int, mo: Month)
    requires
        1 <= d <= 31,
        uint(s, 0) == Some((2int, d as u32)),
        number_with_suffix(s, 0) == Some((2int, d as u32)),
        ordinal_day(s, 0) == Some((2int, d as u32)),
        space1(s, 2) == Some(3int),
        exact(s, 2, '-') is None,
        exact(s, 2, '/') is None,
        month(s, 0) is None,
        interval_literal(s, 0) is None,
        weekday(s, 0) is None,
        direction(s, 0) is None,
        tag(s, 0, "a"@) is None,
        tag(s, 0, "in"@) is None,
        month(s, 3) == Some((s.len() as int, mo)),
        interval_unit(s, 3) is None,
        tag(s, 3, "this month"@) is None,
        tag(s, 3, "next month"@) is None,
        tag(s, 3, "last month"@) is None,
        value_then_space(s, 3) == (3int, None::<u32>),
        in_then_space(s, 3) == (3int, false),
    ensures
        first_form(s) == Some(
            (
                s.len() as int,
                FdateExpression::RelativePartialDate(
                    RelativePartialDate { direction: None, day: d as u32, month: mo },
                ),
            ),
        ),
{
    let e: int = s.len() as int;
    assert(spaces_end(s, e) == e);
    assert(space1(s, e) is None);
    assert(three_numbers(s, 0, '-') is None);
    assert(three_numbers(s, 0, '/') is None);
    assert(absolute(s, 0) is None) by {
        assert(date_iso(s, 0) is None);
        assert(date_freedom_units(s, 0) is None);
        assert(date_day_month_year(s, 0) is None);
        assert(date_month_day_year(s, 0) is None);
    }
    assert(interval_value(s, 0) == Some((2int, d as u32)));
    assert(value_then_space(s, 0) == (3int, Some(d as u32)));
    assert(in_then_space(s, 0) == (0int, false));
    assert(relative_interval(s, 0) is None) by {
        assert(interval_past(s, 0) is None);
        assert(interval_future(s, 0, false) is None);
    }
    assert(partial_date_body(s, 0) == Some((e, (d as u32, mo))));
    assert(relative_interval_date(s, 0) is None) by {
        assert(weekday_target(s, 0) is None);
        assert(week_interval_weekday(s, 0) is None);
        assert(non_literal_interval(s, 3, true) is None) by {
            assert(interval_past(s, 3) is None);
            assert(interval_future(s, 3, true) is None);
        }
        assert(relative_period(s, 3, "this month"@, "next month"@, "last month"@, crate::parser::syntax::common::IntervalUnit::Month) is None);
        assert(month_interval_day_of_month(s, 0) is None);
        assert(year_interval_day_of_year(s, 0) is None);
    }
    assert(direction_then_space(s, 0) == (0int, None::<RelativeDirection>));
    assert(relative_weekday(s, 0) is None);
}

/// A day of the month from 1 to 31 followed by a month's name (`14 april`)
/// reads as that day of that month, with no `next` or `last`.
#[verifier::spinoff_prover]
pub proof fn law_partial_dates_read_back(d: int, mo: Month)
    requires
        1 <= d <= 31,
    ensures
        expression(partial_text(d, mo)) == Some(
            FdateExpression::RelativePartialDate(
                RelativePartialDate { direction: None, day: d as u32, month: mo },
            ),
        ),
{
    let s: Seq<char> = partial_text(d, mo);
    lemma_partial_text(d, mo);
    lemma_month_word_at(s, 3, mo);
    lemma_day_then_word(s, d);
    lemma_digit_start(s);
    lemma_partial_text_forms(s, d, mo);
}

} // verus!

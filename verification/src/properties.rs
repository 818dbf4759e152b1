//! What the parser promises of every input: how far relative expressions
//! land from today, which weekday or day of the month they land on, how the
//! settings switch between closest occurrences and calendar periods, and that
//! every date it gives exists.
use vstd::prelude::*;

pub mod ordinals;
pub mod partial_dates;
pub mod written_dates;
pub mod written_intervals;

use crate::calendar::{
    add_months_ymd, date_of_day, day_in_range, day_number, days_in_month, lemma_date_of_day,
    lemma_date_of_day_number, lemma_date_value_view, valid_ymd, weekday_number, year_in_range,
    ymd_before, Month, Weekday, Ymd,
};
use crate::parser::config::ParserConfig;
use crate::parser::syntax::absolute::{
    absolute, date_day_month_year, date_freedom_units, date_iso, date_month_day_year, date_of,
    three_numbers, year,
};
use crate::parser::syntax::common::{
    direction, direction_then_space, interval_unit, month, number_with_suffix, ordinal_day,
    ordinal_suffix, weekday, weekday_name, IntervalUnit, RelativeDirection,
};
use crate::parser::syntax::day_of_month::{month_follows, relative_day_of_month, RelativeDayOfMonth};
use crate::parser::syntax::interval::{
    in_then_space, interval_future, interval_literal, interval_past, interval_value,
    non_literal_interval, number_word, plural, relative_interval, value_then_space,
    RelativeInterval,
};
use crate::parser::syntax::partial_date::{
    month_first_body, partial_date_body, relative_partial_date, RelativePartialDate,
};
use crate::parser::syntax::relative_interval_date::{
    day_of_month_target, day_of_year_target, relative_interval_date, relative_period,
    weekday_target, with_period, RelativeIntervalDate, RelativeIntervalDateSpec,
};
use crate::parser::syntax::relative_weekday::{relative_weekday, RelativeWeekday};
use crate::parser::syntax::{expression, first_form, FdateExpression};
use crate::parser::{
    closest_future_day, closest_future_partial, closest_past_day, closest_past_partial,
    day_in_month, future_weekday_offset, parse_result, past_weekday_offset,
    relative_day_of_month_value, relative_interval_date_value, relative_interval_value,
    relative_partial_date_value, relative_weekday_value, resolve, shift_days, shift_months,
    today_weekday, weekday_in_week, weekday_index_of,
};
use crate::text::{digits_end, digits_value, exact, is_digit, is_space, lower, space1, spaces_end, tag, tag_at, uint};
use crate::util::clamp_ymd;

verus! {

proof fn lemma_div_12(t: int)
    ensures
        t == 12 * (t / 12) + t % 12,
        0 <= t % 12 < 12,
{
    vstd::arithmetic::div_mod::lemma_fundamental_div_mod(t, 12);
}

proof fn lemma_add_months_zero(v: Ymd)
    requires
        valid_ymd(v),
    ensures
        add_months_ymd(v, 0) == v,
{
    let t: int = v.0 * 12 + (v.1 - 1);
    vstd::arithmetic::div_mod::lemma_fundamental_div_mod_converse(t, 12, v.0, v.1 - 1);
}

/// `today`, `in 0 days`, `0 weeks ago`, `in 0 months`, `0 years ago` and the
/// like are all today.
pub proof fn law_zero_interval_is_today(
    cfg: ParserConfig,
    direction: RelativeDirection,
    unit: IntervalUnit,
)
    requires
        cfg.today.wf(),
    ensures
        relative_interval_value(cfg, direction, 0, unit) == Ok::<Ymd, crate::calendar::OutOfBounds>(
            cfg.today@,
        ),
{
    lemma_date_of_day_number(cfg.today@);
    lemma_add_months_zero(cfg.today@);
}

/// `in N days` lands exactly N days after today and `N days ago` N days
/// before it; weeks count seven days each.
pub proof fn law_day_and_week_intervals(
    cfg: ParserConfig,
    direction: RelativeDirection,
    distance: u32,
    unit: IntervalUnit,
)
    requires
        cfg.today.wf(),
        unit == IntervalUnit::Day || unit == IntervalUnit::Week,
        relative_interval_value(cfg, direction, distance, unit) is Ok,
    ensures
        ({
            let v: Ymd = relative_interval_value(cfg, direction, distance, unit)->Ok_0;
            let step: int = if unit == IntervalUnit::Day {
                distance as int
            } else {
                7 * distance
            };
            &&& valid_ymd(v)
            &&& direction == RelativeDirection::Future ==> day_number(v) == day_number(cfg.today@)
                + step
            &&& direction == RelativeDirection::Past ==> day_number(v) == day_number(cfg.today@)
                - step
        }),
{
    let n: int = match direction {
        RelativeDirection::Future => distance as int,
        RelativeDirection::Past => -(distance as int),
    };
    if unit == IntervalUnit::Day {
        lemma_date_of_day(day_number(cfg.today@) + n);
    } else {
        lemma_date_of_day(day_number(cfg.today@) + 7 * n);
    }
}

/// `in N months` (and years, as twelve months each) keeps the calendar day:
/// it lands in the month N months away, on the same day, or on that month's
/// last day when the month is shorter; it never spills into the month after.
pub proof fn law_month_and_year_intervals_keep_the_day(
    cfg: ParserConfig,
    direction: RelativeDirection,
    distance: u32,
    unit: IntervalUnit,
)
    requires
        cfg.today.wf(),
        unit == IntervalUnit::Month || unit == IntervalUnit::Year,
        relative_interval_value(cfg, direction, distance, unit) is Ok,
    ensures
        ({
            let t: Ymd = cfg.today@;
            let v: Ymd = relative_interval_value(cfg, direction, distance, unit)->Ok_0;
            let months: int = if unit == IntervalUnit::Month {
                distance as int
            } else {
                12 * distance
            };
            let n: int = if direction == RelativeDirection::Future {
                months
            } else {
                -months
            };
            &&& valid_ymd(v)
            &&& v.0 * 12 + v.1 == t.0 * 12 + t.1 + n
            &&& v.2 == if t.2 <= days_in_month(v.0, v.1) {
                t.2
            } else {
                days_in_month(v.0, v.1)
            }
        }),
{
    let t: Ymd = cfg.today@;
    let n: int = match direction {
        RelativeDirection::Future => distance as int,
        RelativeDirection::Past => -(distance as int),
    };
    if unit == IntervalUnit::Month {
        lemma_div_12(t.0 * 12 + (t.1 - 1) + n);
    } else {
        lemma_div_12(t.0 * 12 + (t.1 - 1) + 12 * n);
    }
}

/// Days forward from the weekday numbered `from` to the next weekday numbered
/// `to` (numbers from Monday = 0): 1 to 7, and 7 when they are the same.
pub open spec fn weekday_gap(from: int, to: int) -> int {
    let d: int = (to - from) % 7;
    if d == 0 {
        7
    } else {
        d
    }
}

/// The weekday of a triple, from its day number.
pub open spec fn weekday_of(v: Ymd) -> Weekday {
    Weekday::with_monday_index(weekday_number(v))
}

proof fn lemma_weekday_roundtrip(w: Weekday)
    ensures
        Weekday::with_monday_index(w.monday_index()) == w,
        0 <= w.monday_index() < 7,
        forall|x: int|
            0 <= x < 7 ==> (Weekday::with_monday_index(x) == w <==> x == w.monday_index()),
{
}

proof fn lemma_offsets(cfg: ParserConfig, w: Weekday)
    ensures
        future_weekday_offset(cfg, w) == weekday_gap(weekday_number(cfg.today@), w.monday_index()),
        past_weekday_offset(cfg, w) == weekday_gap(w.monday_index(), weekday_number(cfg.today@)),
{
    let x: int = weekday_number(cfg.today@);
    assert(0 <= x < 7);
    assert(today_weekday(cfg).monday_index() == x);
    lemma_weekday_roundtrip(w);
}

/// Weekday numbers advance by one a day.
proof fn lemma_weekday_number_shift(v: Ymd, g: int)
    requires
        valid_ymd(v),
        day_in_range(day_number(v) + g),
    ensures
        valid_ymd(date_of_day(day_number(v) + g)),
        day_number(date_of_day(day_number(v) + g)) == day_number(v) + g,
        weekday_number(date_of_day(day_number(v) + g)) == (weekday_number(v) + g) % 7,
{
    lemma_date_of_day(day_number(v) + g);
    let a: int = day_number(v) - 1;
    vstd::arithmetic::div_mod::lemma_fundamental_div_mod(a, 7);
    let q: int = a / 7;
    vstd::arithmetic::div_mod::lemma_mod_multiples_vanish(q, a % 7 + g, 7);
    assert(a + g == 7 * q + (a % 7 + g));
}

/// The closest future and past weekday offsets do not depend on which day
/// starts the week.
pub proof fn law_closest_weekday_ignores_week_start(cfg1: ParserConfig, cfg2: ParserConfig, w: Weekday)
    requires
        cfg1.today == cfg2.today,
    ensures
        future_weekday_offset(cfg1, w) == future_weekday_offset(cfg2, w),
        past_weekday_offset(cfg1, w) == past_weekday_offset(cfg2, w),
{
    lemma_offsets(cfg1, w);
    lemma_offsets(cfg2, w);
}

/// A bare weekday, and `next` with the default setting, is the closest such
/// weekday after today: 1 to 7 days ahead, 7 exactly when today is that
/// weekday. `last` with the default setting is the closest one before today.
pub proof fn law_closest_weekday(cfg: ParserConfig, direction: Option<RelativeDirection>, w: Weekday)
    requires
        cfg.today.wf(),
        relative_weekday_value(cfg, direction, w) is Ok,
        direction == Some(RelativeDirection::Future) ==> !cfg.next_weekday_means_week,
        direction == Some(RelativeDirection::Past) ==> !cfg.last_weekday_means_week,
    ensures
        ({
            let t: Ymd = cfg.today@;
            let v: Ymd = relative_weekday_value(cfg, direction, w)->Ok_0;
            &&& valid_ymd(v)
            &&& weekday_of(v) == w
            &&& direction != Some(RelativeDirection::Past) ==> {
                &&& 1 <= day_number(v) - day_number(t) <= 7
                &&& day_number(v) - day_number(t) == 7 <==> weekday_of(t) == w
            }
            &&& direction == Some(RelativeDirection::Past) ==> {
                &&& 1 <= day_number(t) - day_number(v) <= 7
                &&& day_number(t) - day_number(v) == 7 <==> weekday_of(t) == w
            }
        }),
{
    let t: Ymd = cfg.today@;
    let x: int = weekday_number(t);
    let m: int = w.monday_index();
    lemma_offsets(cfg, w);
    lemma_weekday_roundtrip(w);
    lemma_gap(x, m);
    assert(0 <= x < 7);
    if direction == Some(RelativeDirection::Past) {
        let g: int = -past_weekday_offset(cfg, w);
        assert(relative_weekday_value(cfg, direction, w) == shift_days(t, g));
        lemma_weekday_number_shift(t, g);
    } else {
        let g: int = future_weekday_offset(cfg, w);
        assert(relative_weekday_value(cfg, direction, w) == shift_days(t, g));
        lemma_weekday_number_shift(t, g);
    }
}

proof fn lemma_gap(x: int, m: int)
    requires
        0 <= x < 7,
        0 <= m < 7,
    ensures
        1 <= weekday_gap(x, m) <= 7,
        (x + weekday_gap(x, m)) % 7 == m,
        weekday_gap(x, m) == 7 <==> x == m,
        1 <= weekday_gap(m, x) <= 7,
        (x - weekday_gap(m, x)) % 7 == m,
        weekday_gap(m, x) == 7 <==> x == m,
{
}

/// Weekday `w` of the week `k` weeks from the current one: it is `w`, and it
/// lies in the week that starts `7 * k` days after the start of the current
/// week, whatever day today is.
pub proof fn law_weekday_in_relative_week(cfg: ParserConfig, w: Weekday, k: int)
    requires
        cfg.today.wf(),
        weekday_in_week(cfg, w, k) is Ok,
    ensures
        ({
            let t: Ymd = cfg.today@;
            let v: Ymd = weekday_in_week(cfg, w, k)->Ok_0;
            &&& valid_ymd(v)
            &&& weekday_of(v) == w
            &&& day_number(v) - weekday_index_of(cfg, w) == day_number(t) - weekday_index_of(
                cfg,
                today_weekday(cfg),
            ) + 7 * k
        }),
{
    let t: Ymd = cfg.today@;
    let it: int = weekday_index_of(cfg, today_weekday(cfg));
    let iw: int = weekday_index_of(cfg, w);
    lemma_week_indices(cfg, w);
    lemma_date_of_day(day_number(t) - it);
    let start: Ymd = date_of_day(day_number(t) - it);
    assert(shift_days(t, -it) == Ok::<Ymd, crate::calendar::OutOfBounds>(start));
    lemma_date_of_day(day_number(start) + 7 * k);
    let target_start: Ymd = date_of_day(day_number(start) + 7 * k);
    assert(shift_days(start, 7 * k) == Ok::<Ymd, crate::calendar::OutOfBounds>(target_start));
    lemma_date_of_day(day_number(target_start) + iw);
    let v: Ymd = date_of_day(day_number(target_start) + iw);
    assert(weekday_in_week(cfg, w, k) == Ok::<Ymd, crate::calendar::OutOfBounds>(v));
    let x: int = weekday_number(t);
    lemma_weekday_after(t, v, 7 * k - it + iw);
    vstd::arithmetic::div_mod::lemma_mod_multiples_vanish(k, x - it + iw, 7);
    assert(x + (7 * k - it + iw) == 7 * k + (x - it + iw));
    lemma_weekday_roundtrip(w);
}

/// In the configured week, today's position and `w`'s differ by the same
/// amount (modulo 7) as their weekday numbers.
proof fn lemma_week_indices(cfg: ParserConfig, w: Weekday)
    ensures
        ({
            let x: int = weekday_number(cfg.today@);
            let it: int = weekday_index_of(cfg, today_weekday(cfg));
            let iw: int = weekday_index_of(cfg, w);
            &&& 0 <= it < 7
            &&& 0 <= iw < 7
            &&& 0 <= x < 7
            &&& (x - it + iw) % 7 == w.monday_index()
        }),
{
    let x: int = weekday_number(cfg.today@);
    assert(0 <= x < 7);
    assert(today_weekday(cfg).monday_index() == x);
    lemma_weekday_roundtrip(w);
}

/// `v` lies `d` days after `t`: its weekday number is `d` further on.
proof fn lemma_weekday_after(t: Ymd, v: Ymd, d: int)
    requires
        day_number(v) == day_number(t) + d,
    ensures
        weekday_number(v) == (weekday_number(t) + d) % 7,
{
    let a: int = day_number(t) - 1;
    vstd::arithmetic::div_mod::lemma_fundamental_div_mod(a, 7);
    let q: int = a / 7;
    vstd::arithmetic::div_mod::lemma_mod_multiples_vanish(q, a % 7 + d, 7);
    assert(a + d == 7 * q + (a % 7 + d));
}

/// With `next_weekday_means_week`, `next W` is `W next week`; with
/// `last_weekday_means_week`, `last W` is `W last week`. A bare `W` is the
/// closest `W` after today whatever these settings say.
pub proof fn law_weekday_settings(cfg: ParserConfig, w: Weekday)
    ensures
        cfg.next_weekday_means_week ==> resolve(
            cfg,
            FdateExpression::RelativeWeekday(
                RelativeWeekday { direction: Some(RelativeDirection::Future), weekday: w },
            ),
        ) == resolve(
            cfg,
            FdateExpression::RelativeIntervalDate(
                RelativeIntervalDate {
                    direction: RelativeDirection::Future,
                    distance: 1,
                    target: RelativeIntervalDateSpec::Weekday { weekday: w },
                },
            ),
        ),
        cfg.last_weekday_means_week ==> resolve(
            cfg,
            FdateExpression::RelativeWeekday(
                RelativeWeekday { direction: Some(RelativeDirection::Past), weekday: w },
            ),
        ) == resolve(
            cfg,
            FdateExpression::RelativeIntervalDate(
                RelativeIntervalDate {
                    direction: RelativeDirection::Past,
                    distance: 1,
                    target: RelativeIntervalDateSpec::Weekday { weekday: w },
                },
            ),
        ),
        resolve(
            cfg,
            FdateExpression::RelativeWeekday(RelativeWeekday { direction: None, weekday: w }),
        ) == resolve(
            ParserConfig { next_weekday_means_week: false, ..cfg },
            FdateExpression::RelativeWeekday(
                RelativeWeekday { direction: Some(RelativeDirection::Future), weekday: w },
            ),
        ),
{
}

/// With `next_day_of_month_means_month`, `next 14th` is `14th next month`;
/// with `last_day_of_month_means_month`, `last 14th` is `14th last month`. A
/// bare `14th` is the closest one after today whatever these settings say.
pub proof fn law_day_of_month_settings(cfg: ParserConfig, day: u32)
    ensures
        cfg.next_day_of_month_means_month ==> resolve(
            cfg,
            FdateExpression::RelativeDayOfMonth(
                RelativeDayOfMonth { direction: Some(RelativeDirection::Future), day },
            ),
        ) == resolve(
            cfg,
            FdateExpression::RelativeIntervalDate(
                RelativeIntervalDate {
                    direction: RelativeDirection::Future,
                    distance: 1,
                    target: RelativeIntervalDateSpec::DayOfMonth { day },
                },
            ),
        ),
        cfg.last_day_of_month_means_month ==> resolve(
            cfg,
            FdateExpression::RelativeDayOfMonth(
                RelativeDayOfMonth { direction: Some(RelativeDirection::Past), day },
            ),
        ) == resolve(
            cfg,
            FdateExpression::RelativeIntervalDate(
                RelativeIntervalDate {
                    direction: RelativeDirection::Past,
                    distance: 1,
                    target: RelativeIntervalDateSpec::DayOfMonth { day },
                },
            ),
        ),
        resolve(
            cfg,
            FdateExpression::RelativeDayOfMonth(RelativeDayOfMonth { direction: None, day }),
        ) == resolve(
            ParserConfig { next_day_of_month_means_month: false, ..cfg },
            FdateExpression::RelativeDayOfMonth(
                RelativeDayOfMonth { direction: Some(RelativeDirection::Future), day },
            ),
        ),
{
}

/// With `next_partial_date_means_year`, `next 14th April` is `14th April next
/// year`; with `last_partial_date_means_year`, `last 14th April` is `14th
/// April last year`. A bare `14th April` is the closest one after today
/// whatever these settings say.
pub proof fn law_partial_date_settings(cfg: ParserConfig, day: u32, month: Month)
    ensures
        cfg.next_partial_date_means_year ==> resolve(
            cfg,
            FdateExpression::RelativePartialDate(
                RelativePartialDate { direction: Some(RelativeDirection::Future), day, month },
            ),
        ) == resolve(
            cfg,
            FdateExpression::RelativeIntervalDate(
                RelativeIntervalDate {
                    direction: RelativeDirection::Future,
                    distance: 1,
                    target: RelativeIntervalDateSpec::DayOfYear { day, month },
                },
            ),
        ),
        cfg.last_partial_date_means_year ==> resolve(
            cfg,
            FdateExpression::RelativePartialDate(
                RelativePartialDate { direction: Some(RelativeDirection::Past), day, month },
            ),
        ) == resolve(
            cfg,
            FdateExpression::RelativeIntervalDate(
                RelativeIntervalDate {
                    direction: RelativeDirection::Past,
                    distance: 1,
                    target: RelativeIntervalDateSpec::DayOfYear { day, month },
                },
            ),
        ),
        resolve(
            cfg,
            FdateExpression::RelativePartialDate(RelativePartialDate { direction: None, day, month }),
        ) == resolve(
            ParserConfig { next_partial_date_means_year: false, ..cfg },
            FdateExpression::RelativePartialDate(
                RelativePartialDate { direction: Some(RelativeDirection::Future), day, month },
            ),
        ),
{
}

/// Each kind of expression reads only its own settings: intervals read only
/// today; weekdays read today, the first day of the week and the two weekday
/// settings; bare days of the month and partial dates read today and their own
/// two settings, not the first day of the week.
pub proof fn law_settings_are_independent(cfg1: ParserConfig, cfg2: ParserConfig)
    requires
        cfg1.today == cfg2.today,
    ensures
        forall|d: RelativeDirection, n: u32, u: IntervalUnit|
            relative_interval_value(cfg1, d, n, u) == relative_interval_value(cfg2, d, n, u),
        cfg1.first_day == cfg2.first_day && cfg1.next_weekday_means_week
            == cfg2.next_weekday_means_week && cfg1.last_weekday_means_week
            == cfg2.last_weekday_means_week ==> forall|d: Option<RelativeDirection>, w: Weekday|
            relative_weekday_value(cfg1, d, w) == relative_weekday_value(cfg2, d, w),
        cfg1.next_day_of_month_means_month == cfg2.next_day_of_month_means_month
            && cfg1.last_day_of_month_means_month == cfg2.last_day_of_month_means_month
            ==> forall|d: Option<RelativeDirection>, day: u32|
            relative_day_of_month_value(cfg1, d, day) == relative_day_of_month_value(cfg2, d, day),
        cfg1.next_partial_date_means_year == cfg2.next_partial_date_means_year
            && cfg1.last_partial_date_means_year == cfg2.last_partial_date_means_year
            ==> forall|d: Option<RelativeDirection>, day: u32, m: Month|
            relative_partial_date_value(cfg1, d, day, m) == relative_partial_date_value(
                cfg2,
                d,
                day,
                m,
            ),
{
    assert forall|d: Option<RelativeDirection>, w: Weekday|
        cfg1.first_day == cfg2.first_day && cfg1.next_weekday_means_week
            == cfg2.next_weekday_means_week && cfg1.last_weekday_means_week
            == cfg2.last_weekday_means_week implies relative_weekday_value(cfg1, d, w)
        == relative_weekday_value(cfg2, d, w) by {
        assert(future_weekday_offset(cfg1, w) == future_weekday_offset(cfg2, w));
        assert(past_weekday_offset(cfg1, w) == past_weekday_offset(cfg2, w));
        assert(weekday_in_week(cfg1, w, 1) == weekday_in_week(cfg2, w, 1));
        assert(weekday_in_week(cfg1, w, -1) == weekday_in_week(cfg2, w, -1));
    }
}

/// The settings that an expression of the kind of `e` reads, other than
/// today, are the same in `cfg1` and `cfg2`.
pub open spec fn same_settings_for(e: Option<FdateExpression>, cfg1: ParserConfig, cfg2: ParserConfig) -> bool {
    match e {
        Some(FdateExpression::RelativeWeekday(_)) => {
            &&& cfg1.first_day == cfg2.first_day
            &&& cfg1.next_weekday_means_week == cfg2.next_weekday_means_week
            &&& cfg1.last_weekday_means_week == cfg2.last_weekday_means_week
        },
        Some(FdateExpression::RelativeDayOfMonth(_)) => {
            &&& cfg1.next_day_of_month_means_month == cfg2.next_day_of_month_means_month
            &&& cfg1.last_day_of_month_means_month == cfg2.last_day_of_month_means_month
        },
        Some(FdateExpression::RelativePartialDate(_)) => {
            &&& cfg1.next_partial_date_means_year == cfg2.next_partial_date_means_year
            &&& cfg1.last_partial_date_means_year == cfg2.last_partial_date_means_year
        },
        Some(FdateExpression::RelativeIntervalDate(_)) => cfg1.first_day == cfg2.first_day,
        _ => true,
    }
}

/// Parsing the same text under two configurations with the same today gives
/// the same answer, out-of-range answers included, whenever they agree on the
/// settings that the kind of expression read reads: the day-of-month settings
/// never change a partial date, the partial-date settings never change a bare
/// day of the month, and so on.
pub proof fn law_parse_reads_only_its_settings(cfg1: ParserConfig, cfg2: ParserConfig, s: Seq<char>)
    requires
        cfg1.today == cfg2.today,
        same_settings_for(expression(s), cfg1, cfg2),
    ensures
        parse_result(cfg1, s) == parse_result(cfg2, s),
{
    law_settings_are_independent(cfg1, cfg2);
    if let Some(e) = expression(s) {
        if let FdateExpression::RelativeIntervalDate(ri) = e {
            match ri.target {
                RelativeIntervalDateSpec::Weekday { weekday } => {
                    assert(weekday_in_week(cfg1, weekday, ri.distance as int) == weekday_in_week(
                        cfg2,
                        weekday,
                        ri.distance as int,
                    ));
                    assert(weekday_in_week(cfg1, weekday, -(ri.distance as int))
                        == weekday_in_week(cfg2, weekday, -(ri.distance as int)));
                },
                _ => {},
            }
        }
    }
}

proof fn lemma_clamp(y: int, m: int, day: u32)
    requires
        year_in_range(y),
        1 <= m <= 12,
    ensures
        clamp_ymd(y, m, day) matches Ok(v) ==> {
            &&& valid_ymd(v)
            &&& v.0 == y
            &&& v.1 == m
            &&& v.2 == if day <= days_in_month(y, m) {
                day as int
            } else {
                days_in_month(y, m)
            }
        },
{
}

proof fn lemma_next_or_previous_month(v: Ymd, n: int)
    requires
        valid_ymd(v),
        n == 1 || n == -1,
        shift_months(v, n) is Ok,
    ensures
        ({
            let u: Ymd = shift_months(v, n)->Ok_0;
            &&& year_in_range(u.0)
            &&& 1 <= u.1 <= 12
            &&& u.0 * 12 + u.1 == v.0 * 12 + v.1 + n
        }),
{
    lemma_div_12(v.0 * 12 + (v.1 - 1) + n);
}

/// Day `day` of the month `m` of year `y`, or the month's last day when it is
/// shorter.
pub open spec fn clamped_day(y: int, m: int, day: u32) -> int {
    if day <= days_in_month(y, m) {
        day as int
    } else {
        days_in_month(y, m)
    }
}

/// A bare day of the month is the closest such day after today (`last`: before
/// today), in today's month or the next (previous) one; its day is the asked
/// day, or the month's last day when the month is shorter. No such day lies
/// between today and it.
pub proof fn law_closest_day_of_month(cfg: ParserConfig, day: u32)
    requires
        cfg.today.wf(),
    ensures
        closest_future_day(cfg, day) matches Ok(v) ==> {
            let t: Ymd = cfg.today@;
            &&& valid_ymd(v)
            &&& ymd_before(t, v)
            &&& v.0 * 12 + v.1 == t.0 * 12 + t.1 || v.0 * 12 + v.1 == t.0 * 12 + t.1 + 1
            &&& v.2 == clamped_day(v.0, v.1, day)
            &&& forall|w: Ymd|
                valid_ymd(w) && w.2 == clamped_day(w.0, w.1, day) && #[trigger] ymd_before(t, w)
                    ==> !ymd_before(w, v)
        },
        closest_past_day(cfg, day) matches Ok(v) ==> {
            let t: Ymd = cfg.today@;
            &&& valid_ymd(v)
            &&& ymd_before(v, t)
            &&& v.0 * 12 + v.1 == t.0 * 12 + t.1 || v.0 * 12 + v.1 == t.0 * 12 + t.1 - 1
            &&& v.2 == clamped_day(v.0, v.1, day)
            &&& forall|w: Ymd|
                valid_ymd(w) && w.2 == clamped_day(w.0, w.1, day) && #[trigger] ymd_before(w, t)
                    ==> !ymd_before(v, w)
        },
{
    let t: Ymd = cfg.today@;
    lemma_clamp(t.0, t.1, day);
    if let Ok(target) = clamp_ymd(t.0, t.1, day) {
        if shift_months(target, 1) is Ok {
            lemma_next_or_previous_month(target, 1);
            let u: Ymd = shift_months(target, 1)->Ok_0;
            lemma_clamp(u.0, u.1, day);
        }
        if shift_months(target, -1) is Ok {
            lemma_next_or_previous_month(target, -1);
            let u: Ymd = shift_months(target, -1)->Ok_0;
            lemma_clamp(u.0, u.1, day);
        }
    }
}

/// A bare day and month is the closest such day after today (`last`: before
/// today), this year or the next (previous) one, when it exists there. No such
/// day lies between today and it.
pub proof fn law_closest_partial_date(cfg: ParserConfig, day: u32, month: Month)
    requires
        cfg.today.wf(),
    ensures
        closest_future_partial(cfg, day, month) matches Some(v) ==> {
            let t: Ymd = cfg.today@;
            &&& valid_ymd(v)
            &&& ymd_before(t, v)
            &&& v.0 == t.0 || v.0 == t.0 + 1
            &&& v.1 == month.number()
            &&& v.2 == day
            &&& forall|w: Ymd|
                valid_ymd(w) && w.1 == month.number() && w.2 == day && #[trigger] ymd_before(t, w)
                    ==> !ymd_before(w, v)
        },
        closest_past_partial(cfg, day, month) matches Some(v) ==> {
            let t: Ymd = cfg.today@;
            &&& valid_ymd(v)
            &&& ymd_before(v, t)
            &&& v.0 == t.0 || v.0 == t.0 - 1
            &&& v.1 == month.number()
            &&& v.2 == day
            &&& forall|w: Ymd|
                valid_ymd(w) && w.1 == month.number() && w.2 == day && #[trigger] ymd_before(w, t)
                    ==> !ymd_before(v, w)
        },
{
}

/// The number of months or years that `distance` counts as: a `u32` read as an
/// `i32`, so values above `i32::MAX` wrap around to negative numbers.
pub open spec fn signed_distance(distance: u32) -> int {
    if distance <= i32::MAX {
        distance as int
    } else {
        distance as int - 0x1_0000_0000
    }
}

/// How many periods forward (negative: backward) an interval moves.
pub open spec fn signed_shift(direction: RelativeDirection, distance: u32) -> int {
    match direction {
        RelativeDirection::Future => signed_distance(distance),
        RelativeDirection::Past => -signed_distance(distance),
    }
}

proof fn lemma_months_away(v: Ymd, n: int)
    requires
        valid_ymd(v),
    ensures
        ({
            let u: Ymd = add_months_ymd(v, n);
            &&& 1 <= u.1 <= 12
            &&& u.0 * 12 + u.1 == v.0 * 12 + v.1 + n
            &&& u.0 == (v.0 * 12 + v.1 - 1 + n) / 12
        }),
{
    lemma_div_12(v.0 * 12 + (v.1 - 1) + n);
}

/// A day of the month inside a month `N` months from today's (`17th in two
/// months`, `10th 2 months ago`, `14th next month`): it lies in the month `N`
/// months after (before) today's month, on the asked day or on that month's
/// last day when the month is shorter. It is always a date, and it is given
/// whenever the day is a day number below 256, that month's year can be held
/// and `N` can be negated.
pub proof fn law_day_in_relative_month(
    cfg: ParserConfig,
    direction: RelativeDirection,
    distance: u32,
    day: u32,
)
    requires
        cfg.today.wf(),
    ensures
        ({
            let t: Ymd = cfg.today@;
            let shift: int = signed_shift(direction, distance);
            let r = relative_interval_date_value(
                cfg,
                direction,
                distance,
                RelativeIntervalDateSpec::DayOfMonth { day },
            );
            &&& r matches Ok(o) ==> o matches Some(v) && {
                &&& valid_ymd(v)
                &&& v.0 * 12 + v.1 == t.0 * 12 + t.1 + shift
                &&& v.2 == clamped_day(v.0, v.1, day)
            }
            &&& 1 <= day < 256 && year_in_range((t.0 * 12 + t.1 - 1 + shift) / 12) && !(
            direction == RelativeDirection::Past && signed_distance(distance) == i32::MIN) ==> r is Ok
        }),
{
    let t: Ymd = cfg.today@;
    let shift: int = signed_shift(direction, distance);
    assert(crate::parser::syntax::absolute::wrap_i32(distance) == signed_distance(distance));
    lemma_day_in_month_shift(cfg, day, shift);
}

proof fn lemma_day_in_month_shift(cfg: ParserConfig, day: u32, shift: int)
    requires
        cfg.today.wf(),
    ensures
        ({
            let t: Ymd = cfg.today@;
            &&& day_in_month(cfg, day, shift) matches Ok(v) ==> {
                &&& valid_ymd(v)
                &&& v.0 * 12 + v.1 == t.0 * 12 + t.1 + shift
                &&& v.2 == clamped_day(v.0, v.1, day)
            }
            &&& 1 <= day < 256 && year_in_range((t.0 * 12 + t.1 - 1 + shift) / 12) ==> day_in_month(
                cfg,
                day,
                shift,
            ) is Ok
        }),
{
    let t: Ymd = cfg.today@;
    lemma_months_away(t, shift);
    let u: Ymd = add_months_ymd(t, shift);
    if year_in_range(u.0) {
        lemma_clamp(u.0, u.1, day);
    }
}

/// A day and month inside a year `N` years from today's (`1st May this
/// year`, `10th July in two years`, `1st may 2 years ago`): it is that day and
/// month of the year `N` after (before) today's year when that day exists, no
/// date when it does not, and out of range only when that year is not an
/// `i32` or `N` cannot be negated.
pub proof fn law_day_in_relative_year(
    cfg: ParserConfig,
    direction: RelativeDirection,
    distance: u32,
    day: u32,
    month: Month,
)
    ensures
        ({
            let y: int = cfg.today@.0 + signed_shift(direction, distance);
            let v: Ymd = (y, month.number(), day as int);
            let r = relative_interval_date_value(
                cfg,
                direction,
                distance,
                RelativeIntervalDateSpec::DayOfYear { day, month },
            );
            if i32::MIN <= y <= i32::MAX && !(direction == RelativeDirection::Past
                && signed_distance(distance) == i32::MIN) {
                &&& valid_ymd(v) ==> r == Ok::<Option<Ymd>, crate::calendar::OutOfBounds>(Some(v))
                &&& !valid_ymd(v) ==> r == Ok::<Option<Ymd>, crate::calendar::OutOfBounds>(None)
            } else {
                r is Err
            }
        }),
{
}

/// A bare day and month finds a date whenever one is there: the closest one
/// after today is this year's when it exists and lies after today, else next
/// year's when that exists; the closest one before today is this year's when
/// it exists and lies before today, else last year's when that exists. Like the
/// original, nothing is found when the day does not exist this year.
pub proof fn law_closest_partial_date_is_found(cfg: ParserConfig, day: u32, month: Month)
    ensures
        ({
            let t: Ymd = cfg.today@;
            let this_year: Ymd = (t.0, month.number(), day as int);
            let next_year: Ymd = (t.0 + 1, month.number(), day as int);
            let last_year: Ymd = (t.0 - 1, month.number(), day as int);
            &&& valid_ymd(this_year) && ymd_before(t, this_year) ==> closest_future_partial(
                cfg,
                day,
                month,
            ) == Some(this_year)
            &&& valid_ymd(this_year) && !ymd_before(t, this_year) && valid_ymd(next_year)
                ==> closest_future_partial(cfg, day, month) == Some(next_year)
            &&& closest_future_partial(cfg, day, month) is None <==> !valid_ymd(this_year) || (
            !ymd_before(t, this_year) && !valid_ymd(next_year))
            &&& valid_ymd(this_year) && ymd_before(this_year, t) ==> closest_past_partial(
                cfg,
                day,
                month,
            ) == Some(this_year)
            &&& valid_ymd(this_year) && !ymd_before(this_year, t) && valid_ymd(last_year)
                ==> closest_past_partial(cfg, day, month) == Some(last_year)
            &&& closest_past_partial(cfg, day, month) is None <==> !valid_ymd(this_year) || (
            !ymd_before(this_year, t) && !valid_ymd(last_year))
        }),
{
}

/// The month after (`step` 1) or before (`step` -1) the month of `t`.
pub open spec fn adjacent_month(t: Ymd, step: int) -> (int, int) {
    if step == 1 {
        if t.1 == 12 {
            (t.0 + 1, 1)
        } else {
            (t.0, t.1 + 1)
        }
    } else {
        if t.1 == 1 {
            (t.0 - 1, 12)
        } else {
            (t.0, t.1 - 1)
        }
    }
}

/// A bare day of the month finds a date whenever one is there: the closest
/// one after today is this month's (clamped) day when it lies after today, else
/// next month's; the closest one before today is this month's when it lies
/// before today, else last month's. This holds for every day number from 1 to
/// 255 whose month's year can be held.
pub proof fn law_closest_day_of_month_is_found(cfg: ParserConfig, day: u32)
    requires
        cfg.today.wf(),
        1 <= day < 256,
    ensures
        ({
            let t: Ymd = cfg.today@;
            let this_month: Ymd = (t.0, t.1, clamped_day(t.0, t.1, day));
            let (ny, nm): (int, int) = adjacent_month(t, 1);
            let (ly, lm): (int, int) = adjacent_month(t, -1);
            &&& ymd_before(t, this_month) ==> closest_future_day(cfg, day) == Ok::<
                Ymd,
                crate::calendar::OutOfBounds,
            >(this_month)
            &&& !ymd_before(t, this_month) && year_in_range(ny) ==> closest_future_day(cfg, day)
                == Ok::<Ymd, crate::calendar::OutOfBounds>((ny, nm, clamped_day(ny, nm, day)))
            &&& ymd_before(this_month, t) ==> closest_past_day(cfg, day) == Ok::<
                Ymd,
                crate::calendar::OutOfBounds,
            >(this_month)
            &&& !ymd_before(this_month, t) && year_in_range(ly) ==> closest_past_day(cfg, day)
                == Ok::<Ymd, crate::calendar::OutOfBounds>((ly, lm, clamped_day(ly, lm, day)))
        }),
{
    let t: Ymd = cfg.today@;
    lemma_clamp(t.0, t.1, day);
    let target: Ymd = (t.0, t.1, clamped_day(t.0, t.1, day));
    assert(clamp_ymd(t.0, t.1, day) == Ok::<Ymd, crate::calendar::OutOfBounds>(target));
    lemma_months_away(target, 1);
    lemma_months_away(target, -1);
    let u: Ymd = add_months_ymd(target, 1);
    let w: Ymd = add_months_ymd(target, -1);
    if year_in_range(u.0) {
        lemma_clamp(u.0, u.1, day);
    }
    if year_in_range(w.0) {
        lemma_clamp(w.0, w.1, day);
    }
}

/// Intervals give a date whenever the day they land on can be held: `N days`
/// and `N weeks` when that day is in range, `N months` and `N years` when the
/// year of the month they land in is in range (and `12 * N` months fit in a
/// `u32`).
pub proof fn law_intervals_in_range_are_found(
    cfg: ParserConfig,
    direction: RelativeDirection,
    distance: u32,
    unit: IntervalUnit,
)
    requires
        cfg.today.wf(),
    ensures
        ({
            let t: Ymd = cfg.today@;
            let n: int = if direction == RelativeDirection::Future {
                distance as int
            } else {
                -(distance as int)
            };
            let r = relative_interval_value(cfg, direction, distance, unit);
            &&& unit == IntervalUnit::Day && day_in_range(day_number(t) + n) ==> r is Ok
            &&& unit == IntervalUnit::Week && day_in_range(day_number(t) + 7 * n) ==> r is Ok
            &&& unit == IntervalUnit::Month && year_in_range((t.0 * 12 + t.1 - 1 + n) / 12)
                ==> r is Ok
            &&& unit == IntervalUnit::Year && 12 * distance <= u32::MAX && year_in_range(
                (t.0 * 12 + t.1 - 1 + 12 * n) / 12,
            ) ==> r is Ok
        }),
{
    let t: Ymd = cfg.today@;
    let n: int = if direction == RelativeDirection::Future {
        distance as int
    } else {
        -(distance as int)
    };
    lemma_months_away(t, n);
    lemma_months_away(t, 12 * n);
}

/// A weekday, with or without `next` or `last` and under every setting, gives
/// a date whenever the days two weeks around today can be held.
pub proof fn law_weekdays_in_range_are_found(
    cfg: ParserConfig,
    direction: Option<RelativeDirection>,
    w: Weekday,
)
    requires
        cfg.today.wf(),
        day_in_range(day_number(cfg.today@) - 14),
        day_in_range(day_number(cfg.today@) + 14),
    ensures
        relative_weekday_value(cfg, direction, w) is Ok,
{
    let t: Ymd = cfg.today@;
    let dn: int = day_number(t);
    lemma_week_indices(cfg, w);
    let it: int = weekday_index_of(cfg, today_weekday(cfg));
    let iw: int = weekday_index_of(cfg, w);
    lemma_date_of_day(dn - it);
    lemma_date_of_day(dn - it + 7);
    lemma_date_of_day(dn - it - 7);
    assert(weekday_in_week(cfg, w, 1) is Ok);
    assert(weekday_in_week(cfg, w, -1) is Ok);
    let x: int = weekday_number(t);
    lemma_gap(x, w.monday_index());
}

/// A weekday inside a week `N` weeks from the current one (`wednesday this
/// week`, `friday 2 weeks ago`, `tuesday in 2 weeks`): it is that weekday, in
/// the week that starts `7 * N` days after (before) the start of the current
/// week, and it is always a date.
pub proof fn law_weekday_in_relative_period(
    cfg: ParserConfig,
    direction: RelativeDirection,
    distance: u32,
    w: Weekday,
)
    requires
        cfg.today.wf(),
    ensures
        ({
            let t: Ymd = cfg.today@;
            let n: int = if direction == RelativeDirection::Future {
                distance as int
            } else {
                -(distance as int)
            };
            relative_interval_date_value(
                cfg,
                direction,
                distance,
                RelativeIntervalDateSpec::Weekday { weekday: w },
            ) matches Ok(o) ==> o matches Some(v) && {
                &&& valid_ymd(v)
                &&& weekday_of(v) == w
                &&& day_number(v) - weekday_index_of(cfg, w) == day_number(t) - weekday_index_of(
                    cfg,
                    today_weekday(cfg),
                ) + 7 * n
            }
        }),
{
    let n: int = if direction == RelativeDirection::Future {
        distance as int
    } else {
        -(distance as int)
    };
    if weekday_in_week(cfg, w, n) is Ok {
        law_weekday_in_relative_week(cfg, w, n);
    }
}

/// An absolute date does not depend on today or on any setting.
pub proof fn law_absolute_dates_ignore_settings(cfg1: ParserConfig, cfg2: ParserConfig, s: Seq<char>)
    requires
        expression(s) matches Some(FdateExpression::Absolute(_)),
    ensures
        parse_result(cfg1, s) == parse_result(cfg2, s),
        parse_result(cfg1, s) == Ok::<Option<Ymd>, crate::calendar::OutOfBounds>(
            Some(expression(s)->Some_0->Absolute_0@),
        ),
{
}

/// A date is given only when one form reads the whole input: text left over
/// after the first form that reads the start gives no date.
pub proof fn law_whole_input(cfg: ParserConfig, s: Seq<char>)
    ensures
        expression(s) matches Some(e) ==> first_form(s) == Some((s.len() as int, e)),
        first_form(s) matches Some((j, _)) && j != s.len() ==> parse_result(cfg, s) == Ok::<
            Option<Ymd>,
            crate::calendar::OutOfBounds,
        >(None),
        first_form(s) is None ==> parse_result(cfg, s) == Ok::<
            Option<Ymd>,
            crate::calendar::OutOfBounds,
        >(None),
{
}

proof fn lemma_dates_of_exist()
    ensures
        forall|y: int, m: int, d: int| #[trigger] date_of(y, m, d) matches Some(x) ==> valid_ymd(x@),
{
    assert forall|y: int, m: int, d: int| date_of(y, m, d) is Some implies valid_ymd(
        date_of(y, m, d)->Some_0@,
    ) by {
        lemma_date_value_view((y, m, d));
    }
}

proof fn lemma_shift_months_valid(v: Ymd, n: int)
    requires
        valid_ymd(v),
    ensures
        shift_months(v, n) matches Ok(w) ==> valid_ymd(w),
{
    lemma_div_12(v.0 * 12 + (v.1 - 1) + n);
}

proof fn lemma_day_in_month_valid(cfg: ParserConfig, day: u32, k: int)
    requires
        cfg.today.wf(),
    ensures
        day_in_month(cfg, day, k) matches Ok(v) ==> valid_ymd(v),
{
    lemma_shift_months_valid(cfg.today@, k);
    if let Ok(u) = shift_months(cfg.today@, k) {
        lemma_clamp(u.0, u.1, day);
    }
}

proof fn lemma_weekday_in_week_valid(cfg: ParserConfig, w: Weekday, k: int)
    requires
        cfg.today.wf(),
    ensures
        weekday_in_week(cfg, w, k) matches Ok(v) ==> valid_ymd(v),
{
    if weekday_in_week(cfg, w, k) is Ok {
        law_weekday_in_relative_week(cfg, w, k);
    }
}

proof fn lemma_absolute_exists(s: Seq<char>)
    ensures
        absolute(s, 0) matches Some((_, d)) ==> valid_ymd(d@),
{
    lemma_dates_of_exist();
}

proof fn lemma_expression_absolute_exists(s: Seq<char>)
    ensures
        expression(s) matches Some(FdateExpression::Absolute(d)) ==> valid_ymd(d@),
{
    lemma_absolute_exists(s);
    if let Some(FdateExpression::Absolute(d)) = expression(s) {
        assert(absolute(s, 0) matches Some((_, x)) && x == d);
    }
}

proof fn lemma_interval_exists(cfg: ParserConfig, iv: RelativeInterval)
    requires
        cfg.today.wf(),
    ensures
        relative_interval_value(cfg, iv.direction, iv.distance, iv.unit) matches Ok(v)
            ==> valid_ymd(v),
{
    if relative_interval_value(cfg, iv.direction, iv.distance, iv.unit) is Ok {
        if iv.unit == IntervalUnit::Day || iv.unit == IntervalUnit::Week {
            law_day_and_week_intervals(cfg, iv.direction, iv.distance, iv.unit);
        } else {
            law_month_and_year_intervals_keep_the_day(cfg, iv.direction, iv.distance, iv.unit);
        }
    }
}

proof fn lemma_weekday_exists(cfg: ParserConfig, rw: RelativeWeekday)
    requires
        cfg.today.wf(),
    ensures
        relative_weekday_value(cfg, rw.direction, rw.weekday) matches Ok(v) ==> valid_ymd(v),
{
    lemma_weekday_in_week_valid(cfg, rw.weekday, 1);
    lemma_weekday_in_week_valid(cfg, rw.weekday, -1);
    let closest: bool = match rw.direction {
        None => true,
        Some(RelativeDirection::Future) => !cfg.next_weekday_means_week,
        Some(RelativeDirection::Past) => !cfg.last_weekday_means_week,
    };
    if closest && relative_weekday_value(cfg, rw.direction, rw.weekday) is Ok {
        law_closest_weekday(cfg, rw.direction, rw.weekday);
    }
}

proof fn lemma_day_of_month_exists(cfg: ParserConfig, rd: RelativeDayOfMonth)
    requires
        cfg.today.wf(),
    ensures
        relative_day_of_month_value(cfg, rd.direction, rd.day) matches Ok(v) ==> valid_ymd(v),
{
    law_closest_day_of_month(cfg, rd.day);
    lemma_day_in_month_valid(cfg, rd.day, 1);
    lemma_day_in_month_valid(cfg, rd.day, -1);
}

proof fn lemma_partial_date_exists(cfg: ParserConfig, rp: RelativePartialDate)
    requires
        cfg.today.wf(),
    ensures
        relative_partial_date_value(cfg, rp.direction, rp.day, rp.month) matches Ok(Some(v))
            ==> valid_ymd(v),
{
    law_closest_partial_date(cfg, rp.day, rp.month);
}

proof fn lemma_interval_date_exists(cfg: ParserConfig, ri: RelativeIntervalDate)
    requires
        cfg.today.wf(),
    ensures
        relative_interval_date_value(cfg, ri.direction, ri.distance, ri.target) matches Ok(Some(v))
            ==> valid_ymd(v),
{
    let k: int = crate::parser::syntax::absolute::wrap_i32(ri.distance);
    match ri.target {
        RelativeIntervalDateSpec::Weekday { weekday } => {
            lemma_weekday_in_week_valid(cfg, weekday, ri.distance as int);
            lemma_weekday_in_week_valid(cfg, weekday, -(ri.distance as int));
        },
        RelativeIntervalDateSpec::DayOfMonth { day } => {
            lemma_day_in_month_valid(cfg, day, k);
            lemma_day_in_month_valid(cfg, day, -k);
        },
        RelativeIntervalDateSpec::DayOfYear { .. } => {},
    }
}

/// Every date that parsing gives exists in the calendar and lies in the years
/// a [`crate::Date`] can hold.
pub proof fn law_parsed_dates_exist(cfg: ParserConfig, s: Seq<char>)
    requires
        cfg.today.wf(),
    ensures
        parse_result(cfg, s) matches Ok(Some(v)) ==> valid_ymd(v),
{
    lemma_expression_absolute_exists(s);
    if let Some(e) = expression(s) {
        assert(parse_result(cfg, s) == resolve(cfg, e));
        match e {
            FdateExpression::Absolute(d) => {},
            FdateExpression::RelativeInterval(iv) => lemma_interval_exists(cfg, iv),
            FdateExpression::RelativeWeekday(rw) => lemma_weekday_exists(cfg, rw),
            FdateExpression::RelativeDayOfMonth(rd) => lemma_day_of_month_exists(cfg, rd),
            FdateExpression::RelativePartialDate(rp) => lemma_partial_date_exists(cfg, rp),
            FdateExpression::RelativeIntervalDate(ri) => lemma_interval_date_exists(cfg, ri),
        }
    }
}

// ---------------------------------------------------------------------------
// Letter case.
// ---------------------------------------------------------------------------

/// `s` with every ASCII capital letter turned into its small letter.
pub open spec fn lowered(s: Seq<char>) -> Seq<char> {
    s.map_values(|c: char| lower(c))
}

pub(crate) proof fn lemma_lower_char(c: char)
    ensures
        lower(lower(c)) == lower(c),
        is_digit(c) ==> lower(c) == c,
        is_space(c) ==> lower(c) == c,
        is_digit(lower(c)) == is_digit(c),
        is_space(lower(c)) == is_space(c),
        (lower(c) == '-') == (c == '-'),
        (lower(c) == '/') == (c == '/'),
        c != 'S' ==> ((lower(c) == 's') == (c == 's')),
{
}

proof fn lemma_lowered_digits_end(s: Seq<char>, i: int)
    ensures
        digits_end(lowered(s), i) == digits_end(s, i),
    decreases s.len() - i,
{
    if 0 <= i < s.len() {
        lemma_lower_char(s[i]);
        lemma_lowered_digits_end(s, i + 1);
    }
}

proof fn lemma_lowered_spaces_end(s: Seq<char>, i: int)
    ensures
        spaces_end(lowered(s), i) == spaces_end(s, i),
    decreases s.len() - i,
{
    if 0 <= i < s.len() {
        lemma_lower_char(s[i]);
        lemma_lowered_spaces_end(s, i + 1);
    }
}

proof fn lemma_lowered_digits_value(s: Seq<char>, i: int, j: int)
    requires
        0 <= i,
        j <= s.len(),
        forall|k: int| i <= k < j ==> is_digit(#[trigger] s[k]),
    ensures
        digits_value(lowered(s), i, j) == digits_value(s, i, j),
    decreases j - i,
{
    if i < j {
        lemma_lower_char(s[j - 1]);
        lemma_lowered_digits_value(s, i, j - 1);
    }
}

proof fn lemma_digits_before_end(s: Seq<char>, i: int, k: int)
    requires
        0 <= i <= k < digits_end(s, i),
    ensures
        is_digit(s[k]),
    decreases k - i,
{
    if i < k {
        lemma_digits_before_end(s, i + 1, k);
    }
}

proof fn lemma_digits_end_bounds(s: Seq<char>, i: int)
    requires
        0 <= i,
    ensures
        i <= digits_end(s, i),
        i <= s.len() ==> digits_end(s, i) <= s.len(),
    decreases s.len() - i,
{
    if 0 <= i < s.len() && is_digit(s[i]) {
        lemma_digits_end_bounds(s, i + 1);
    }
}

/// What the recognizers look at is the same in `s` and in `lowered(s)`.
proof fn lemma_lowered_primitives(s: Seq<char>)
    requires
        forall|k: int| 0 <= k < s.len() ==> s[k] != 'S',
    ensures
        lowered(s).len() == s.len(),
        forall|i: int, t: Seq<char>| #[trigger] tag(lowered(s), i, t) == tag(s, i, t),
        forall|i: int| #[trigger] space1(lowered(s), i) == space1(s, i),
        forall|i: int| #[trigger] uint(lowered(s), i) == uint(s, i),
        forall|i: int| #[trigger] digits_end(lowered(s), i) == digits_end(s, i),
        forall|i: int|
            0 <= i ==> #[trigger] digits_value(lowered(s), i, digits_end(s, i)) == digits_value(
                s,
                i,
                digits_end(s, i),
            ),
        forall|i: int, c: char|
            c == '-' || c == '/' || c == 's' ==> #[trigger] exact(lowered(s), i, c) == exact(
                s,
                i,
                c,
            ),
{
    let ls: Seq<char> = lowered(s);
    assert forall|i: int, t: Seq<char>| #[trigger] tag(ls, i, t) == tag(s, i, t) by {
        if 0 <= i && i + t.len() <= s.len() {
            assert forall|k: int| 0 <= k < t.len() implies lower(#[trigger] ls[i + k]) == lower(s[i + k]) by {
                lemma_lower_char(s[i + k]);
            }
            if tag_at(s, i, t) {
                assert forall|k: int| 0 <= k < t.len() implies lower(#[trigger] ls[i + k])
                    == t[k] by {
                    assert(lower(s[i + k]) == t[k]);
                }
            }
            if tag_at(ls, i, t) {
                assert forall|k: int| 0 <= k < t.len() implies lower(#[trigger] s[i + k])
                    == t[k] by {
                    assert(lower(ls[i + k]) == t[k]);
                }
            }
        }
    }
    assert forall|i: int| #[trigger] digits_end(ls, i) == digits_end(s, i) by {
        lemma_lowered_digits_end(s, i);
    }
    assert forall|i: int| #[trigger] space1(ls, i) == space1(s, i) by {
        lemma_lowered_spaces_end(s, i);
    }
    assert forall|i: int|
        0 <= i implies #[trigger] digits_value(ls, i, digits_end(s, i)) == digits_value(
        s,
        i,
        digits_end(s, i),
    ) by {
        lemma_digits_end_bounds(s, i);
        if i <= s.len() {
            assert forall|k: int| i <= k < digits_end(s, i) implies is_digit(#[trigger] s[k]) by {
                lemma_digits_before_end(s, i, k);
            }
            lemma_lowered_digits_value(s, i, digits_end(s, i));
        }
    }
    assert forall|i: int| #[trigger] uint(ls, i) == uint(s, i) by {
        lemma_lowered_digits_end(s, i);
        if 0 <= i {
            lemma_digits_end_bounds(s, i);
            if i <= s.len() {
                assert forall|k: int| i <= k < digits_end(s, i) implies is_digit(
                    #[trigger] s[k],
                ) by {
                    lemma_digits_before_end(s, i, k);
                }
                lemma_lowered_digits_value(s, i, digits_end(s, i));
            }
        }
    }
    assert forall|i: int, c: char|
        c == '-' || c == '/' || c == 's' implies #[trigger] exact(ls, i, c) == exact(s, i, c) by {
        if 0 <= i < s.len() {
            lemma_lower_char(s[i]);
        }
    }
}

/// The keyword-level recognizers give the same on `s` and on `lowered(s)`.
proof fn lemma_lowered_words(s: Seq<char>)
    requires
        forall|k: int| 0 <= k < s.len() ==> s[k] != 'S',
    ensures
        forall|i: int| #[trigger] direction_then_space(lowered(s), i) == direction_then_space(s, i),
        forall|i: int| #[trigger] ordinal_day(lowered(s), i) == ordinal_day(s, i),
        forall|i: int| #[trigger] number_with_suffix(lowered(s), i) == number_with_suffix(s, i),
        forall|i: int| #[trigger] weekday(lowered(s), i) == weekday(s, i),
        forall|i: int| #[trigger] month(lowered(s), i) == month(s, i),
        forall|i: int| #[trigger] interval_unit(lowered(s), i) == interval_unit(s, i),
        forall|i: int| #[trigger] year(lowered(s), i) == year(s, i),
        forall|i: int, c: char|
            c == '-' || c == '/' ==> #[trigger] three_numbers(lowered(s), i, c) == three_numbers(
                s,
                i,
                c,
            ),
        forall|i: int| #[trigger] value_then_space(lowered(s), i) == value_then_space(s, i),
        forall|i: int| #[trigger] in_then_space(lowered(s), i) == in_then_space(s, i),
        forall|i: int| #[trigger] plural(lowered(s), i) == plural(s, i),
        forall|i: int| #[trigger] interval_literal(lowered(s), i) == interval_literal(s, i),
{
    lemma_lowered_primitives(s);
    let ls: Seq<char> = lowered(s);
    assert forall|i: int| #[trigger] direction_then_space(ls, i) == direction_then_space(s, i) by {
        assert(direction(ls, i) == direction(s, i));
    }
    assert forall|i: int| #[trigger] number_with_suffix(ls, i) == number_with_suffix(s, i) by {
        assert forall|j: int| #[trigger] ordinal_suffix(ls, j) == ordinal_suffix(s, j) by {}
    }
    assert forall|i: int| #[trigger] ordinal_day(ls, i) == ordinal_day(s, i) by {
        assert(number_with_suffix(ls, i) == number_with_suffix(s, i));
    }
    assert forall|i: int| #[trigger] weekday(ls, i) == weekday(s, i) by {
        assert forall|f: Seq<char>, g: Seq<char>| #[trigger] weekday_name(ls, i, f, g)
            == weekday_name(s, i, f, g) by {}
    }
    assert forall|i: int| #[trigger] month(ls, i) == month(s, i) by {}
    assert forall|i: int| #[trigger] interval_unit(ls, i) == interval_unit(s, i) by {}
    assert forall|i: int| #[trigger] year(ls, i) == year(s, i) by {}
    assert forall|i: int, c: char|
        c == '-' || c == '/' implies #[trigger] three_numbers(ls, i, c) == three_numbers(
        s,
        i,
        c,
    ) by {}
    assert forall|i: int| #[trigger] value_then_space(ls, i) == value_then_space(s, i) by {
        assert(number_word(ls, i) == number_word(s, i));
        assert(interval_value(ls, i) == interval_value(s, i));
    }
    assert forall|i: int| #[trigger] in_then_space(ls, i) == in_then_space(s, i) by {}
    assert forall|i: int| #[trigger] plural(ls, i) == plural(s, i) by {}
    assert forall|i: int| #[trigger] interval_literal(ls, i) == interval_literal(s, i) by {}
}

/// The forms that do not hold an interval give the same on `s` and on
/// `lowered(s)`.
proof fn lemma_lowered_forms(s: Seq<char>)
    requires
        forall|k: int| 0 <= k < s.len() ==> s[k] != 'S',
    ensures
        forall|i: int| #[trigger] absolute(lowered(s), i) == absolute(s, i),
        forall|i: int| #[trigger] relative_weekday(lowered(s), i) == relative_weekday(s, i),
        forall|i: int| #[trigger] relative_day_of_month(lowered(s), i) == relative_day_of_month(s, i),
        forall|i: int| #[trigger] partial_date_body(lowered(s), i) == partial_date_body(s, i),
        forall|i: int| #[trigger] relative_partial_date(lowered(s), i) == relative_partial_date(s, i),
{
    lemma_lowered_primitives(s);
    lemma_lowered_words(s);
    let ls: Seq<char> = lowered(s);
    assert forall|i: int| #[trigger] absolute(ls, i) == absolute(s, i) by {
        assert(date_iso(ls, i) == date_iso(s, i));
        assert(date_freedom_units(ls, i) == date_freedom_units(s, i));
        assert(date_day_month_year(ls, i) == date_day_month_year(s, i));
        assert(date_month_day_year(ls, i) == date_month_day_year(s, i));
    }
    assert forall|i: int| #[trigger] relative_weekday(ls, i) == relative_weekday(s, i) by {}
    assert forall|i: int| #[trigger] relative_day_of_month(ls, i) == relative_day_of_month(s, i) by {
        assert forall|j: int| #[trigger] month_follows(ls, j) == month_follows(s, j) by {}
    }
    assert forall|i: int| #[trigger] partial_date_body(ls, i) == partial_date_body(s, i) by {
        assert(month_first_body(ls, i) == month_first_body(s, i));
    }
    assert forall|i: int| #[trigger] relative_partial_date(ls, i) == relative_partial_date(s, i) by {}
}

/// The forms that hold an interval give the same on `s` and on `lowered(s)`.
proof fn lemma_lowered_intervals(s: Seq<char>)
    requires
        forall|k: int| 0 <= k < s.len() ==> s[k] != 'S',
    ensures
        forall|i: int| #[trigger] relative_interval(lowered(s), i) == relative_interval(s, i),
        forall|i: int| #[trigger] relative_interval_date(lowered(s), i) == relative_interval_date(s, i),
{
    lemma_lowered_primitives(s);
    lemma_lowered_words(s);
    lemma_lowered_forms(s);
    let ls: Seq<char> = lowered(s);
    assert forall|i: int, explicit: bool| #[trigger] non_literal_interval(ls, i, explicit)
        == non_literal_interval(s, i, explicit) by {
        assert(interval_past(ls, i) == interval_past(s, i));
        assert(interval_future(ls, i, explicit) == interval_future(s, i, explicit));
    }
    assert forall|i: int| #[trigger] relative_interval(ls, i) == relative_interval(s, i) by {}
    assert forall|
        i: int,
        a: Seq<char>,
        b: Seq<char>,
        c: Seq<char>,
        u: IntervalUnit,
    | #[trigger] relative_period(ls, i, a, b, c, u) == relative_period(s, i, a, b, c, u) by {}
    assert forall|
        t: Option<(int, RelativeIntervalDateSpec)>,
        a: Seq<char>,
        b: Seq<char>,
        c: Seq<char>,
        u: IntervalUnit,
    | #[trigger] with_period(ls, t, a, b, c, u) == with_period(s, t, a, b, c, u) by {}
    assert forall|i: int| #[trigger] relative_interval_date(ls, i) == relative_interval_date(s, i) by {
        assert(weekday_target(ls, i) == weekday_target(s, i));
        assert(day_of_month_target(ls, i) == day_of_month_target(s, i));
        assert(day_of_year_target(ls, i) == day_of_year_target(s, i));
    }
}

/// Letter case does not matter: parsing `s` and parsing it with its capital
/// letters made small give the same expression, as long as `s` holds no
/// capital `S` (the plural `s` after a unit is the one letter matched as
/// written).
pub proof fn law_parsing_ignores_letter_case(s: Seq<char>)
    requires
        forall|k: int| 0 <= k < s.len() ==> s[k] != 'S',
    ensures
        expression(lowered(s)) == expression(s),
{
    lemma_lowered_primitives(s);
    lemma_lowered_forms(s);
    lemma_lowered_intervals(s);
    assert(first_form(lowered(s)) == first_form(s));
}

} // verus!

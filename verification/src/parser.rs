//! Turning a parsed expression into a date, relative to the configured today.
use vstd::prelude::*;

pub mod config;
pub mod syntax;

use crate::calendar::{
    add_months_ymd, date_of_day, date_res, day_in_range, day_number, lemma_date_of_day_number,
    opt_date, opt_date_res, valid_ymd, weekday_number, year_in_range, Date, Month, OutOfBounds,
    Weekday, Ymd,
};
use crate::chrono_ops::{
    checked_add_days, checked_add_months, checked_sub_months, weekday_from_monday, with_year,
    ymd_opt,
};
use crate::util::{clamp_ymd, from_ymd_clamp};
use config::{FirstDay, ParserConfig};
use syntax::absolute::wrap_i32;
use syntax::common::{IntervalUnit, RelativeDirection};
use syntax::relative_interval_date::RelativeIntervalDateSpec;
use syntax::{expression, FdateExpression};

verus! {

// ---------------------------------------------------------------------------
// What each step computes, over calendar triples.
// ---------------------------------------------------------------------------

/// The position of `w` in a week that starts on the configured first day.
pub open spec fn weekday_index_of(cfg: ParserConfig, w: Weekday) -> int {
    match cfg.first_day {
        FirstDay::Monday => w.monday_index(),
        FirstDay::Sunday => w.sunday_index(),
    }
}

/// The weekday of the configured today.
pub open spec fn today_weekday(cfg: ParserConfig) -> Weekday {
    Weekday::with_monday_index(weekday_number(cfg.today@))
}

/// Days from today forward to the next `w`: 1 to 7, never 0.
pub open spec fn future_weekday_offset(cfg: ParserConfig, w: Weekday) -> int {
    let delta: int = (weekday_index_of(cfg, w) + 7 - weekday_index_of(cfg, today_weekday(cfg))) % 7;
    if delta == 0 {
        7
    } else {
        delta
    }
}

/// Days from the last `w` forward to today: 1 to 7, never 0.
pub open spec fn past_weekday_offset(cfg: ParserConfig, w: Weekday) -> int {
    let delta: int = (weekday_index_of(cfg, today_weekday(cfg)) + 7 - weekday_index_of(cfg, w)) % 7;
    if delta == 0 {
        7
    } else {
        delta
    }
}

/// The day `n` days after `v` (before it when `n` is negative).
pub open spec fn shift_days(v: Ymd, n: int) -> Result<Ymd, OutOfBounds> {
    if day_in_range(day_number(v) + n) {
        Ok(date_of_day(day_number(v) + n))
    } else {
        Err(OutOfBounds)
    }
}

/// The day `n` months after `v`, clamped to the end of a shorter month.
pub open spec fn shift_months(v: Ymd, n: int) -> Result<Ymd, OutOfBounds> {
    if year_in_range(add_months_ymd(v, n).0) {
        Ok(add_months_ymd(v, n))
    } else {
        Err(OutOfBounds)
    }
}

/// Weekday `w` of the week `k` weeks after the current one.
pub open spec fn weekday_in_week(cfg: ParserConfig, w: Weekday, k: int) -> Result<Ymd, OutOfBounds> {
    match shift_days(cfg.today@, -weekday_index_of(cfg, today_weekday(cfg))) {
        Ok(start) => match shift_days(start, 7 * k) {
            Ok(target_start) => shift_days(target_start, weekday_index_of(cfg, w)),
            Err(e) => Err(e),
        },
        Err(e) => Err(e),
    }
}

/// Day `day` (clamped) of the month after a (clamped) day of a month.
pub open spec fn clamp_in_month_of(v: Result<Ymd, OutOfBounds>, day: u32) -> Result<Ymd, OutOfBounds> {
    match v {
        Ok(m) => clamp_ymd(m.0, m.1, day),
        Err(e) => Err(e),
    }
}

/// The closest day `day` (clamped) after today.
pub open spec fn closest_future_day(cfg: ParserConfig, day: u32) -> Result<Ymd, OutOfBounds> {
    let t: Ymd = cfg.today@;
    match clamp_ymd(t.0, t.1, day) {
        Ok(target) => if crate::calendar::ymd_before(t, target) {
            Ok(target)
        } else {
            clamp_in_month_of(shift_months(target, 1), day)
        },
        Err(e) => Err(e),
    }
}

/// The closest day `day` (clamped) before today.
pub open spec fn closest_past_day(cfg: ParserConfig, day: u32) -> Result<Ymd, OutOfBounds> {
    let t: Ymd = cfg.today@;
    match clamp_ymd(t.0, t.1, day) {
        Ok(target) => if crate::calendar::ymd_before(target, t) {
            Ok(target)
        } else {
            clamp_in_month_of(shift_months(target, -1), day)
        },
        Err(e) => Err(e),
    }
}

/// Day `day` (clamped) of the month `k` months from today's.
pub open spec fn day_in_month(cfg: ParserConfig, day: u32, k: int) -> Result<Ymd, OutOfBounds> {
    clamp_in_month_of(shift_months(cfg.today@, k), day)
}

/// The day and month in the year `year`, if that day exists.
pub open spec fn date_in_year(year: int, day: u32, month: Month) -> Option<Ymd> {
    if valid_ymd((year, month.number(), day as int)) {
        Some((year, month.number(), day as int))
    } else {
        None
    }
}

/// The closest such day after today, if this year's or next year's exists.
pub open spec fn closest_future_partial(cfg: ParserConfig, day: u32, month: Month) -> Option<Ymd> {
    let t: Ymd = cfg.today@;
    match date_in_year(t.0, day, month) {
        Some(target) => if crate::calendar::ymd_before(t, target) {
            Some(target)
        } else {
            date_in_year(t.0 + 1, day, month)
        },
        None => None,
    }
}

/// The closest such day before today, if this year's or last year's exists.
pub open spec fn closest_past_partial(cfg: ParserConfig, day: u32, month: Month) -> Option<Ymd> {
    let t: Ymd = cfg.today@;
    match date_in_year(t.0, day, month) {
        Some(target) => if crate::calendar::ymd_before(target, t) {
            Some(target)
        } else {
            date_in_year(t.0 - 1, day, month)
        },
        None => None,
    }
}

/// The day and month in the year `k` years from today's, if it exists.
pub open spec fn day_in_year(cfg: ParserConfig, day: u32, month: Month, k: int) -> Result<
    Option<Ymd>,
    OutOfBounds,
> {
    let year: int = cfg.today@.0 + k;
    if i32::MIN <= year <= i32::MAX {
        Ok(date_in_year(year, day, month))
    } else {
        Err(OutOfBounds)
    }
}

/// `in N units` or `N units ago`.
pub open spec fn relative_interval_value(
    cfg: ParserConfig,
    direction: RelativeDirection,
    distance: u32,
    unit: IntervalUnit,
) -> Result<Ymd, OutOfBounds> {
    let n: int = match direction {
        RelativeDirection::Future => distance as int,
        RelativeDirection::Past => -(distance as int),
    };
    match unit {
        IntervalUnit::Day => shift_days(cfg.today@, n),
        IntervalUnit::Week => shift_days(cfg.today@, 7 * n),
        IntervalUnit::Month => shift_months(cfg.today@, n),
        IntervalUnit::Year => if 12 * distance > u32::MAX {
            Err(OutOfBounds)
        } else {
            shift_months(cfg.today@, 12 * n)
        },
    }
}

/// A weekday with an optional `next` or `last`.
pub open spec fn relative_weekday_value(
    cfg: ParserConfig,
    direction: Option<RelativeDirection>,
    w: Weekday,
) -> Result<Ymd, OutOfBounds> {
    match direction {
        None => shift_days(cfg.today@, future_weekday_offset(cfg, w)),
        Some(RelativeDirection::Future) => if cfg.next_weekday_means_week {
            weekday_in_week(cfg, w, 1)
        } else {
            shift_days(cfg.today@, future_weekday_offset(cfg, w))
        },
        Some(RelativeDirection::Past) => if cfg.last_weekday_means_week {
            weekday_in_week(cfg, w, -1)
        } else {
            shift_days(cfg.today@, -past_weekday_offset(cfg, w))
        },
    }
}

/// A bare day of the month with an optional `next` or `last`.
pub open spec fn relative_day_of_month_value(
    cfg: ParserConfig,
    direction: Option<RelativeDirection>,
    day: u32,
) -> Result<Ymd, OutOfBounds> {
    match direction {
        None => closest_future_day(cfg, day),
        Some(RelativeDirection::Future) => if cfg.next_day_of_month_means_month {
            day_in_month(cfg, day, 1)
        } else {
            closest_future_day(cfg, day)
        },
        Some(RelativeDirection::Past) => if cfg.last_day_of_month_means_month {
            day_in_month(cfg, day, -1)
        } else {
            closest_past_day(cfg, day)
        },
    }
}

/// A day and month with an optional `next` or `last`.
pub open spec fn relative_partial_date_value(
    cfg: ParserConfig,
    direction: Option<RelativeDirection>,
    day: u32,
    month: Month,
) -> Result<Option<Ymd>, OutOfBounds> {
    match direction {
        None => Ok(closest_future_partial(cfg, day, month)),
        Some(RelativeDirection::Future) => if cfg.next_partial_date_means_year {
            day_in_year(cfg, day, month, 1)
        } else {
            Ok(closest_future_partial(cfg, day, month))
        },
        Some(RelativeDirection::Past) => if cfg.last_partial_date_means_year {
            day_in_year(cfg, day, month, -1)
        } else {
            Ok(closest_past_partial(cfg, day, month))
        },
    }
}

pub open spec fn some_date(r: Result<Ymd, OutOfBounds>) -> Result<Option<Ymd>, OutOfBounds> {
    match r {
        Ok(v) => Ok(Some(v)),
        Err(e) => Err(e),
    }
}

/// A weekday, day or day and month inside a week, month or year relative to
/// today. Month and year distances are read as `i32` the way `as` does.
pub open spec fn relative_interval_date_value(
    cfg: ParserConfig,
    direction: RelativeDirection,
    distance: u32,
    target: RelativeIntervalDateSpec,
) -> Result<Option<Ymd>, OutOfBounds> {
    let k: int = wrap_i32(distance);
    match target {
        RelativeIntervalDateSpec::Weekday { weekday } => match direction {
            RelativeDirection::Future => some_date(weekday_in_week(cfg, weekday, distance as int)),
            RelativeDirection::Past => some_date(weekday_in_week(cfg, weekday, -(distance as int))),
        },
        RelativeIntervalDateSpec::DayOfMonth { day } => match direction {
            RelativeDirection::Future => some_date(day_in_month(cfg, day, k)),
            RelativeDirection::Past => if k == i32::MIN {
                Err(OutOfBounds)
            } else {
                some_date(day_in_month(cfg, day, -k))
            },
        },
        RelativeIntervalDateSpec::DayOfYear { day, month } => match direction {
            RelativeDirection::Future => day_in_year(cfg, day, month, k),
            RelativeDirection::Past => if k == i32::MIN {
                Err(OutOfBounds)
            } else {
                day_in_year(cfg, day, month, -k)
            },
        },
    }
}

/// The date an expression names under `cfg`: `Ok(None)` when it names no
/// existing day, `Err` when the computation leaves the representable dates.
pub open spec fn resolve(cfg: ParserConfig, e: FdateExpression) -> Result<Option<Ymd>, OutOfBounds> {
    match e {
        FdateExpression::Absolute(d) => Ok(Some(d@)),
        FdateExpression::RelativeInterval(iv) => some_date(
            relative_interval_value(cfg, iv.direction, iv.distance, iv.unit),
        ),
        FdateExpression::RelativeWeekday(rw) => some_date(
            relative_weekday_value(cfg, rw.direction, rw.weekday),
        ),
        FdateExpression::RelativeDayOfMonth(rd) => some_date(
            relative_day_of_month_value(cfg, rd.direction, rd.day),
        ),
        FdateExpression::RelativePartialDate(rp) => relative_partial_date_value(
            cfg,
            rp.direction,
            rp.day,
            rp.month,
        ),
        FdateExpression::RelativeIntervalDate(ri) => relative_interval_date_value(
            cfg,
            ri.direction,
            ri.distance,
            ri.target,
        ),
    }
}

/// What parsing `s` gives under `cfg`.
pub open spec fn parse_result(cfg: ParserConfig, s: Seq<char>) -> Result<Option<Ymd>, OutOfBounds> {
    match expression(s) {
        Some(e) => resolve(cfg, e),
        None => Ok(None),
    }
}

// ---------------------------------------------------------------------------
// The parser.
// ---------------------------------------------------------------------------

/// Configurable parser in case defaults don't suit.
pub struct Parser {
    config: ParserConfig,
}

impl View for Parser {
    type V = ParserConfig;

    closed spec fn view(&self) -> ParserConfig {
        self.config
    }
}

fn shift(date: Date, n: i64) -> (r: Result<Date, OutOfBounds>)
    requires
        -crate::chrono_ops::MAX_DELTA_DAYS <= n <= crate::chrono_ops::MAX_DELTA_DAYS,
    ensures
        date_res(r) == shift_days(date@, n as int),
{
    match checked_add_days(date, n) {
        Some(d) => {
            proof {
                use_type_invariant(&d);
                lemma_date_of_day_number(d@);
            }
            Ok(d)
        },
        None => Err(OutOfBounds),
    }
}

fn add_months(date: Date, n: u32) -> (r: Result<Date, OutOfBounds>)
    ensures
        date_res(r) == shift_months(date@, n as int),
{
    match checked_add_months(date, n) {
        Some(d) => Ok(d),
        None => Err(OutOfBounds),
    }
}

fn sub_months(date: Date, n: u32) -> (r: Result<Date, OutOfBounds>)
    ensures
        date_res(r) == shift_months(date@, -(n as int)),
{
    match checked_sub_months(date, n) {
        Some(d) => Ok(d),
        None => Err(OutOfBounds),
    }
}

fn clamp_in_month(month_of: Result<Date, OutOfBounds>, day: u32) -> (r: Result<Date, OutOfBounds>)
    ensures
        date_res(r) == clamp_in_month_of(date_res(month_of), day),
{
    match month_of {
        Ok(m) => {
            proof {
                use_type_invariant(&m);
            }
            from_ymd_clamp(m.year(), m.month(), day)
        },
        Err(e) => Err(e),
    }
}

fn some_of(r: Result<Date, OutOfBounds>) -> (o: Result<Option<Date>, OutOfBounds>)
    ensures
        opt_date_res(o) == some_date(date_res(r)),
{
    match r {
        Ok(d) => Ok(Some(d)),
        Err(e) => Err(e),
    }
}

impl Default for Parser {
    /// A parser with the default settings, today taken from the local clock.
    fn default() -> (r: Parser)
        ensures
            r@ == ParserConfig::defaults(r@.today),
    {
        Parser { config: ParserConfig::default() }
    }
}

impl Parser {
    /// Create [Parser] with default settings that will behave as `fdate::parse`
    /// unless changed.
    pub fn new() -> (r: Parser)
        ensures
            r@ == ParserConfig::defaults(r@.today),
    {
        Parser::default()
    }

    /// Create [Parser] with the provided configuration.
    pub fn with_config(config: ParserConfig) -> (r: Parser)
        ensures
            r@ == config,
    {
        Parser { config }
    }

    /// Set today's date explicitly
    pub fn with_today(&mut self, today: Date) -> (ret: &mut Self)
        ensures
            ret@ == (ParserConfig { today, ..old(self)@ }),
            *final(self) == *final(ret),
    {
        self.config.with_today(today);
        self
    }

    /// First day of week is Monday
    pub fn week_starts_monday(&mut self) -> (ret: &mut Self)
        ensures
            ret@ == (ParserConfig { first_day: FirstDay::Monday, ..old(self)@ }),
            *final(self) == *final(ret),
    {
        self.config.week_starts_monday();
        self
    }

    /// First day of week is Sunday
    pub fn week_starts_sunday(&mut self) -> (ret: &mut Self)
        ensures
            ret@ == (ParserConfig { first_day: FirstDay::Sunday, ..old(self)@ }),
            *final(self) == *final(ret),
    {
        self.config.week_starts_sunday();
        self
    }

    /// `next Wednesday` will be in 8 days if today is Tuesday
    pub fn next_weekday_means_week(&mut self) -> (ret: &mut Self)
        ensures
            ret@ == (ParserConfig { next_weekday_means_week: true, ..old(self)@ }),
            *final(self) == *final(ret),
    {
        self.config.next_weekday_means_week();
        self
    }

    /// `next Wednesday` will be tomorrow if today is Tuesday (default)
    pub fn next_weekday_means_closest(&mut self) -> (ret: &mut Self)
        ensures
            ret@ == (ParserConfig { next_weekday_means_week: false, ..old(self)@ }),
            *final(self) == *final(ret),
    {
        self.config.next_weekday_means_closest();
        self
    }

    /// `next 14th` will be next month if today is 13th
    pub fn next_day_of_month_means_month(&mut self) -> (ret: &mut Self)
        ensures
            ret@ == (ParserConfig { next_day_of_month_means_month: true, ..old(self)@ }),
            *final(self) == *final(ret),
    {
        self.config.next_day_of_month_means_month();
        self
    }

    /// `next 14th` will be tomorrow if today is 13th (default)
    pub fn next_day_of_month_means_closest(&mut self) -> (ret: &mut Self)
        ensures
            ret@ == (ParserConfig { next_day_of_month_means_month: false, ..old(self)@ }),
            *final(self) == *final(ret),
    {
        self.config.next_day_of_month_means_closest();
        self
    }

    /// `next April 14th` will be in 2027 if it's 2026 now
    pub fn next_partial_date_means_year(&mut self) -> (ret: &mut Self)
        ensures
            ret@ == (ParserConfig { next_partial_date_means_year: true, ..old(self)@ }),
            *final(self) == *final(ret),
    {
        self.config.next_partial_date_means_year();
        self
    }

    /// `next April 14th` will be in one month if it's March now (default)
    pub fn next_partial_date_means_closest(&mut self) -> (ret: &mut Self)
        ensures
            ret@ == (ParserConfig { next_partial_date_means_year: false, ..old(self)@ }),
            *final(self) == *final(ret),
    {
        self.config.next_partial_date_means_closest();
        self
    }

    /// `last Wednesday` was 8 days ago if today is Thursday
    pub fn last_weekday_means_week(&mut self) -> (ret: &mut Self)
        ensures
            ret@ == (ParserConfig { last_weekday_means_week: true, ..old(self)@ }),
            *final(self) == *final(ret),
    {
        self.config.last_weekday_means_week();
        self
    }

    /// `last Wednesday` was yesterday if today is Thursday (default)
    pub fn last_weekday_means_closest(&mut self) -> (ret: &mut Self)
        ensures
            ret@ == (ParserConfig { last_weekday_means_week: false, ..old(self)@ }),
            *final(self) == *final(ret),
    {
        self.config.last_weekday_means_closest();
        self
    }

    /// `last 14th` was in the previous month if today is 15th
    pub fn last_day_of_month_means_month(&mut self) -> (ret: &mut Self)
        ensures
            ret@ == (ParserConfig { last_day_of_month_means_month: true, ..old(self)@ }),
            *final(self) == *final(ret),
    {
        self.config.last_day_of_month_means_month();
        self
    }

    /// `last 14th` was yesterday if today is 15th (default)
    pub fn last_day_of_month_means_closest(&mut self) -> (ret: &mut Self)
        ensures
            ret@ == (ParserConfig { last_day_of_month_means_month: false, ..old(self)@ }),
            *final(self) == *final(ret),
    {
        self.config.last_day_of_month_means_closest();
        self
    }

    /// `last April 14th` was in 2025 if it's 2026 now
    pub fn last_partial_date_means_year(&mut self) -> (ret: &mut Self)
        ensures
            ret@ == (ParserConfig { last_partial_date_means_year: true, ..old(self)@ }),
            *final(self) == *final(ret),
    {
        self.config.last_partial_date_means_year();
        self
    }

    /// `last April 14th` was in the previous month if it's May now (default)
    pub fn last_partial_date_means_closest(&mut self) -> (ret: &mut Self)
        ensures
            ret@ == (ParserConfig { last_partial_date_means_year: false, ..old(self)@ }),
            *final(self) == *final(ret),
    {
        self.config.last_partial_date_means_closest();
        self
    }

    /// The parser's settings.
    pub fn config(&self) -> (r: &ParserConfig)
        ensures
            *r == self@,
    {
        &self.config
    }

    /// Attempts to parse input into a date.
    ///
    /// Expressions that reach past the years a [`Date`] can hold (such as
    /// `in 400000 years`) are not accepted here; [`Parser::try_parse`] tells
    /// them apart.
    pub fn parse(&self, input: &str) -> (r: Option<Date>)
        requires
            parse_result(self@, input@) is Ok,
        ensures
            Ok::<Option<Ymd>, OutOfBounds>(opt_date(r)) == parse_result(self@, input@),
    {
        match self.try_parse(input) {
            Ok(r) => r,
            Err(_) => None,
        }
    }

    /// Parses input into a date; `Err` when the date it names lies outside the
    /// years a [`Date`] can hold or one of its numbers overflows.
    pub fn try_parse(&self, input: &str) -> (r: Result<Option<Date>, OutOfBounds>)
        ensures
            opt_date_res(r) == parse_result(self@, input@),
    {
        match FdateExpression::parse(input) {
            Some(e) => self.resolve(e),
            None => Ok(None),
        }
    }

    /// The date an already parsed expression names.
    pub fn resolve(&self, e: FdateExpression) -> (r: Result<Option<Date>, OutOfBounds>)
        ensures
            opt_date_res(r) == resolve(self@, e),
    {
        match e {
            FdateExpression::Absolute(d) => Ok(Some(d)),
            FdateExpression::RelativeInterval(iv) => some_of(
                self.apply_relative_interval(iv.direction, iv.distance, iv.unit),
            ),
            FdateExpression::RelativeWeekday(rw) => some_of(
                self.apply_relative_weekday(rw.direction, rw.weekday),
            ),
            FdateExpression::RelativeDayOfMonth(rd) => some_of(
                self.apply_relative_day_of_month(rd.direction, rd.day),
            ),
            FdateExpression::RelativePartialDate(rp) => self.apply_relative_partial_date(
                rp.direction,
                rp.day,
                rp.month,
            ),
            FdateExpression::RelativeIntervalDate(ri) => self.apply_relative_interval_date(
                ri.direction,
                ri.distance,
                ri.target,
            ),
        }
    }

    pub fn apply_relative_interval(
        &self,
        direction: RelativeDirection,
        distance: u32,
        unit: IntervalUnit,
    ) -> (r: Result<Date, OutOfBounds>)
        ensures
            date_res(r) == relative_interval_value(self@, direction, distance, unit),
    {
        let today: Date = self.config.today;
        match direction {
            RelativeDirection::Future => match unit {
                IntervalUnit::Day => shift(today, distance as i64),
                IntervalUnit::Week => shift(today, 7 * (distance as i64)),
                IntervalUnit::Month => add_months(today, distance),
                IntervalUnit::Year => match distance.checked_mul(12) {
                    Some(months) => add_months(today, months),
                    None => Err(OutOfBounds),
                },
            },
            RelativeDirection::Past => match unit {
                IntervalUnit::Day => shift(today, -(distance as i64)),
                IntervalUnit::Week => shift(today, -7 * (distance as i64)),
                IntervalUnit::Month => sub_months(today, distance),
                IntervalUnit::Year => match distance.checked_mul(12) {
                    Some(months) => sub_months(today, months),
                    None => Err(OutOfBounds),
                },
            },
        }
    }

    pub fn apply_relative_weekday(&self, direction: Option<RelativeDirection>, weekday: Weekday) -> (r:
        Result<Date, OutOfBounds>)
        ensures
            date_res(r) == relative_weekday_value(self@, direction, weekday),
    {
        let today: Date = self.config.today;
        match direction {
            None => shift(today, self.closest_future_weekday_offset(weekday)),
            Some(RelativeDirection::Future) => {
                if self.config.next_weekday_means_week {
                    self.try_weekday_in_relative_week(weekday, 1)
                } else {
                    shift(today, self.closest_future_weekday_offset(weekday))
                }
            },
            Some(RelativeDirection::Past) => {
                if self.config.last_weekday_means_week {
                    self.try_weekday_in_relative_week(weekday, -1)
                } else {
                    shift(today, -self.closest_past_weekday_offset(weekday))
                }
            },
        }
    }

    pub fn apply_relative_day_of_month(&self, direction: Option<RelativeDirection>, day: u32) -> (r:
        Result<Date, OutOfBounds>)
        ensures
            date_res(r) == relative_day_of_month_value(self@, direction, day),
    {
        match direction {
            None => self.try_closest_future_day_of_month(day),
            Some(RelativeDirection::Future) => {
                if self.config.next_day_of_month_means_month {
                    self.day_in_relative_month(day, 1)
                } else {
                    self.try_closest_future_day_of_month(day)
                }
            },
            Some(RelativeDirection::Past) => {
                if self.config.last_day_of_month_means_month {
                    self.day_in_relative_month(day, -1)
                } else {
                    self.try_closest_past_day_of_month(day)
                }
            },
        }
    }

    pub fn apply_relative_partial_date(
        &self,
        direction: Option<RelativeDirection>,
        day: u32,
        month: Month,
    ) -> (r: Result<Option<Date>, OutOfBounds>)
        ensures
            opt_date_res(r) == relative_partial_date_value(self@, direction, day, month),
    {
        match direction {
            None => Ok(self.closest_future_partial_date(day, month)),
            Some(RelativeDirection::Future) => {
                if self.config.next_partial_date_means_year {
                    self.day_in_relative_year(day, month, 1)
                } else {
                    Ok(self.closest_future_partial_date(day, month))
                }
            },
            Some(RelativeDirection::Past) => {
                if self.config.last_partial_date_means_year {
                    self.day_in_relative_year(day, month, -1)
                } else {
                    Ok(self.closest_past_partial_date(day, month))
                }
            },
        }
    }

    pub fn apply_relative_interval_date(
        &self,
        direction: RelativeDirection,
        distance: u32,
        target: RelativeIntervalDateSpec,
    ) -> (r: Result<Option<Date>, OutOfBounds>)
        ensures
            opt_date_res(r) == relative_interval_date_value(self@, direction, distance, target),
    {
        let k: i32 = as_i32_wrapping(distance);
        match target {
            RelativeIntervalDateSpec::Weekday { weekday } => match direction {
                RelativeDirection::Future => some_of(
                    self.try_weekday_in_relative_week(weekday, distance as i64),
                ),
                RelativeDirection::Past => some_of(
                    self.try_weekday_in_relative_week(weekday, -(distance as i64)),
                ),
            },
            RelativeIntervalDateSpec::DayOfMonth { day } => match direction {
                RelativeDirection::Future => some_of(self.day_in_relative_month(day, k)),
                RelativeDirection::Past => if k == i32::MIN {
                    Err(OutOfBounds)
                } else {
                    some_of(self.day_in_relative_month(day, -k))
                },
            },
            RelativeIntervalDateSpec::DayOfYear { day, month } => match direction {
                RelativeDirection::Future => self.day_in_relative_year(day, month, k),
                RelativeDirection::Past => if k == i32::MIN {
                    Err(OutOfBounds)
                } else {
                    self.day_in_relative_year(day, month, -k)
                },
            },
        }
    }

    /// Today's position in the configured week.
    fn today_index(&self) -> (r: u32)
        ensures
            r == weekday_index_of(self@, today_weekday(self@)),
            r < 7,
    {
        let n: u32 = weekday_from_monday(self.config.today);
        self.weekday_index(Weekday::from_monday_index(n))
    }

    pub fn closest_future_weekday_offset(&self, weekday: Weekday) -> (r: i64)
        ensures
            r == future_weekday_offset(self@, weekday),
            1 <= r <= 7,
    {
        let current: u32 = self.today_index();
        let target: u32 = self.weekday_index(weekday);
        let delta: u32 = (target + 7 - current) % 7;
        if delta == 0 {
            7
        } else {
            delta as i64
        }
    }

    pub fn closest_past_weekday_offset(&self, weekday: Weekday) -> (r: i64)
        ensures
            r == past_weekday_offset(self@, weekday),
            1 <= r <= 7,
    {
        let current: u32 = self.today_index();
        let target: u32 = self.weekday_index(weekday);
        let delta: u32 = (current + 7 - target) % 7;
        if delta == 0 {
            7
        } else {
            delta as i64
        }
    }

    /// Weekday `weekday` of the week `week_offset` weeks from the current one.
    pub fn try_weekday_in_relative_week(&self, weekday: Weekday, week_offset: i64) -> (r: Result<
        Date,
        OutOfBounds,
    >)
        requires
            -(u32::MAX as int) <= week_offset <= u32::MAX,
        ensures
            date_res(r) == weekday_in_week(self@, weekday, week_offset as int),
    {
        let start_of_current_week = shift(self.config.today, -(self.today_index() as i64));
        let start_of_target_week = match start_of_current_week {
            Ok(start) => shift(start, 7 * week_offset),
            Err(e) => Err(e),
        };
        match start_of_target_week {
            Ok(start) => shift(start, self.weekday_index(weekday) as i64),
            Err(e) => Err(e),
        }
    }

    /// Weekday `weekday` of the week `week_offset` weeks from the current one.
    pub fn weekday_in_relative_week(&self, weekday: Weekday, week_offset: i64) -> (r: Date)
        requires
            -(u32::MAX as int) <= week_offset <= u32::MAX,
            weekday_in_week(self@, weekday, week_offset as int) is Ok,
        ensures
            Ok::<Ymd, OutOfBounds>(r@) == weekday_in_week(self@, weekday, week_offset as int),
    {
        match self.try_weekday_in_relative_week(weekday, week_offset) {
            Ok(d) => d,
            Err(_) => self.config.today,
        }
    }

    /// The position of `weekday` in the configured week.
    pub fn weekday_index(&self, weekday: Weekday) -> (r: u32)
        ensures
            r == weekday_index_of(self@, weekday),
            r < 7,
    {
        match self.config.first_day {
            FirstDay::Monday => weekday.num_days_from_monday(),
            FirstDay::Sunday => weekday.num_days_from_sunday(),
        }
    }

    pub fn try_closest_future_day_of_month(&self, day: u32) -> (r: Result<Date, OutOfBounds>)
        ensures
            date_res(r) == closest_future_day(self@, day),
    {
        let today: Date = self.config.today;
        proof {
            use_type_invariant(&today);
        }
        let target_day = match from_ymd_clamp(today.year(), today.month(), day) {
            Ok(t) => t,
            Err(e) => return Err(e),
        };
        if today.is_before(&target_day) {
            Ok(target_day)
        } else {
            clamp_in_month(add_months(target_day, 1), day)
        }
    }

    /// The closest day `day` (clamped to shorter months) after today.
    pub fn closest_future_day_of_month(&self, day: u32) -> (r: Date)
        requires
            closest_future_day(self@, day) is Ok,
        ensures
            Ok::<Ymd, OutOfBounds>(r@) == closest_future_day(self@, day),
    {
        match self.try_closest_future_day_of_month(day) {
            Ok(d) => d,
            Err(_) => self.config.today,
        }
    }

    pub fn try_closest_past_day_of_month(&self, day: u32) -> (r: Result<Date, OutOfBounds>)
        ensures
            date_res(r) == closest_past_day(self@, day),
    {
        let today: Date = self.config.today;
        proof {
            use_type_invariant(&today);
        }
        let target_day = match from_ymd_clamp(today.year(), today.month(), day) {
            Ok(t) => t,
            Err(e) => return Err(e),
        };
        if target_day.is_before(&today) {
            Ok(target_day)
        } else {
            clamp_in_month(sub_months(target_day, 1), day)
        }
    }

    /// The closest day `day` (clamped to shorter months) before today.
    pub fn closest_past_day_of_month(&self, day: u32) -> (r: Date)
        requires
            closest_past_day(self@, day) is Ok,
        ensures
            Ok::<Ymd, OutOfBounds>(r@) == closest_past_day(self@, day),
    {
        match self.try_closest_past_day_of_month(day) {
            Ok(d) => d,
            Err(_) => self.config.today,
        }
    }

    pub fn day_in_relative_month(&self, day: u32, month_offset: i32) -> (r: Result<Date, OutOfBounds>)
        ensures
            date_res(r) == day_in_month(self@, day, month_offset as int),
    {
        let today: Date = self.config.today;
        let target_month = if month_offset > 0 {
            add_months(today, month_offset as u32)
        } else {
            let back: u32 = if month_offset == i32::MIN {
                0x8000_0000u32
            } else {
                (-month_offset) as u32
            };
            sub_months(today, back)
        };
        clamp_in_month(target_month, day)
    }

    pub fn closest_future_partial_date(&self, day: u32, month: Month) -> (r: Option<Date>)
        ensures
            opt_date(r) == closest_future_partial(self@, day, month),
    {
        let today: Date = self.config.today;
        let target_date = match ymd_opt(today.year(), month.number_from_month(), day) {
            Some(t) => t,
            None => return None,
        };
        proof {
            use_type_invariant(&today);
        }
        if today.is_before(&target_date) {
            Some(target_date)
        } else {
            with_year(target_date, today.year() + 1)
        }
    }

    pub fn closest_past_partial_date(&self, day: u32, month: Month) -> (r: Option<Date>)
        ensures
            opt_date(r) == closest_past_partial(self@, day, month),
    {
        let today: Date = self.config.today;
        let target_date = match ymd_opt(today.year(), month.number_from_month(), day) {
            Some(t) => t,
            None => return None,
        };
        proof {
            use_type_invariant(&today);
        }
        if target_date.is_before(&today) {
            Some(target_date)
        } else {
            with_year(target_date, today.year() - 1)
        }
    }

    pub fn day_in_relative_year(&self, day: u32, month: Month, year_offset: i32) -> (r: Result<
        Option<Date>,
        OutOfBounds,
    >)
        ensures
            opt_date_res(r) == day_in_year(self@, day, month, year_offset as int),
    {
        let year: i32 = self.config.today.year();
        match year.checked_add(year_offset) {
            Some(y) => Ok(ymd_opt(y, month.number_from_month(), day)),
            None => Err(OutOfBounds),
        }
    }
}

fn as_i32_wrapping(v: u32) -> (r: i32)
    ensures
        r == wrap_i32(v),
{
    if v <= 0x7fff_ffff {
        v as i32
    } else {
        let low: i32 = (v - 0x8000_0000u32) as i32;
        low - 0x7fff_ffff - 1
    }
}

} // verus!

//! How relative expressions are read: which day starts a week, what `next`
//! and `last` mean, and which day is today.
use vstd::prelude::*;

use crate::calendar::Date;
use crate::chrono_ops::local_today;

verus! {

/// The first day of a week.
#[derive(Clone, Copy, Debug, PartialEq, Eq, Structural)]
pub enum FirstDay {
    Monday,
    Sunday,
}

impl Default for FirstDay {
    fn default() -> (r: FirstDay)
        ensures
            r == FirstDay::Monday,
    {
        FirstDay::Monday
    }
}

/// The settings of a [`crate::Parser`].
///
/// By default a week starts on Monday, and `next`/`last` mean the closest
/// occurrence other than today; each `*_means_*` flag switches one kind of
/// expression to calendar weeks, months or years instead.
#[derive(Clone, Copy, Debug, PartialEq, Eq, Structural)]
pub struct ParserConfig {
    pub first_day: FirstDay,
    pub next_weekday_means_week: bool,
    pub next_day_of_month_means_month: bool,
    pub next_partial_date_means_year: bool,
    pub last_weekday_means_week: bool,
    pub last_day_of_month_means_month: bool,
    pub last_partial_date_means_year: bool,
    pub today: Date,
}

impl ParserConfig {
    /// The default settings, with `today` as the date of today.
    pub open spec fn defaults(today: Date) -> ParserConfig {
        ParserConfig {
            first_day: FirstDay::Monday,
            next_weekday_means_week: false,
            next_day_of_month_means_month: false,
            next_partial_date_means_year: false,
            last_weekday_means_week: false,
            last_day_of_month_means_month: false,
            last_partial_date_means_year: false,
            today,
        }
    }
}

impl Default for ParserConfig {
    /// The default settings, with today's date taken from the local clock.
    fn default() -> (r: ParserConfig)
        ensures
            r == ParserConfig::defaults(r.today),
    {
        ParserConfig {
            first_day: FirstDay::Monday,
            next_weekday_means_week: false,
            next_day_of_month_means_month: false,
            next_partial_date_means_year: false,
            last_weekday_means_week: false,
            last_day_of_month_means_month: false,
            last_partial_date_means_year: false,
            today: local_today(),
        }
    }
}

impl ParserConfig {
    /// The default settings, with today's date taken from the local clock.
    pub fn new() -> (r: ParserConfig)
        ensures
            r == ParserConfig::defaults(r.today),
    {
        ParserConfig::default()
    }

    /// Set today's date explicitly
    pub fn with_today(&mut self, today: Date) -> (ret: &mut Self)
        ensures
            *ret == (ParserConfig { today, ..*old(self) }),
            *final(self) == *final(ret),
    {
        self.today = today;
        self
    }

    /// First day of week is Monday
    pub fn week_starts_monday(&mut self) -> (ret: &mut Self)
        ensures
            *ret == (ParserConfig { first_day: FirstDay::Monday, ..*old(self) }),
            *final(self) == *final(ret),
    {
        self.first_day = FirstDay::Monday;
        self
    }

    /// First day of week is Sunday
    pub fn week_starts_sunday(&mut self) -> (ret: &mut Self)
        ensures
            *ret == (ParserConfig { first_day: FirstDay::Sunday, ..*old(self) }),
            *final(self) == *final(ret),
    {
        self.first_day = FirstDay::Sunday;
        self
    }

    /// `next Wednesday` will be in 8 days if today is Tuesday
    pub fn next_weekday_means_week(&mut self) -> (ret: &mut Self)
        ensures
            *ret == (ParserConfig { next_weekday_means_week: true, ..*old(self) }),
            *final(self) == *final(ret),
    {
        self.next_weekday_means_week = true;
        self
    }

    /// `next Wednesday` will be tomorrow if today is Tuesday (default)
    pub fn next_weekday_means_closest(&mut self) -> (ret: &mut Self)
        ensures
            *ret == (ParserConfig { next_weekday_means_week: false, ..*old(self) }),
            *final(self) == *final(ret),
    {
        self.next_weekday_means_week = false;
        self
    }

    /// `next 14th` will be next month if today is 13th (in ~31 days)
    pub fn next_day_of_month_means_month(&mut self) -> (ret: &mut Self)
        ensures
            *ret == (ParserConfig { next_day_of_month_means_month: true, ..*old(self) }),
            *final(self) == *final(ret),
    {
        self.next_day_of_month_means_month = true;
        self
    }

    /// `next 14th` will be tomorrow if today is 13th (default)
    pub fn next_day_of_month_means_closest(&mut self) -> (ret: &mut Self)
        ensures
            *ret == (ParserConfig { next_day_of_month_means_month: false, ..*old(self) }),
            *final(self) == *final(ret),
    {
        self.next_day_of_month_means_month = false;
        self
    }

    /// `next April 14th` will be in 2027 if it's 2026 now
    pub fn next_partial_date_means_year(&mut self) -> (ret: &mut Self)
        ensures
            *ret == (ParserConfig { next_partial_date_means_year: true, ..*old(self) }),
            *final(self) == *final(ret),
    {
        self.next_partial_date_means_year = true;
        self
    }

    /// `next April 14th` will be in one month if it's March now (default).
    pub fn next_partial_date_means_closest(&mut self) -> (ret: &mut Self)
        ensures
            *ret == (ParserConfig { next_partial_date_means_year: false, ..*old(self) }),
            *final(self) == *final(ret),
    {
        self.next_partial_date_means_year = false;
        self
    }

    /// `last Wednesday` was 8 days ago if today is Thursday
    pub fn last_weekday_means_week(&mut self) -> (ret: &mut Self)
        ensures
            *ret == (ParserConfig { last_weekday_means_week: true, ..*old(self) }),
            *final(self) == *final(ret),
    {
        self.last_weekday_means_week = true;
        self
    }

    /// `last Wednesday` was yesterday if today is Thursday (default)
    pub fn last_weekday_means_closest(&mut self) -> (ret: &mut Self)
        ensures
            *ret == (ParserConfig { last_weekday_means_week: false, ..*old(self) }),
            *final(self) == *final(ret),
    {
        self.last_weekday_means_week = false;
        self
    }

    /// `last 14th` was in the previous month if today is 15th (in ~31 days)
    pub fn last_day_of_month_means_month(&mut self) -> (ret: &mut Self)
        ensures
            *ret == (ParserConfig { last_day_of_month_means_month: true, ..*old(self) }),
            *final(self) == *final(ret),
    {
        self.last_day_of_month_means_month = true;
        self
    }

    /// `last 14th` was yesterday if today is 15th (default)
    pub fn last_day_of_month_means_closest(&mut self) -> (ret: &mut Self)
        ensures
            *ret == (ParserConfig { last_day_of_month_means_month: false, ..*old(self) }),
            *final(self) == *final(ret),
    {
        self.last_day_of_month_means_month = false;
        self
    }

    /// `last April 14th` was in 2025 if it's 2026 now
    pub fn last_partial_date_means_year(&mut self) -> (ret: &mut Self)
        ensures
            *ret == (ParserConfig { last_partial_date_means_year: true, ..*old(self) }),
            *final(self) == *final(ret),
    {
        self.last_partial_date_means_year = true;
        self
    }

    /// `last April 14th` was in the previous month if it's May now (default).
    pub fn last_partial_date_means_closest(&mut self) -> (ret: &mut Self)
        ensures
            *ret == (ParserConfig { last_partial_date_means_year: false, ..*old(self) }),
            *final(self) == *final(ret),
    {
        self.last_partial_date_means_year = false;
        self
    }
}

} // verus!

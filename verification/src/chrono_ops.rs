//! The calls into `chrono` that the date arithmetic rests on. Each function
//! turns a [`Date`] into a `chrono::NaiveDate`, makes one call, and turns the
//! answer back; its contract states what chrono's documentation and source say
//! the call returns, in terms of the calendar of [`crate::calendar`].
use chrono::Datelike;
use vstd::prelude::*;

use crate::calendar::{
    add_months_ymd, day_in_range, day_number, days_in_month, valid_ymd, weekday_number,
    year_in_range, Date,
};

verus! {

/// The largest number of whole days that `chrono::TimeDelta::days` accepts
/// (`i64::MAX` milliseconds); it panics beyond it.
pub(crate) const MAX_DELTA_DAYS: i64 = 106751991167;

/// `chrono::NaiveDate::from_ymd_opt`: the date with the given year, month and
/// day, or `None` when that day does not exist or its year is out of range.
#[verifier::external_body]
pub(crate) fn ymd_opt(year: i32, month: u32, day: u32) -> (r: Option<Date>)
    ensures
        r is Some <==> valid_ymd((year as int, month as int, day as int)),
        r matches Some(d) ==> d@ == (year as int, month as int, day as int),
{
    match chrono::NaiveDate::from_ymd_opt(year, month, day) {
        Some(nd) => Some(Date { year: nd.year(), month: nd.month(), day: nd.day() }),
        None => None,
    }
}

/// `chrono::NaiveDate::checked_add_signed` with `chrono::TimeDelta::days(days)`:
/// the date `days` days later (earlier when negative), or `None` when that day
/// is out of range.
#[verifier::external_body]
pub(crate) fn checked_add_days(date: Date, days: i64) -> (r: Option<Date>)
    requires
        -MAX_DELTA_DAYS <= days <= MAX_DELTA_DAYS,
    ensures
        r is Some <==> day_in_range(day_number(date@) + days),
        r matches Some(d) ==> day_number(d@) == day_number(date@) + days,
{
    let nd = chrono::NaiveDate::from_ymd_opt(date.year, date.month, date.day).unwrap();
    match nd.checked_add_signed(chrono::TimeDelta::days(days)) {
        Some(nd) => Some(Date { year: nd.year(), month: nd.month(), day: nd.day() }),
        None => None,
    }
}

/// `chrono::NaiveDate::checked_add_months`: the date `months` months later,
/// its day clamped to the last day of a shorter month, or `None` when the
/// result is out of range.
#[verifier::external_body]
pub(crate) fn checked_add_months(date: Date, months: u32) -> (r: Option<Date>)
    ensures
        r is Some <==> year_in_range(add_months_ymd(date@, months as int).0),
        r matches Some(d) ==> d@ == add_months_ymd(date@, months as int),
{
    let nd = chrono::NaiveDate::from_ymd_opt(date.year, date.month, date.day).unwrap();
    match nd.checked_add_months(chrono::Months::new(months)) {
        Some(nd) => Some(Date { year: nd.year(), month: nd.month(), day: nd.day() }),
        None => None,
    }
}

/// `chrono::NaiveDate::checked_sub_months`: the date `months` months earlier,
/// its day clamped to the last day of a shorter month, or `None` when the
/// result is out of range.
#[verifier::external_body]
pub(crate) fn checked_sub_months(date: Date, months: u32) -> (r: Option<Date>)
    ensures
        r is Some <==> year_in_range(add_months_ymd(date@, -(months as int)).0),
        r matches Some(d) ==> d@ == add_months_ymd(date@, -(months as int)),
{
    let nd = chrono::NaiveDate::from_ymd_opt(date.year, date.month, date.day).unwrap();
    match nd.checked_sub_months(chrono::Months::new(months)) {
        Some(nd) => Some(Date { year: nd.year(), month: nd.month(), day: nd.day() }),
        None => None,
    }
}

/// `chrono::Datelike::with_year`: the same month and day in `year`, or `None`
/// when that day does not exist there or the year is out of range.
#[verifier::external_body]
pub(crate) fn with_year(date: Date, year: i32) -> (r: Option<Date>)
    ensures
        r is Some <==> valid_ymd((year as int, date@.1, date@.2)),
        r matches Some(d) ==> d@ == (year as int, date@.1, date@.2),
{
    let nd = chrono::NaiveDate::from_ymd_opt(date.year, date.month, date.day).unwrap();
    match nd.with_year(year) {
        Some(nd) => Some(Date { year: nd.year(), month: nd.month(), day: nd.day() }),
        None => None,
    }
}

/// `chrono::Datelike::weekday` followed by `chrono::Weekday::num_days_from_monday`:
/// 0 for a Monday up to 6 for a Sunday.
#[verifier::external_body]
pub(crate) fn weekday_from_monday(date: Date) -> (r: u32)
    ensures
        r == weekday_number(date@),
{
    chrono::NaiveDate::from_ymd_opt(date.year, date.month, date.day).unwrap().weekday().num_days_from_monday()
}

/// `chrono::Month::try_from` followed by `chrono::Month::num_days`: the number
/// of days of month `month` in `year`.
#[verifier::external_body]
pub(crate) fn month_num_days(year: i32, month: u32) -> (r: u32)
    requires
        1 <= month <= 12,
        year_in_range(year as int),
    ensures
        r == days_in_month(year as int, month as int),
{
    chrono::Month::try_from(month as u8).unwrap().num_days(year).unwrap() as u32
}

/// `chrono::Local::now` followed by `chrono::DateTime::date_naive`: the date
/// today in the machine's time zone. Nothing is promised of which date it is.
#[verifier::external_body]
pub(crate) fn local_today() -> (r: Date) {
    let nd = chrono::Local::now().date_naive();
    Date { year: nd.year(), month: nd.month(), day: nd.day() }
}

} // verus!

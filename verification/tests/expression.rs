use fdate::{Date, Month, Weekday};
use fdate::parser::syntax::common::{IntervalUnit, RelativeDirection};
use fdate::parser::syntax::interval::RelativeInterval;
use fdate::parser::syntax::partial_date::RelativePartialDate;
use fdate::parser::syntax::relative_interval_date::{RelativeIntervalDate, RelativeIntervalDateSpec};
use fdate::parser::syntax::relative_weekday::RelativeWeekday;
use fdate::parser::syntax::FdateExpression;

#[test]
fn parses_absolute_expressions() {
    assert_eq!(
        FdateExpression::parse("2000-10-10"),
        Some(FdateExpression::Absolute(
            Date::from_ymd_opt(2000, 10, 10).unwrap()
        ))
    );
}

#[test]
fn parses_relative_interval_expressions() {
    assert_eq!(
        FdateExpression::parse("a week ago"),
        Some(FdateExpression::RelativeInterval(RelativeInterval {
            direction: RelativeDirection::Past,
            distance: 1,
            unit: IntervalUnit::Week,
        }))
    );
}

#[test]
fn parses_relative_weekday_expressions() {
    assert_eq!(
        FdateExpression::parse("next monday"),
        Some(FdateExpression::RelativeWeekday(RelativeWeekday {
            direction: Some(RelativeDirection::Future),
            weekday: Weekday::Mon,
        }))
    );
}

#[test]
fn parses_relative_day_of_month_expressions() {
    assert_eq!(
        FdateExpression::parse("last april 14"),
        Some(FdateExpression::RelativePartialDate(RelativePartialDate {
            direction: Some(RelativeDirection::Past),
            day: 14,
            month: Month::April,
        }))
    );
}

#[test]
fn parses_relative_interval_date_expressions() {
    assert_eq!(
        FdateExpression::parse("monday this week"),
        Some(FdateExpression::RelativeIntervalDate(
            RelativeIntervalDate {
                direction: RelativeDirection::Future,
                distance: 0,
                target: RelativeIntervalDateSpec::Weekday {
                    weekday: Weekday::Mon,
                },
            }
        ))
    );
}

#[test]
fn rejects_inputs_with_trailing_text() {
    assert_eq!(FdateExpression::parse("today please"), None);
    assert_eq!(FdateExpression::parse("monday this week please"), None);
}

#[test]
fn rejects_invalid_inputs() {
    assert_eq!(FdateExpression::parse("hello"), None);
    assert_eq!(FdateExpression::parse("next"), None);
}

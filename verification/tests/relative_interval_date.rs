use fdate::{Month, Weekday};
use fdate::parser::syntax::common::RelativeDirection;
use fdate::parser::syntax::relative_interval_date::{
    parse_relative_interval_date, parse_relative_month_interval_day_of_month,
    parse_relative_week_interval_weekday, parse_relative_year_interval_day_of_year,
    RelativeIntervalDate, RelativeIntervalDateSpec,
};

#[test]
fn relative_interval_date_parses_this_week_weekdays() {
    assert_eq!(
        parse_relative_week_interval_weekday("monday this week"),
        Ok((
            "",
            RelativeIntervalDate {
                direction: RelativeDirection::Future,
                distance: 0,
                target: RelativeIntervalDateSpec::Weekday {
                    weekday: Weekday::Mon,
                },
            },
        ))
    );
    assert_eq!(
        parse_relative_week_interval_weekday("Thu this week"),
        Ok((
            "",
            RelativeIntervalDate {
                direction: RelativeDirection::Future,
                distance: 0,
                target: RelativeIntervalDateSpec::Weekday {
                    weekday: Weekday::Thu,
                },
            },
        ))
    );
}

#[test]
fn relative_interval_date_parses_relative_week_intervals() {
    assert_eq!(
        parse_relative_week_interval_weekday("friday in 2 weeks"),
        Ok((
            "",
            RelativeIntervalDate {
                direction: RelativeDirection::Future,
                distance: 2,
                target: RelativeIntervalDateSpec::Weekday {
                    weekday: Weekday::Fri,
                },
            },
        ))
    );
    assert_eq!(
        parse_relative_week_interval_weekday("tuesday a week ago"),
        Ok((
            "",
            RelativeIntervalDate {
                direction: RelativeDirection::Past,
                distance: 1,
                target: RelativeIntervalDateSpec::Weekday {
                    weekday: Weekday::Tue,
                },
            },
        ))
    );
}

#[test]
fn relative_interval_date_leaves_remaining_input_for_larger_parsers() {
    assert_eq!(
        parse_relative_week_interval_weekday("wednesday this week please"),
        Ok((
            " please",
            RelativeIntervalDate {
                direction: RelativeDirection::Future,
                distance: 0,
                target: RelativeIntervalDateSpec::Weekday {
                    weekday: Weekday::Wed,
                },
            },
        ))
    );
}

#[test]
fn relative_interval_date_rejects_non_week_intervals() {
    assert!(parse_relative_week_interval_weekday("monday in 2 months").is_err());
    assert!(parse_relative_week_interval_weekday("monday today").is_err());
    assert!(parse_relative_week_interval_weekday("hello this week").is_err());
}

#[test]
fn parses_this_month_days() {
    assert_eq!(
        parse_relative_month_interval_day_of_month("14th this month"),
        Ok((
            "",
            RelativeIntervalDate {
                direction: RelativeDirection::Future,
                distance: 0,
                target: RelativeIntervalDateSpec::DayOfMonth { day: 14 },
            },
        ))
    );
}

#[test]
fn parses_relative_month_intervals() {
    assert_eq!(
        parse_relative_month_interval_day_of_month("17 in 2 months"),
        Ok((
            "",
            RelativeIntervalDate {
                direction: RelativeDirection::Future,
                distance: 2,
                target: RelativeIntervalDateSpec::DayOfMonth { day: 17 },
            },
        ))
    );
    assert_eq!(
        parse_relative_month_interval_day_of_month("10 a month ago"),
        Ok((
            "",
            RelativeIntervalDate {
                direction: RelativeDirection::Past,
                distance: 1,
                target: RelativeIntervalDateSpec::DayOfMonth { day: 10 },
            },
        ))
    );
}

#[test]
fn rejects_non_month_intervals() {
    assert!(parse_relative_month_interval_day_of_month("14th this week").is_err());
    assert!(parse_relative_month_interval_day_of_month("hello this month").is_err());
}

#[test]
fn parses_this_year_days() {
    assert_eq!(
        parse_relative_year_interval_day_of_year("1st may this year"),
        Ok((
            "",
            RelativeIntervalDate {
                direction: RelativeDirection::Future,
                distance: 0,
                target: RelativeIntervalDateSpec::DayOfYear {
                    day: 1,
                    month: Month::May,
                },
            },
        ))
    );
}

#[test]
fn parses_relative_year_intervals() {
    assert_eq!(
        parse_relative_year_interval_day_of_year("10th july in 2 years"),
        Ok((
            "",
            RelativeIntervalDate {
                direction: RelativeDirection::Future,
                distance: 2,
                target: RelativeIntervalDateSpec::DayOfYear {
                    day: 10,
                    month: Month::July,
                },
            },
        ))
    );
    assert_eq!(
        parse_relative_year_interval_day_of_year("may 1 a year ago"),
        Ok((
            "",
            RelativeIntervalDate {
                direction: RelativeDirection::Past,
                distance: 1,
                target: RelativeIntervalDateSpec::DayOfYear {
                    day: 1,
                    month: Month::May,
                },
            },
        ))
    );
}

#[test]
fn rejects_non_year_intervals() {
    assert!(parse_relative_year_interval_day_of_year("1st may this month").is_err());
    assert!(parse_relative_year_interval_day_of_year("14th this year").is_err());
}

#[test]
fn parses_relative_interval_dates() {
    assert!(parse_relative_interval_date("monday this week").is_ok());
    assert!(parse_relative_interval_date("14th this month").is_ok());
    assert!(parse_relative_interval_date("1st may this year").is_ok());
}

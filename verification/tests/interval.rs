use fdate::parser::syntax::common::{IntervalUnit, RelativeDirection};
use fdate::parser::syntax::interval::{
    parse_explicit_non_literal_relative_interval, parse_non_literal_relative_interval,
    parse_relative_interval, RelativeInterval,
};

#[test]
fn interval_parses_relative_interval_literals() {
    assert_eq!(
        parse_relative_interval("today"),
        Ok((
            "",
            RelativeInterval {
                direction: RelativeDirection::Future,
                distance: 0,
                unit: IntervalUnit::Day,
            },
        ))
    );
    assert_eq!(
        parse_relative_interval("tomorrow"),
        Ok((
            "",
            RelativeInterval {
                direction: RelativeDirection::Future,
                distance: 1,
                unit: IntervalUnit::Day,
            },
        ))
    );
    assert_eq!(
        parse_relative_interval("yesterday"),
        Ok((
            "",
            RelativeInterval {
                direction: RelativeDirection::Past,
                distance: 1,
                unit: IntervalUnit::Day,
            },
        ))
    );
}

#[test]
fn interval_parses_future_relative_intervals() {
    assert_eq!(
        parse_relative_interval("in 3 days"),
        Ok((
            "",
            RelativeInterval {
                direction: RelativeDirection::Future,
                distance: 3,
                unit: IntervalUnit::Day,
            },
        ))
    );
    assert_eq!(
        parse_relative_interval("in a week"),
        Ok((
            "",
            RelativeInterval {
                direction: RelativeDirection::Future,
                distance: 1,
                unit: IntervalUnit::Week,
            },
        ))
    );
    assert_eq!(
        parse_relative_interval("month"),
        Ok((
            "",
            RelativeInterval {
                direction: RelativeDirection::Future,
                distance: 1,
                unit: IntervalUnit::Month,
            },
        ))
    );
}

#[test]
fn interval_parses_past_relative_intervals() {
    assert_eq!(
        parse_relative_interval("2 years ago"),
        Ok((
            "",
            RelativeInterval {
                direction: RelativeDirection::Past,
                distance: 2,
                unit: IntervalUnit::Year,
            },
        ))
    );
    assert_eq!(
        parse_relative_interval("a month ago"),
        Ok((
            "",
            RelativeInterval {
                direction: RelativeDirection::Past,
                distance: 1,
                unit: IntervalUnit::Month,
            },
        ))
    );
    assert_eq!(
        parse_relative_interval("a week ago"),
        Ok((
            "",
            RelativeInterval {
                direction: RelativeDirection::Past,
                distance: 1,
                unit: IntervalUnit::Week,
            },
        ))
    );
}

#[test]
fn parses_non_literal_relative_intervals() {
    assert_eq!(
        parse_non_literal_relative_interval("in a week"),
        Ok((
            "",
            RelativeInterval {
                direction: RelativeDirection::Future,
                distance: 1,
                unit: IntervalUnit::Week,
            },
        ))
    );
    assert_eq!(
        parse_non_literal_relative_interval("2 years ago"),
        Ok((
            "",
            RelativeInterval {
                direction: RelativeDirection::Past,
                distance: 2,
                unit: IntervalUnit::Year,
            },
        ))
    );
    assert!(parse_non_literal_relative_interval("today").is_err());
}

#[test]
fn interval_rejects_invalid_relative_intervals() {
    assert!(parse_relative_interval("in several days").is_err());
    assert!(parse_relative_interval("a 15 days ago").is_err());
    assert!(parse_relative_interval("hello").is_err());
}

#[test]
fn interval_leaves_remaining_input_for_larger_parsers() {
    assert_eq!(
        parse_relative_interval("days ago"),
        Ok((
            "",
            RelativeInterval {
                direction: RelativeDirection::Past,
                distance: 1,
                unit: IntervalUnit::Day,
            },
        ))
    );
    assert_eq!(
        parse_relative_interval("2 years ago exactly"),
        Ok((
            " exactly",
            RelativeInterval {
                direction: RelativeDirection::Past,
                distance: 2,
                unit: IntervalUnit::Year,
            },
        ))
    );
}

#[test]
fn explicit_future_intervals_need_in_and_a_value() {
    assert!(parse_explicit_non_literal_relative_interval("month").is_err());
    assert!(parse_explicit_non_literal_relative_interval("in month").is_err());
    assert!(parse_explicit_non_literal_relative_interval("a month").is_err());
    assert_eq!(
        parse_explicit_non_literal_relative_interval("in a month"),
        Ok((
            "",
            RelativeInterval {
                direction: RelativeDirection::Future,
                distance: 1,
                unit: IntervalUnit::Month,
            },
        ))
    );
    assert_eq!(
        parse_explicit_non_literal_relative_interval("3 days ago"),
        Ok((
            "",
            RelativeInterval {
                direction: RelativeDirection::Past,
                distance: 3,
                unit: IntervalUnit::Day,
            },
        ))
    );
}

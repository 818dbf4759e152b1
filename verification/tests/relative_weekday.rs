use fdate::Weekday;
use fdate::parser::syntax::common::RelativeDirection;
use fdate::parser::syntax::relative_weekday::{parse_relative_weekday, RelativeWeekday};

#[test]
fn parses_bare_relative_weekdays() {
    assert_eq!(
        parse_relative_weekday("monday"),
        Ok((
            "",
            RelativeWeekday {
                direction: None,
                weekday: Weekday::Mon,
            },
        ))
    );
    assert_eq!(
        parse_relative_weekday("thu"),
        Ok((
            "",
            RelativeWeekday {
                direction: None,
                weekday: Weekday::Thu,
            },
        ))
    );
}

#[test]
fn parses_relative_weekdays_with_direction() {
    assert_eq!(
        parse_relative_weekday("next monday"),
        Ok((
            "",
            RelativeWeekday {
                direction: Some(RelativeDirection::Future),
                weekday: Weekday::Mon,
            },
        ))
    );
    assert_eq!(
        parse_relative_weekday("last fri"),
        Ok((
            "",
            RelativeWeekday {
                direction: Some(RelativeDirection::Past),
                weekday: Weekday::Fri,
            },
        ))
    );
}

#[test]
fn parses_relative_weekdays_case_insensitively() {
    assert_eq!(
        parse_relative_weekday("Next Tuesday"),
        Ok((
            "",
            RelativeWeekday {
                direction: Some(RelativeDirection::Future),
                weekday: Weekday::Tue,
            },
        ))
    );
    assert_eq!(
        parse_relative_weekday("LAST sunday"),
        Ok((
            "",
            RelativeWeekday {
                direction: Some(RelativeDirection::Past),
                weekday: Weekday::Sun,
            },
        ))
    );
}

#[test]
fn relative_weekday_leaves_remaining_input_for_larger_parsers() {
    assert_eq!(
        parse_relative_weekday("next monday morning"),
        Ok((
            " morning",
            RelativeWeekday {
                direction: Some(RelativeDirection::Future),
                weekday: Weekday::Mon,
            },
        ))
    );
}

#[test]
fn rejects_invalid_relative_weekdays() {
    assert!(parse_relative_weekday("next").is_err());
    assert!(parse_relative_weekday("hello").is_err());
    assert!(parse_relative_weekday("nextmonday").is_err());
}

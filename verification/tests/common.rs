use fdate::{Month, Weekday};
use fdate::parser::syntax::common::{
    parse_month, parse_ordinal_day, parse_relative_direction, parse_weekday, IntervalUnit,
    RelativeDirection,
};

#[test]
fn parses_relative_directions() {
    assert_eq!(
        parse_relative_direction("next"),
        Ok(("", RelativeDirection::Future))
    );
    assert_eq!(
        parse_relative_direction("last"),
        Ok(("", RelativeDirection::Past))
    );
}

#[test]
fn parses_ordinal_days() {
    assert_eq!(parse_ordinal_day("1"), Ok(("", 1)));
    assert_eq!(parse_ordinal_day("14th"), Ok(("", 14)));
    assert_eq!(parse_ordinal_day("22nd"), Ok(("", 22)));
}

#[test]
fn rejects_invalid_ordinal_days() {
    assert!(parse_ordinal_day("0").is_err());
    assert!(parse_ordinal_day("32nd").is_err());
    assert!(parse_ordinal_day("hello").is_err());
}

#[test]
fn parses_months() {
    assert_eq!(parse_month("january"), Ok(("", Month::January)));
    assert_eq!(parse_month("april"), Ok(("", Month::April)));
    assert_eq!(parse_month("December"), Ok(("", Month::December)));
}

#[test]
fn rejects_invalid_months() {
    assert!(parse_month("month").is_err());
    assert!(parse_month("jan").is_err());
    assert!(parse_month("hello").is_err());
}

#[test]
fn parses_interval_units() {
    assert_eq!(IntervalUnit::parse("day"), Ok(("", IntervalUnit::Day)));
    assert_eq!(IntervalUnit::parse("week"), Ok(("", IntervalUnit::Week)));
    assert_eq!(IntervalUnit::parse("month"), Ok(("", IntervalUnit::Month)));
    assert_eq!(IntervalUnit::parse("year"), Ok(("", IntervalUnit::Year)));
}

#[test]
fn rejects_invalid_interval_units() {
    assert_eq!(IntervalUnit::parse("days"), Ok(("s", IntervalUnit::Day)));
    assert!(IntervalUnit::parse("hello").is_err());
}

#[test]
fn common_parses_full_weekday_names() {
    assert_eq!(parse_weekday("monday"), Ok(("", Weekday::Mon)));
    assert_eq!(parse_weekday("tuesday"), Ok(("", Weekday::Tue)));
    assert_eq!(parse_weekday("wednesday"), Ok(("", Weekday::Wed)));
    assert_eq!(parse_weekday("thursday"), Ok(("", Weekday::Thu)));
    assert_eq!(parse_weekday("friday"), Ok(("", Weekday::Fri)));
    assert_eq!(parse_weekday("saturday"), Ok(("", Weekday::Sat)));
    assert_eq!(parse_weekday("sunday"), Ok(("", Weekday::Sun)));
}

#[test]
fn common_parses_common_weekday_abbreviations() {
    assert_eq!(parse_weekday("mon"), Ok(("", Weekday::Mon)));
    assert_eq!(parse_weekday("tue"), Ok(("", Weekday::Tue)));
    assert_eq!(parse_weekday("wed"), Ok(("", Weekday::Wed)));
    assert_eq!(parse_weekday("thu"), Ok(("", Weekday::Thu)));
    assert_eq!(parse_weekday("fri"), Ok(("", Weekday::Fri)));
    assert_eq!(parse_weekday("sat"), Ok(("", Weekday::Sat)));
    assert_eq!(parse_weekday("sun"), Ok(("", Weekday::Sun)));
}

#[test]
fn common_parses_weekdays_case_insensitively() {
    assert_eq!(parse_weekday("Monday"), Ok(("", Weekday::Mon)));
    assert_eq!(parse_weekday("THU"), Ok(("", Weekday::Thu)));
    assert_eq!(parse_weekday("SunDay"), Ok(("", Weekday::Sun)));
}

#[test]
fn common_leaves_remaining_input_for_larger_parsers() {
    assert_eq!(
        parse_weekday("monday next week"),
        Ok((" next week", Weekday::Mon))
    );
}

#[test]
fn common_rejects_invalid_weekdays() {
    assert!(parse_weekday("hello").is_err());
    assert!(parse_weekday("mo").is_err());
}

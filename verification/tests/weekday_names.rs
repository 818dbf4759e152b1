use fdate::Weekday;
use fdate::parser::syntax::common::parse_weekday;

#[test]
fn util_parses_full_weekday_names() {
    assert_eq!(parse_weekday("monday"), Ok(("", Weekday::Mon)));
    assert_eq!(parse_weekday("tuesday"), Ok(("", Weekday::Tue)));
    assert_eq!(parse_weekday("wednesday"), Ok(("", Weekday::Wed)));
    assert_eq!(parse_weekday("thursday"), Ok(("", Weekday::Thu)));
    assert_eq!(parse_weekday("friday"), Ok(("", Weekday::Fri)));
    assert_eq!(parse_weekday("saturday"), Ok(("", Weekday::Sat)));
    assert_eq!(parse_weekday("sunday"), Ok(("", Weekday::Sun)));
}

#[test]
fn util_parses_common_weekday_abbreviations() {
    assert_eq!(parse_weekday("mon"), Ok(("", Weekday::Mon)));
    assert_eq!(parse_weekday("tue"), Ok(("", Weekday::Tue)));
    assert_eq!(parse_weekday("wed"), Ok(("", Weekday::Wed)));
    assert_eq!(parse_weekday("thu"), Ok(("", Weekday::Thu)));
    assert_eq!(parse_weekday("fri"), Ok(("", Weekday::Fri)));
    assert_eq!(parse_weekday("sat"), Ok(("", Weekday::Sat)));
    assert_eq!(parse_weekday("sun"), Ok(("", Weekday::Sun)));
}

#[test]
fn util_parses_weekdays_case_insensitively() {
    assert_eq!(parse_weekday("Monday"), Ok(("", Weekday::Mon)));
    assert_eq!(parse_weekday("THU"), Ok(("", Weekday::Thu)));
    assert_eq!(parse_weekday("SunDay"), Ok(("", Weekday::Sun)));
}

#[test]
fn util_leaves_remaining_input_for_larger_parsers() {
    assert_eq!(
        parse_weekday("monday next week"),
        Ok((" next week", Weekday::Mon))
    );
}

#[test]
fn util_rejects_invalid_weekdays() {
    assert!(parse_weekday("hello").is_err());
    assert!(parse_weekday("mo").is_err());
}

use fdate::Date;
use fdate::parser::syntax::absolute::parse_absolute;

#[test]
fn absolute_parses_absolute_dates() {
    assert_eq!(
        parse_absolute("2000-10-10"),
        Ok(("", Date::from_ymd_opt(2000, 10, 10).unwrap()))
    );
    assert_eq!(
        parse_absolute("2000-1-1"),
        Ok(("", Date::from_ymd_opt(2000, 1, 1).unwrap()))
    );
    assert_eq!(
        parse_absolute("10/20/2000"),
        Ok(("", Date::from_ymd_opt(2000, 10, 20).unwrap()))
    );
    assert_eq!(
        parse_absolute("1/2/2000"),
        Ok(("", Date::from_ymd_opt(2000, 1, 2).unwrap()))
    );
    assert_eq!(
        parse_absolute("15th April 2000"),
        Ok(("", Date::from_ymd_opt(2000, 4, 15).unwrap()))
    );
    assert_eq!(
        parse_absolute("15 April 2000"),
        Ok(("", Date::from_ymd_opt(2000, 4, 15).unwrap()))
    );
    assert_eq!(
        parse_absolute("April 15th 00"),
        Ok(("", Date::from_ymd_opt(2000, 4, 15).unwrap()))
    );
    assert_eq!(
        parse_absolute("April 15 00"),
        Ok(("", Date::from_ymd_opt(2000, 4, 15).unwrap()))
    );
}

#[test]
fn rejects_invalid_absolute_dates() {
    assert!(parse_absolute("2000-13-1").is_err());
    assert!(parse_absolute("2000-2-30").is_err());
    assert!(parse_absolute("13/20/2000").is_err());
    assert!(parse_absolute("2/30/2000").is_err());
    assert!(parse_absolute("31st April 2000").is_err());
    assert!(parse_absolute("April 31st 00").is_err());
    assert!(parse_absolute("Smarch 15th 00").is_err());
    assert!(parse_absolute("2000/10/20").is_err());
    assert!(parse_absolute("hello").is_err());
}

#[test]
fn absolute_leaves_remaining_input_for_larger_parsers() {
    assert_eq!(
        parse_absolute("2000-10-10 and more"),
        Ok((" and more", Date::from_ymd_opt(2000, 10, 10).unwrap()))
    );
    assert_eq!(
        parse_absolute("April 15th 00 please"),
        Ok((" please", Date::from_ymd_opt(2000, 4, 15).unwrap()))
    );
}

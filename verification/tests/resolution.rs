use fdate::{Date, Parser, ParserConfig, Weekday};

fn parser_with_today(today: Date) -> Parser {
    let mut config = ParserConfig::new();
    config.with_today(today);
    Parser::with_config(config)
}

#[test]
fn resolves_weekdays_in_arbitrary_relative_weeks() {
    let mut config = ParserConfig::new();
    config
        .with_today(Date::from_ymd_opt(2026, 3, 24).unwrap())
        .week_starts_monday();
    let parser = Parser::with_config(config);

    assert_eq!(
        parser.weekday_in_relative_week(Weekday::Wed, 0),
        Date::from_ymd_opt(2026, 3, 25).unwrap()
    );
    assert_eq!(
        parser.weekday_in_relative_week(Weekday::Wed, 3),
        Date::from_ymd_opt(2026, 4, 15).unwrap()
    );
    assert_eq!(
        parser.weekday_in_relative_week(Weekday::Mon, -2),
        Date::from_ymd_opt(2026, 3, 9).unwrap()
    );
}

#[test]
fn resolves_closest_future_day_of_month_in_current_month_when_still_ahead() {
    let parser = parser_with_today(Date::from_ymd_opt(2025, 5, 13).unwrap());

    assert_eq!(
        parser.closest_future_day_of_month(14),
        Date::from_ymd_opt(2025, 5, 14).unwrap()
    );
}

#[test]
fn resolves_closest_future_day_of_month_in_next_month_when_today_or_past() {
    let parser = parser_with_today(Date::from_ymd_opt(2025, 5, 14).unwrap());

    assert_eq!(
        parser.closest_future_day_of_month(14),
        Date::from_ymd_opt(2025, 6, 14).unwrap()
    );
    assert_eq!(
        parser.closest_future_day_of_month(13),
        Date::from_ymd_opt(2025, 6, 13).unwrap()
    );
}

#[test]
fn clamps_closest_future_day_of_month_to_end_of_next_month_when_needed() {
    let parser = parser_with_today(Date::from_ymd_opt(2025, 4, 30).unwrap());

    assert_eq!(
        parser.closest_future_day_of_month(31),
        Date::from_ymd_opt(2025, 5, 31).unwrap()
    );

    let parser = parser_with_today(Date::from_ymd_opt(2025, 5, 31).unwrap());

    assert_eq!(
        parser.closest_future_day_of_month(31),
        Date::from_ymd_opt(2025, 6, 30).unwrap()
    );
}

#[test]
fn resolves_closest_future_day_of_month_across_year_boundary() {
    let parser = parser_with_today(Date::from_ymd_opt(2025, 12, 31).unwrap());

    assert_eq!(
        parser.closest_future_day_of_month(1),
        Date::from_ymd_opt(2026, 1, 1).unwrap()
    );
    assert_eq!(
        parser.closest_future_day_of_month(31),
        Date::from_ymd_opt(2026, 1, 31).unwrap()
    );
}

#[test]
fn resolves_closest_past_day_of_month_in_current_month_when_still_behind() {
    let parser = parser_with_today(Date::from_ymd_opt(2025, 5, 15).unwrap());

    assert_eq!(
        parser.closest_past_day_of_month(14),
        Date::from_ymd_opt(2025, 5, 14).unwrap()
    );
}

#[test]
fn resolves_closest_past_day_of_month_in_previous_month_when_today_or_ahead() {
    let parser = parser_with_today(Date::from_ymd_opt(2025, 5, 14).unwrap());

    assert_eq!(
        parser.closest_past_day_of_month(14),
        Date::from_ymd_opt(2025, 4, 14).unwrap()
    );
    assert_eq!(
        parser.closest_past_day_of_month(15),
        Date::from_ymd_opt(2025, 4, 15).unwrap()
    );
}

#[test]
fn clamps_closest_past_day_of_month_to_end_of_previous_month_when_needed() {
    let parser = parser_with_today(Date::from_ymd_opt(2025, 7, 1).unwrap());

    assert_eq!(
        parser.closest_past_day_of_month(31),
        Date::from_ymd_opt(2025, 6, 30).unwrap()
    );

    let parser = parser_with_today(Date::from_ymd_opt(2025, 3, 30).unwrap());

    assert_eq!(
        parser.closest_past_day_of_month(31),
        Date::from_ymd_opt(2025, 2, 28).unwrap()
    );
}

#[test]
fn resolves_closest_past_day_of_month_across_year_boundary() {
    let parser = parser_with_today(Date::from_ymd_opt(2026, 1, 1).unwrap());

    assert_eq!(
        parser.closest_past_day_of_month(31),
        Date::from_ymd_opt(2025, 12, 31).unwrap()
    );
    assert_eq!(
        parser.closest_past_day_of_month(1),
        Date::from_ymd_opt(2025, 12, 1).unwrap()
    );
}

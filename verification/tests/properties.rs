use fdate::parser::syntax::absolute::parse_absolute;
use fdate::parser::syntax::FdateExpression;
use fdate::{Date, OutOfBounds, Parser, ParserConfig};

fn date(y: i32, m: u32, d: u32) -> Date {
    Date::from_ymd_opt(y, m, d).unwrap()
}

fn parser_on(y: i32, m: u32, d: u32) -> Parser {
    let mut parser = Parser::new();
    parser.with_today(date(y, m, d));
    parser
}

#[test]
fn zero_intervals_are_today() {
    let parser = parser_on(2025, 5, 5);
    for input in ["today", "in 0 days", "0 days ago", "in 0 weeks", "in 0 years", "0 months ago"] {
        assert_eq!(parser.parse(input), Some(date(2025, 5, 5)), "{}", input);
    }
}

#[test]
fn day_and_week_intervals_count_days() {
    let parser = parser_on(2025, 5, 5);
    assert_eq!(parser.parse("in 10 days"), Some(date(2025, 5, 15)));
    assert_eq!(parser.parse("3 weeks ago"), Some(date(2025, 4, 14)));
    assert_eq!(parser.parse("in 365 days"), Some(date(2026, 5, 5)));
}

#[test]
fn month_intervals_clamp_to_shorter_months() {
    let parser = parser_on(2025, 1, 31);
    assert_eq!(parser.parse("in 1 month"), Some(date(2025, 2, 28)));
    assert_eq!(parser.parse("in 13 months"), Some(date(2026, 2, 28)));
    assert_eq!(parser.parse("in 2 months"), Some(date(2025, 3, 31)));
    let parser = parser_on(2024, 1, 31);
    assert_eq!(parser.parse("in a month"), Some(date(2024, 2, 29)));
    let parser = parser_on(2024, 2, 29);
    assert_eq!(parser.parse("a year ago"), Some(date(2023, 2, 28)));
}

#[test]
fn closest_weekdays_are_one_to_seven_days_away() {
    let parser = parser_on(2025, 5, 5);
    assert_eq!(parser.parse("monday"), Some(date(2025, 5, 12)));
    assert_eq!(parser.parse("last monday"), Some(date(2025, 4, 28)));
    assert_eq!(parser.parse("sunday"), Some(date(2025, 5, 11)));
    assert_eq!(parser.parse("last sunday"), Some(date(2025, 5, 4)));
    assert_eq!(parser.parse("tue"), Some(date(2025, 5, 6)));
}

#[test]
fn closest_weekdays_ignore_the_first_day_of_the_week() {
    let mut parser = parser_on(2025, 5, 5);
    parser.week_starts_sunday();
    assert_eq!(parser.parse("wednesday"), Some(date(2025, 5, 7)));
    assert_eq!(parser.parse("last sunday"), Some(date(2025, 5, 4)));
    assert_eq!(parser.parse("monday"), Some(date(2025, 5, 12)));
}

#[test]
fn weekdays_of_this_week_follow_the_first_day_of_the_week() {
    let parser = parser_on(2025, 5, 5);
    assert_eq!(parser.parse("sunday this week"), Some(date(2025, 5, 11)));
    let mut parser = parser_on(2025, 5, 5);
    parser.week_starts_sunday();
    assert_eq!(parser.parse("sunday this week"), Some(date(2025, 5, 4)));
    assert_eq!(parser.parse("saturday this week"), Some(date(2025, 5, 10)));
    assert_eq!(parser.parse("monday in 2 weeks"), Some(date(2025, 5, 19)));
}

#[test]
fn week_setting_makes_next_weekday_a_calendar_week() {
    let mut parser = parser_on(2025, 5, 6);
    parser.next_weekday_means_week().last_weekday_means_week();
    assert_eq!(parser.parse("next wednesday"), parser.parse("wednesday next week"));
    assert_eq!(parser.parse("next wednesday"), Some(date(2025, 5, 14)));
    assert_eq!(parser.parse("last wednesday"), parser.parse("wednesday last week"));
    assert_eq!(parser.parse("last wednesday"), Some(date(2025, 4, 30)));
    assert_eq!(parser.parse("wednesday"), Some(date(2025, 5, 7)));
}

#[test]
fn closest_days_of_month_clamp_and_move_forward() {
    let parser = parser_on(2025, 5, 5);
    assert_eq!(parser.parse("31st"), Some(date(2025, 5, 31)));
    assert_eq!(parser.parse("5th"), Some(date(2025, 6, 5)));
    assert_eq!(parser.parse("last 5th"), Some(date(2025, 4, 5)));
    let parser = parser_on(2025, 2, 10);
    assert_eq!(parser.parse("30"), Some(date(2025, 2, 28)));
    let parser = parser_on(2025, 3, 10);
    assert_eq!(parser.parse("last 30"), Some(date(2025, 2, 28)));
    let parser = parser_on(2025, 2, 28);
    assert_eq!(parser.parse("30th"), Some(date(2025, 3, 30)));
}

#[test]
fn month_setting_makes_next_day_a_calendar_month() {
    let mut parser = parser_on(2025, 5, 13);
    parser.next_day_of_month_means_month();
    assert_eq!(parser.parse("next 14th"), parser.parse("14th next month"));
    assert_eq!(parser.parse("next 14th"), Some(date(2025, 6, 14)));
    assert_eq!(parser.parse("14th"), Some(date(2025, 5, 14)));
}

#[test]
fn closest_partial_dates_use_this_or_the_adjacent_year() {
    let parser = parser_on(2024, 1, 10);
    assert_eq!(parser.parse("29 february"), Some(date(2024, 2, 29)));
    assert_eq!(parser.parse("last february 29"), None);
    assert_eq!(parser.parse("january 9"), Some(date(2025, 1, 9)));
    assert_eq!(parser.parse("last january 11"), Some(date(2023, 1, 11)));
    let parser = parser_on(2025, 5, 5);
    assert_eq!(parser.parse("29 february"), None);
}

#[test]
fn year_setting_makes_next_partial_date_a_calendar_year() {
    let mut parser = parser_on(2025, 3, 1);
    parser.next_partial_date_means_year();
    assert_eq!(parser.parse("next april 14"), parser.parse("april 14 next year"));
    assert_eq!(parser.parse("next april 14"), Some(date(2026, 4, 14)));
    assert_eq!(parser.parse("april 14"), Some(date(2025, 4, 14)));
}

#[test]
fn absolute_dates_ignore_today() {
    let a = parser_on(2025, 5, 5);
    let mut b = parser_on(1999, 12, 31);
    b.week_starts_sunday().next_day_of_month_means_month();
    assert_eq!(a.parse("2000-10-10"), Some(date(2000, 10, 10)));
    assert_eq!(b.parse("2000-10-10"), Some(date(2000, 10, 10)));
    assert_eq!(a.parse("10/20/2000"), b.parse("10/20/2000"));
}

#[test]
fn leftover_text_gives_no_date() {
    let parser = parser_on(2025, 5, 5);
    assert_eq!(parser.parse("today please"), None);
    assert_eq!(parser.parse("in 2 DAYS"), None);
    assert_eq!(parser.parse("in 2 DAYs"), Some(date(2025, 5, 7)));
    assert_eq!(parser.parse(""), None);
}

#[test]
fn impossible_absolute_dates_give_no_date() {
    let parser = parser_on(2025, 5, 5);
    assert_eq!(parser.parse("2/30/2000"), None);
    assert_eq!(parser.parse("2001-02-29"), None);
    assert_eq!(parser.parse("2000-02-29"), Some(date(2000, 2, 29)));
}

#[test]
fn out_of_range_results_are_reported() {
    let parser = parser_on(2025, 5, 5);
    assert_eq!(parser.try_parse("in 400000 years"), Err(OutOfBounds));
    assert_eq!(parser.try_parse("in 4294967295 days"), Err(OutOfBounds));
    assert_eq!(parser.try_parse("in 400000000 years"), Err(OutOfBounds));
    assert_eq!(parser.try_parse("10th july 2147483648 years ago"), Err(OutOfBounds));
    assert_eq!(parser.try_parse("10th july in 3000000000 years"), Ok(None));
    assert_eq!(parser.try_parse("hello"), Ok(None));
    assert_eq!(parser.try_parse("tomorrow"), Ok(Some(date(2025, 5, 6))));
}

#[test]
fn the_last_representable_day_has_no_tomorrow() {
    let parser = parser_on(262142, 12, 31);
    assert_eq!(parser.try_parse("tomorrow"), Err(OutOfBounds));
    assert_eq!(parser.try_parse("yesterday"), Ok(Some(date(262142, 12, 30))));
    assert_eq!(parser.try_parse("1st"), Err(OutOfBounds));
    assert_eq!(parser.try_parse("january 1"), Ok(None));
}

#[test]
fn iso_years_wrap_like_signed_integers() {
    assert_eq!(parse_absolute("4294967295-1-1"), Ok(("", date(-1, 1, 1))));
    assert_eq!(parse_absolute("99999-1-1"), Ok(("", date(99999, 1, 1))));
    assert!(parse_absolute("999999-1-1").is_err());
}

#[test]
fn dates_exist_only_in_range() {
    assert_eq!(Date::from_ymd_opt(2025, 2, 29), None);
    assert_eq!(Date::from_ymd_opt(2024, 2, 29).map(|d| (d.year(), d.month(), d.day())), Some((2024, 2, 29)));
    assert_eq!(Date::from_ymd_opt(262143, 1, 1), None);
    assert!(Date::from_ymd_opt(262142, 12, 31).is_some());
    assert!(Date::from_ymd_opt(-262143, 1, 1).is_some());
    assert_eq!(Date::from_ymd_opt(-262144, 12, 31), None);
    assert_eq!(Date::from_ymd_opt(2025, 13, 1), None);
    assert_eq!(Date::from_ymd_opt(2025, 4, 31), None);
}

#[test]
fn clock_parser_reads_today() {
    let parser = Parser::new();
    assert_eq!(parser.parse("today"), Some(parser.config().today));
    let config = ParserConfig::new();
    assert!(!config.next_weekday_means_week && !config.last_partial_date_means_year);
}

#[test]
fn sunday_week_indices() {
    let mut parser = parser_on(2025, 5, 7);
    parser.week_starts_sunday();
    assert_eq!(parser.weekday_index(fdate::Weekday::Sun), 0);
    assert_eq!(parser.weekday_index(fdate::Weekday::Sat), 6);
    assert_eq!(parser.closest_future_weekday_offset(fdate::Weekday::Wed), 7);
    assert_eq!(parser.closest_past_weekday_offset(fdate::Weekday::Mon), 2);
}

#[test]
fn number_words_count_intervals() {
    let parser = parser_on(2025, 5, 5);
    assert_eq!(parser.parse("17th in two months"), Some(date(2025, 7, 17)));
    assert_eq!(parser.parse("10th July in two years"), Some(date(2027, 7, 10)));
    assert_eq!(parser.parse("in three days"), Some(date(2025, 5, 8)));
    assert_eq!(parser.parse("Twelve days ago"), Some(date(2025, 4, 23)));
    assert_eq!(parser.parse("friday in one week"), Some(date(2025, 5, 16)));
    assert_eq!(parser.parse("in thirteen days"), None);
}

#[test]
fn clock_try_parse_reads_absolute_dates() {
    assert_eq!(fdate::try_parse("2000-04-15"), Ok(Some(date(2000, 4, 15))));
    assert_eq!(fdate::try_parse("hello"), Ok(None));
    assert_eq!(fdate::try_parse("in 400000 years"), Err(OutOfBounds));
}

#[test]
fn letter_case_does_not_matter() {
    for text in ["NEXT Wednesday", "15TH April 2000", "In Two Weeks", "Friday THIS week"] {
        assert_eq!(
            FdateExpression::parse(text),
            FdateExpression::parse(&text.to_ascii_lowercase())
        );
        assert!(FdateExpression::parse(text).is_some());
    }
}

#[test]
fn written_dates_read_back() {
    let parser = parser_on(2025, 5, 5);
    assert_eq!(parser.parse("0001-01-01"), Some(date(1, 1, 1)));
    assert_eq!(parser.parse("12/31/9999"), Some(date(9999, 12, 31)));
    assert_eq!(parser.parse("07/04/0776"), Some(date(776, 7, 4)));
    assert_eq!(parser.parse("05 May 2025"), Some(date(2025, 5, 5)));
    assert_eq!(parser.parse("29 February 2024"), Some(date(2024, 2, 29)));
    assert_eq!(parser.parse("30 September 0012"), Some(date(12, 9, 30)));
}

#[test]
fn partial_dates_ignore_day_of_month_settings() {
    let plain = parser_on(2025, 5, 5);
    let mut changed = parser_on(2025, 5, 5);
    changed.next_day_of_month_means_month();
    changed.last_day_of_month_means_month();
    changed.week_starts_sunday();
    for text in ["next 14th April", "last 14th April", "14th April"] {
        assert_eq!(plain.try_parse(text), changed.try_parse(text));
    }
}

use rusty_todos::calendar::{Date, ReferenceInstant};
use rusty_todos::errors::ParseError;
use rusty_todos::parser::parse_due_date;

fn at(year: u64, month: u64, day: u64, hour: u64, minute: u64, second: u64) -> ReferenceInstant {
    ReferenceInstant { date: Date { year, month, day }, hour, minute, second }
}

/// Monday afternoon, seconds at zero.
fn monday_afternoon() -> ReferenceInstant {
    at(2026, 10, 12, 15, 30, 0)
}

/// A Friday morning.
fn friday_morning() -> ReferenceInstant {
    at(2026, 10, 16, 9, 0, 0)
}

#[test]
fn today_is_reference_date() {
    assert_eq!(parse_due_date("today", &monday_afternoon()), Ok("2026-10-12".to_string()));
}

#[test]
fn tomorrow_and_abbreviation() {
    let now = monday_afternoon();
    assert_eq!(parse_due_date("tomorrow", &now), Ok("2026-10-13".to_string()));
    assert_eq!(parse_due_date("tmr", &now), Ok("2026-10-13".to_string()));
}

#[test]
fn yesterday_fails_as_past() {
    assert_eq!(parse_due_date("yesterday", &monday_afternoon()), Err(ParseError::PastDueDate));
    assert_eq!(parse_due_date("yesterday", &at(0, 1, 1, 0, 0, 0)), Err(ParseError::PastDueDate));
    assert_eq!(parse_due_date("yesterday", &at(9999, 12, 31, 23, 59, 59)), Err(ParseError::PastDueDate));
}

#[test]
fn now_passes_only_on_a_whole_minute() {
    assert_eq!(parse_due_date("now", &monday_afternoon()), Ok("2026-10-12 15:30".to_string()));
    assert_eq!(parse_due_date("now", &at(2026, 10, 12, 15, 30, 1)), Err(ParseError::PastDueDate));
}

#[test]
fn weekday_policies_on_their_own_day() {
    let now = friday_morning();
    assert_eq!(parse_due_date("friday", &now), Ok("2026-10-23".to_string()));
    assert_eq!(parse_due_date("this friday", &now), Ok("2026-10-16".to_string()));
    assert_eq!(parse_due_date("next friday", &now), Ok("2026-10-23".to_string()));
}

#[test]
fn weekday_ahead_in_week() {
    let now = monday_afternoon();
    assert_eq!(parse_due_date("friday", &now), Ok("2026-10-16".to_string()));
    assert_eq!(parse_due_date("this friday", &now), Ok("2026-10-16".to_string()));
    assert_eq!(parse_due_date("next friday", &now), Ok("2026-10-23".to_string()));
}

#[test]
fn weekday_already_passed_this_week() {
    let now = friday_morning();
    assert_eq!(parse_due_date("monday", &now), Ok("2026-10-19".to_string()));
    assert_eq!(parse_due_date("next mon", &now), Ok("2026-10-19".to_string()));
    // The day has already passed this week, so the "this" policy clamps
    // to today.
    assert_eq!(parse_due_date("this monday", &now), Ok("2026-10-16".to_string()));
}

#[test]
fn weekday_with_time() {
    let now = monday_afternoon();
    assert_eq!(parse_due_date("friday 15:30", &now), Ok("2026-10-16 15:30".to_string()));
    assert_eq!(parse_due_date("next friday 9:05", &now), Ok("2026-10-23 09:05".to_string()));
    assert_eq!(parse_due_date("this wed 23:59", &now), Ok("2026-10-14 23:59".to_string()));
    assert_eq!(parse_due_date("friday 25:00", &now), Err(ParseError::InvalidTimeFormat));
}

#[test]
fn relative_periods() {
    let now = monday_afternoon();
    assert_eq!(parse_due_date("week", &now), Ok("2026-10-19".to_string()));
    assert_eq!(parse_due_date("next week", &now), Ok("2026-10-19".to_string()));
    assert_eq!(parse_due_date("month", &now), Ok("2026-11-11".to_string()));
    assert_eq!(parse_due_date("next month", &now), Ok("2026-11-11".to_string()));
    assert_eq!(parse_due_date("year", &now), Ok("2027-10-12".to_string()));
    assert_eq!(parse_due_date("next year", &now), Ok("2027-10-12".to_string()));
}

#[test]
fn single_unit_durations() {
    let now = monday_afternoon();
    assert_eq!(parse_due_date("3 days", &now), Ok("2026-10-15 15:30".to_string()));
    assert_eq!(parse_due_date("2 hours", &now), Ok("2026-10-12 17:30".to_string()));
    assert_eq!(parse_due_date("45 minutes", &now), Ok("2026-10-12 16:15".to_string()));
    assert_eq!(parse_due_date("90 seconds", &now), Ok("2026-10-12 15:31".to_string()));
    assert_eq!(parse_due_date("1 week", &now), Ok("2026-10-19 15:30".to_string()));
    assert_eq!(parse_due_date("2 months", &now), Ok("2026-12-11 15:30".to_string()));
    assert_eq!(parse_due_date("1 year", &now), Ok("2027-10-12 15:30".to_string()));
}

#[test]
fn duration_synonyms() {
    let now = monday_afternoon();
    assert_eq!(parse_due_date("in 1 d", &now), Ok("2026-10-13 15:30".to_string()));
    assert_eq!(parse_due_date("in 2 hr", &now), Ok("2026-10-12 17:30".to_string()));
    assert_eq!(parse_due_date("in 5 min", &now), Ok("2026-10-12 15:35".to_string()));
    assert_eq!(parse_due_date("in 1 w", &now), Ok("2026-10-19 15:30".to_string()));
    assert_eq!(parse_due_date("in 30 s", &now), Ok("2026-10-12 15:30".to_string()));
}

#[test]
fn compound_offsets_commute() {
    let now = monday_afternoon();
    let a = parse_due_date("in 1 day 3 hours", &now);
    let b = parse_due_date("in 3 hours 1 day", &now);
    assert_eq!(a, Ok("2026-10-13 18:30".to_string()));
    assert_eq!(a, b);
    let c = parse_due_date("1 day 3 hours", &now);
    assert_eq!(a, c);
}

#[test]
fn unsupported_unit_carries_the_name() {
    assert_eq!(
        parse_due_date("5 fortnights", &monday_afternoon()),
        Err(ParseError::UnsupportedUnit("fortnights".to_string()))
    );
}

#[test]
fn empty_and_blank_input() {
    let now = monday_afternoon();
    assert_eq!(parse_due_date("", &now), Err(ParseError::EmptyInput));
    assert_eq!(parse_due_date("   \t  ", &now), Err(ParseError::EmptyInput));
}

#[test]
fn twelve_hour_boundaries() {
    let midnight = at(2026, 10, 12, 0, 0, 0);
    assert_eq!(parse_due_date("12:00am", &midnight), Ok("2026-10-12 00:00".to_string()));
    assert_eq!(parse_due_date("12:00pm", &midnight), Ok("2026-10-12 12:00".to_string()));
    assert_eq!(parse_due_date("11:59pm", &midnight), Ok("2026-10-12 23:59".to_string()));
    assert_eq!(parse_due_date("1:05pm", &midnight), Ok("2026-10-12 13:05".to_string()));
    assert_eq!(parse_due_date("9:30am", &midnight), Ok("2026-10-12 09:30".to_string()));
}

#[test]
fn absolute_date_round_trip() {
    assert_eq!(
        parse_due_date("2099-01-01", &monday_afternoon()),
        Ok("2099-01-01".to_string())
    );
}

#[test]
fn flexible_digits_are_zero_padded() {
    let now = monday_afternoon();
    assert_eq!(parse_due_date("2099-1-1", &now), Ok("2099-01-01".to_string()));
    assert_eq!(parse_due_date("2026-10-12 18:5", &now), Ok("2026-10-12 18:05".to_string()));
}

#[test]
fn month_day_uses_reference_year() {
    assert_eq!(parse_due_date("12-25", &monday_afternoon()), Ok("2026-12-25".to_string()));
    assert_eq!(parse_due_date("03-15", &monday_afternoon()), Err(ParseError::PastDueDate));
}

#[test]
fn bare_time_is_today() {
    let now = at(2026, 10, 12, 10, 0, 0);
    assert_eq!(parse_due_date("15:30", &now), Ok("2026-10-12 15:30".to_string()));
    assert_eq!(parse_due_date("9:00", &now), Err(ParseError::PastDueDate));
}

#[test]
fn date_time_combo() {
    let now = monday_afternoon();
    assert_eq!(
        parse_due_date("2026-12-25 09:30", &now),
        Ok("2026-12-25 09:30".to_string())
    );
    assert_eq!(parse_due_date("2026-13-01 10:00", &now), Err(ParseError::InvalidDateFormat));
    assert_eq!(parse_due_date("2026-12-25 25:00", &now), Err(ParseError::InvalidTimeFormat));
}

#[test]
fn leap_year_handling() {
    let now = monday_afternoon();
    assert_eq!(parse_due_date("2028-02-29", &now), Ok("2028-02-29".to_string()));
    assert_eq!(parse_due_date("2027-02-29", &now), Err(ParseError::InvalidDateOrTime));
    assert_eq!(parse_due_date("2027-02-29 10:00", &now), Err(ParseError::InvalidDateFormat));
}

#[test]
fn unrecognized_shapes() {
    let now = monday_afternoon();
    assert_eq!(parse_due_date("gibberish", &now), Err(ParseError::InvalidDateOrTime));
    assert_eq!(parse_due_date("one two three", &now), Err(ParseError::UnrecognizedFormat));
    assert_eq!(
        parse_due_date("a b c d e f", &now),
        Err(ParseError::UnrecognizedFormat)
    );
    assert_eq!(parse_due_date("next gibberish", &now), Err(ParseError::InvalidDateFormat));
}

#[test]
fn negative_and_bad_amounts() {
    let now = monday_afternoon();
    assert_eq!(parse_due_date("-3 days", &now), Err(ParseError::InvalidDuration));
    assert_eq!(parse_due_date("in -3 days", &now), Err(ParseError::InvalidDuration));
    assert_eq!(parse_due_date("in abc days", &now), Err(ParseError::InvalidDuration));
    assert_eq!(
        parse_due_date("999999999999999999999999 days", &now),
        Err(ParseError::InvalidDuration)
    );
}

#[test]
fn tolerated_amount_forms() {
    let now = monday_afternoon();
    assert_eq!(parse_due_date("+3 days", &now), Ok("2026-10-15 15:30".to_string()));
    assert_eq!(parse_due_date("007 days", &now), Ok("2026-10-19 15:30".to_string()));
    assert_eq!(parse_due_date("-0 days", &now), Ok("2026-10-12 15:30".to_string()));
    assert_eq!(parse_due_date("0 days", &now), Ok("2026-10-12 15:30".to_string()));
}

#[test]
fn case_insensitive_input() {
    let now = monday_afternoon();
    assert_eq!(parse_due_date("TOMORROW", &now), Ok("2026-10-13".to_string()));
    assert_eq!(parse_due_date("Next FRIDAY 15:30", &now), Ok("2026-10-23 15:30".to_string()));
    assert_eq!(parse_due_date("  In 2 Days  ", &now), Ok("2026-10-14 15:30".to_string()));
}

#[test]
fn past_absolute_dates_rejected() {
    let now = monday_afternoon();
    assert_eq!(parse_due_date("2020-01-01", &now), Err(ParseError::PastDueDate));
    assert_eq!(parse_due_date("2026-10-12", &now), Ok("2026-10-12".to_string()));
    assert_eq!(parse_due_date("2026-10-12 15:30", &now), Ok("2026-10-12 15:30".to_string()));
    assert_eq!(parse_due_date("2026-10-12 15:29", &now), Err(ParseError::PastDueDate));
}

#[test]
fn weekday_resolver_rejects_unknown_names() {
    // The dispatcher's shape guard keeps unknown names away from the
    // weekday arm, so the fallback is only reachable through the
    // resolver itself.
    let token: Vec<char> = "someday".chars().collect();
    let today = Date { year: 2026, month: 10, day: 12 };
    assert_eq!(
        rusty_todos::parser::parse_weekday(&token, &today),
        Err(ParseError::InvalidWeekday)
    );
}

#[test]
fn error_messages_match_taxonomy() {
    assert_eq!(ParseError::EmptyInput.message(), "Please enter a due date");
    assert_eq!(ParseError::PastDueDate.message(), "Due date cannot be in the past");
    assert_eq!(
        ParseError::UnsupportedUnit("fortnights".to_string()).message(),
        "Unsupported time unit 'fortnights'"
    );
    assert_eq!(ParseError::InvalidTimeFormat.message(), "Invalid time format. Use HH:MM");
}

use todo_app::todo::{Timestamp, TodoError};
use todo_app::utils::date::{
    check_plain_phrase, parse_absolute_date, parse_relative_date, read_due_date,
    settle_relative_date,
};
use todo_app::utils::parse_due_date as parse_due_date_at;

fn test_date(year: i32, month: u32, day: u32, hour: u32, min: u32) -> Timestamp {
    Timestamp::from_ymd_hms(year, month, day, hour, min, 0).unwrap()
}

// The local time at which the dates below are read: a Thursday at noon.
fn current_time() -> Timestamp {
    test_date(2025, 8, 7, 12, 0)
}

fn midnight(year: i32, month: u32, day: u32) -> Timestamp {
    test_date(year, month, day, 0, 0)
}

// Reads a due date at `current_time`, in a zone without offset.
fn parse_due_date(due_str: Option<&str>) -> Result<Option<Timestamp>, TodoError> {
    parse_due_date_at(due_str, current_time(), 0)
}

#[test]
fn test_none_and_empty_input() {
    assert_eq!(parse_due_date(None).unwrap(), None);
    assert_eq!(parse_due_date(Some("")).unwrap(), None);
    assert_eq!(parse_due_date(Some("   ")).unwrap(), None);
}

#[test]
fn test_absolute_dates_with_time() {
    let result = parse_due_date(Some("25-12-2025 14:30")).unwrap();
    assert!(result.is_some());
    let dt = result.unwrap();
    assert_eq!(dt.day_number(), midnight(2025, 12, 25).day_number());
    assert_eq!(dt.hour(), 14);
    assert_eq!(dt.minute(), 30);

    let result = parse_due_date(Some("2025-12-25 09:15")).unwrap();
    assert!(result.is_some());
    let dt = result.unwrap();
    assert_eq!(dt.day_number(), midnight(2025, 12, 25).day_number());
    assert_eq!(dt.hour(), 9);
    assert_eq!(dt.minute(), 15);
}

#[test]
fn test_absolute_dates_without_time() {
    let result = parse_due_date(Some("25-12-2025")).unwrap();
    assert!(result.is_some());
    let dt = result.unwrap();
    assert_eq!(dt.day_number(), midnight(2025, 12, 25).day_number());
    assert_eq!(dt.hour(), 0);
    assert_eq!(dt.minute(), 0);

    let result = parse_due_date(Some("2025/12/25")).unwrap();
    assert!(result.is_some());
    let dt = result.unwrap();
    assert_eq!(dt.day_number(), midnight(2025, 12, 25).day_number());
    assert_eq!(dt.hour(), 0);
    assert_eq!(dt.minute(), 0);
}

#[test]
fn test_relative_dates_future() {
    let result = parse_due_date(Some("tomorrow"));
    assert!(result.is_ok());
    assert!(result.unwrap().is_some());

    let result = parse_due_date(Some("next week"));
    assert!(result.is_ok());
    assert!(result.unwrap().is_some());

    let result = parse_due_date(Some("3 days"));
    assert!(result.is_ok());
    assert!(result.unwrap().is_some());
}

#[test]
fn test_relative_dates_past_rejected() {
    let result = parse_due_date(Some("yesterday"));
    assert!(result.is_err());
    match result.unwrap_err() {
        TodoError::InvalidDate { input, reason } => {
            assert_eq!(input, "yesterday");
            assert!(reason.contains("past"));
        }
        _ => panic!("Expected InvalidDate error"),
    }

    let result = parse_due_date(Some("last week"));
    assert!(result.is_err());
    match result.unwrap_err() {
        TodoError::InvalidDate { input, reason } => {
            assert_eq!(input, "last week");
            assert!(reason.contains("past"));
        }
        _ => panic!("Expected InvalidDate error"),
    }
}

#[test]
fn test_invalid_formats() {
    let result = parse_due_date(Some("invalid date"));
    assert!(result.is_err());
    match result.unwrap_err() {
        TodoError::InvalidDateFormat { input } => {
            assert_eq!(input, "invalid date");
        }
        _ => panic!("Expected InvalidDateFormat error"),
    }

    let result = parse_due_date(Some("32-13-2025"));
    assert!(result.is_err());
    match result.unwrap_err() {
        TodoError::InvalidDateFormat { input } => {
            assert_eq!(input, "32-13-2025");
        }
        _ => panic!("Expected InvalidDateFormat error"),
    }

    let result = parse_due_date(Some("2025-02-30"));
    assert!(result.is_err());
    match result.unwrap_err() {
        TodoError::InvalidDateFormat { input } => {
            assert_eq!(input, "2025-02-30");
        }
        _ => panic!("Expected InvalidDateFormat error"),
    }
}

#[test]
fn date_test_edge_cases() {
    let result = parse_due_date(Some("  25-12-2025 14:30  ")).unwrap();
    assert!(result.is_some());
    let dt = result.unwrap();
    assert_eq!(dt.day_number(), midnight(2025, 12, 25).day_number());

    let result = parse_due_date(Some("TOMORROW"));
    assert!(result.is_ok());
    assert!(result.unwrap().is_some());
}

#[test]
fn test_parse_relative_date_internal() {
    let result = parse_relative_date("not a date at all xyz123", current_time(), 0);
    assert!(result.is_ok());
    assert_eq!(result.unwrap(), None);

    let result = parse_relative_date("tomorrow", current_time(), 0);
    assert!(result.is_ok());
    assert!(result.unwrap().is_some());
}

#[test]
fn written_dates_in_every_form() {
    let with_time = Some(test_date(2025, 12, 25, 14, 30));
    assert_eq!(parse_absolute_date("25-12-2025 14:30"), with_time);
    assert_eq!(parse_absolute_date("25/12/2025 14:30"), with_time);
    assert_eq!(parse_absolute_date("2025-12-25 14:30"), with_time);
    let date_only = Some(midnight(2025, 12, 25));
    assert_eq!(parse_absolute_date("25-12-2025"), date_only);
    assert_eq!(parse_absolute_date("25/12/2025"), date_only);
    assert_eq!(parse_absolute_date("2025-12-25"), date_only);
    assert_eq!(parse_absolute_date("2025/12/25"), date_only);

    assert_eq!(parse_absolute_date("2025/12/25 14:30"), None);
    assert_eq!(parse_absolute_date("25.12.2025"), None);
    assert_eq!(parse_absolute_date("25-12-2025 14:30:10"), None);
    assert_eq!(parse_absolute_date("25-12-2025 24:00"), None);
    assert_eq!(parse_absolute_date("29-02-2025"), None);
    assert_eq!(parse_absolute_date("29-02-2024"), Some(midnight(2024, 2, 29)));
    assert_eq!(parse_absolute_date("tomorrow"), None);
    assert_eq!(parse_absolute_date(""), None);
}

#[test]
fn a_written_date_may_lie_in_the_past() {
    assert_eq!(parse_due_date(Some("01-01-2020")).unwrap(), Some(midnight(2020, 1, 1)));
    assert_eq!(
        parse_due_date(Some("2025-08-07 11:59")).unwrap(),
        Some(test_date(2025, 8, 7, 11, 59))
    );
}

#[test]
fn fixed_phrases_are_reckoned_from_the_day_of_now() {
    let now = current_time();
    let read = |text: &str| parse_relative_date(text, now, 0).unwrap();
    assert_eq!(read("tomorrow"), Some(midnight(2025, 8, 8)));
    assert_eq!(read("yesterday"), Some(midnight(2025, 8, 6)));
    assert_eq!(read("next week"), Some(midnight(2025, 8, 14)));
    assert_eq!(read("last week"), Some(midnight(2025, 7, 31)));

    let end_of_year = test_date(2025, 12, 31, 23, 59);
    assert_eq!(
        parse_relative_date("tomorrow", end_of_year, 0).unwrap(),
        Some(midnight(2026, 1, 1))
    );
    assert_eq!(
        parse_relative_date("next week", end_of_year, 0).unwrap(),
        Some(midnight(2026, 1, 7))
    );
}

#[test]
fn fixed_phrases_at_the_end_of_the_calendar() {
    let last = Timestamp::from_ymd_hms(262142, 12, 31, 0, 0, 0).unwrap();
    assert_eq!(parse_relative_date("tomorrow", last, 0).unwrap(), None);
    assert_eq!(parse_relative_date("next week", last, 0).unwrap(), None);
    assert!(parse_relative_date("yesterday", last, 0).unwrap().is_some());
    // So far from the common era no other phrase is resolved.
    assert_eq!(parse_relative_date("3 days ago", last, 0).unwrap(), None);
    let first = Timestamp::from_ymd_hms(-262143, 1, 1, 0, 0, 0).unwrap();
    assert_eq!(parse_relative_date("yesterday", first, 0).unwrap(), None);
    assert_eq!(parse_relative_date("last week", first, 0).unwrap(), None);
}

#[test]
fn english_phrases_are_resolved() {
    let now = current_time();
    let read = |text: &str| parse_relative_date(text, now, 0).unwrap();
    assert_eq!(read("3 days"), Some(midnight(2025, 8, 10)));
    assert_eq!(read("2 weeks"), Some(midnight(2025, 8, 21)));
    assert_eq!(read("3 days ago"), Some(midnight(2025, 8, 4)));
    assert_eq!(read("friday"), Some(midnight(2025, 8, 8)));
    assert_eq!(read("next friday"), Some(midnight(2025, 8, 15)));
    assert_eq!(read("last friday"), Some(midnight(2025, 8, 1)));
    assert_eq!(read("1 september"), Some(midnight(2025, 9, 1)));
    assert_eq!(read("september 1, 2026"), Some(midnight(2026, 9, 1)));
    assert_eq!(read("today"), Some(midnight(2025, 8, 7)));
    assert_eq!(read("1 month"), Some(midnight(2025, 9, 7)));
    assert_eq!(read("friday 8pm"), Some(midnight(2025, 8, 8)));
    assert_eq!(read("next thursday 18:30"), Some(midnight(2025, 8, 14)));
    assert_eq!(read("someday"), None);
    assert_eq!(read("3 fortnights"), None);
}

#[test]
fn english_phrases_give_the_day_in_universal_time() {
    // Two hours east of universal time, shortly after midnight.
    let now = test_date(2025, 8, 7, 1, 0);
    assert_eq!(
        parse_relative_date("1 hour", now, 7200).unwrap(),
        Some(midnight(2025, 8, 7))
    );
    assert_eq!(
        parse_relative_date("1 hour", now, 0).unwrap(),
        Some(midnight(2025, 8, 7))
    );
    assert_eq!(
        parse_relative_date("1 day", now, 7200).unwrap(),
        Some(midnight(2025, 8, 7))
    );
    assert_eq!(
        parse_relative_date("1 day", now, 0).unwrap(),
        Some(midnight(2025, 8, 8))
    );
    // Five hours west of it, late in the evening.
    let now = test_date(2025, 8, 7, 22, 0);
    assert_eq!(
        parse_relative_date("1 hour", now, -18000).unwrap(),
        Some(midnight(2025, 8, 8))
    );
    // An offset of a day or more is no offset.
    assert_eq!(parse_relative_date("1 hour", now, 86_400).unwrap(), None);
    assert_eq!(parse_relative_date("1 hour", now, -86_400).unwrap(), None);
    assert!(parse_relative_date("1 hour", now, 86_399).unwrap().is_some());
}

#[test]
fn a_relative_date_before_now_is_refused() {
    let now = current_time();
    match parse_due_date_at(Some("Today"), now, 0).unwrap_err() {
        TodoError::InvalidDate { input, reason } => {
            assert_eq!(input, "today");
            assert_eq!(reason, "Date cannot be in the past");
        }
        _ => panic!("Expected InvalidDate error"),
    }
    match parse_due_date_at(Some("  3 Days Ago "), now, 0).unwrap_err() {
        TodoError::InvalidDate { input, .. } => assert_eq!(input, "3 days ago"),
        _ => panic!("Expected InvalidDate error"),
    }
    // At midnight the day of now is not before now.
    let at_midnight = midnight(2025, 8, 7);
    assert_eq!(
        parse_due_date_at(Some("today"), at_midnight, 0).unwrap(),
        Some(at_midnight)
    );
}

#[test]
fn settling_a_relative_date() {
    let now = current_time();
    assert_eq!(
        settle_relative_date("soon", Some(now), now).unwrap(),
        Some(now)
    );
    assert_eq!(
        settle_relative_date("soon", Some(midnight(2025, 8, 8)), now).unwrap(),
        Some(midnight(2025, 8, 8))
    );
    match settle_relative_date("soon", Some(test_date(2025, 8, 7, 11, 59)), now).unwrap_err() {
        TodoError::InvalidDate { input, reason } => {
            assert_eq!(input, "soon");
            assert_eq!(reason, "Date cannot be in the past");
        }
        _ => panic!("Expected InvalidDate error"),
    }
    match settle_relative_date("soon", None, now).unwrap_err() {
        TodoError::InvalidDateFormat { input } => assert_eq!(input, "soon"),
        _ => panic!("Expected InvalidDateFormat error"),
    }
}

#[test]
fn reading_a_due_date_that_is_already_in_lower_case() {
    let now = current_time();
    assert_eq!(read_due_date("", now, 0).unwrap(), None);
    assert_eq!(
        read_due_date("08-08-2025", now, 0).unwrap(),
        Some(midnight(2025, 8, 8))
    );
    assert_eq!(
        read_due_date("tomorrow", now, 0).unwrap(),
        Some(midnight(2025, 8, 8))
    );
    // Nothing is trimmed or lowered here.
    match read_due_date("Tomorrow", now, 0).unwrap_err() {
        TodoError::InvalidDateFormat { input } => assert_eq!(input, "Tomorrow"),
        _ => panic!("Expected InvalidDateFormat error"),
    }
    match read_due_date("08-08-2025x", now, 0).unwrap_err() {
        TodoError::InvalidDateFormat { input } => assert_eq!(input, "08-08-2025x"),
        _ => panic!("Expected InvalidDateFormat error"),
    }
}

#[test]
fn plain_phrases() {
    assert!(check_plain_phrase(""));
    assert!(check_plain_phrase("next friday 8pm"));
    assert!(check_plain_phrase("6.03pm"));
    assert!(check_plain_phrase("12345 days"));
    assert!(check_plain_phrase("12345-12345/12345"));
    assert!(!check_plain_phrase("123456 days"));
    assert!(!check_plain_phrase("in 1234567"));
    assert!(!check_plain_phrase("18:03:40.x"));
    assert!(!check_plain_phrase("18:03:40. 5"));
    assert!(!check_plain_phrase("friday."));
    assert!(check_plain_phrase("18:03:40.5"));
    assert!(!check_plain_phrase("3 day\u{e9}"));
    assert!(!check_plain_phrase("\u{663} days"));
    assert!(check_plain_phrase("\u{7f}"));
    assert!(!check_plain_phrase("\u{80}"));
}

#[test]
fn phrases_that_are_not_plain_are_no_dates() {
    let now = current_time();
    assert_eq!(parse_relative_date("123456 days", now, 0).unwrap(), None);
    assert_eq!(parse_relative_date("3 day\u{e9}", now, 0).unwrap(), None);
    assert_eq!(parse_relative_date("18:03:40.x", now, 0).unwrap(), None);
    assert_eq!(parse_relative_date("2 \u{e9}", now, 0).unwrap(), None);
    match parse_due_date_at(Some("2000000000 weeks"), now, 0).unwrap_err() {
        TodoError::InvalidDateFormat { input } => assert_eq!(input, "2000000000 weeks"),
        _ => panic!("Expected InvalidDateFormat error"),
    }
    // Within the limit the resolver is asked, whatever it makes of the words.
    assert_eq!(
        parse_relative_date("99999 days", now, 0).unwrap(),
        Timestamp::at_midnight(now.day_number() + 99_999)
    );
    assert_eq!(
        parse_relative_date("99999 weeks ago", now, 0).unwrap(),
        Timestamp::at_midnight(now.day_number() - 7 * 99_999)
    );
    assert_eq!(parse_relative_date("99999 years", now, 0).unwrap(), Some(midnight(102_024, 8, 7)));
    assert_eq!(parse_relative_date("2 x", now, 0).unwrap(), None);
    assert_eq!(parse_relative_date("10:30:15.25", now, 0).unwrap(), Some(midnight(2025, 8, 7)));
    assert_eq!(parse_relative_date("'", now, 0).unwrap(), None);
    assert_eq!(parse_relative_date("-", now, 0).unwrap(), None);
    assert_eq!(parse_relative_date("99999:99999", now, 0).unwrap(), None);
    assert_eq!(parse_relative_date("1:30 +99999:99999", now, 0).unwrap(), None);
}

// Every text over the given letters, up to the given length.
fn texts_over(letters: &[char], length: usize) -> Vec<String> {
    let mut all = vec![String::new()];
    let mut last = vec![String::new()];
    for _ in 0..length {
        let mut next = Vec::new();
        for text in &last {
            for c in letters {
                let mut longer = text.clone();
                longer.push(*c);
                next.push(longer);
            }
        }
        all.extend(next.iter().cloned());
        last = next;
    }
    all
}

fn moments() -> Vec<Timestamp> {
    vec![
        Timestamp::from_ymd_hms(1, 1, 1, 0, 0, 0).unwrap(),
        Timestamp::from_ymd_hms(2024, 2, 29, 23, 59, 59).unwrap(),
        Timestamp::new(739_470, 86_399, 1_999_999_999).unwrap(),
        Timestamp::from_ymd_hms(9999, 12, 31, 23, 59, 59).unwrap(),
    ]
}

#[test]
fn every_short_plain_phrase_is_answered() {
    let letters = ['1', '9', ' ', '-', '/', ':', '.', 'd', 'm', 'y', 'a', 'p', '+', ',', 'T', '\''];
    let mut asked = 0;
    for text in texts_over(&letters, 4) {
        for now in [moments()[0], moments()[3]] {
            for offset in [0, -43_200] {
                let plain = check_plain_phrase(&text);
                let found = parse_relative_date(&text, now, offset).unwrap();
                if !plain {
                    assert_eq!(found, None, "{text:?}");
                }
                asked += 1;
            }
        }
    }
    assert!(asked > 250_000);
}

#[test]
fn phrases_with_large_numbers_are_answered() {
    let numbers = ["0", "1", "12", "31", "60", "99", "1940", "9999", "99999", "00000"];
    let units = [
        "s", "sec", "m", "min", "h", "hours", "d", "days", "w", "weeks", "mon", "months", "y",
        "years", "am", "pm", "jan", "feb", "december", "fri", "sunday", "x", "ago",
    ];
    let tails = ["", " ago", " 99999", " 99999:99999", " 12:30", " 9.30pm", " 23:59:59.99999", "."];
    let heads = ["", "-", "next ", "last ", "- "];
    for now in moments() {
        for offset in [0, 50_400, -43_200, 86_399, -86_399] {
            for head in heads {
                for number in numbers {
                    for unit in units {
                        for tail in tails {
                            for gap in ["", " "] {
                                let text = format!("{head}{number}{gap}{unit}{tail}");
                                let plain = check_plain_phrase(&text);
                                let found = parse_relative_date(&text, now, offset).unwrap();
                                if !plain {
                                    assert_eq!(found, None, "{text:?}");
                                }
                            }
                        }
                    }
                }
            }
        }
    }
}

#[test]
fn dates_and_times_in_phrases_are_answered() {
    let dates = [
        "99999-99999-99999", "2025-02-30", "0-0-0", "1/1", "31/12/99", "99/99/99999", "12/31/2025",
        "1 jan 99999", "jan 1, 99999", "99999 jan", "jan 99999", "monday", "next monday",
        "last dec", "today", "now", "tomorrow", "yesterday", "2025", "99999",
    ];
    let times = [
        "", " 0:0", " 24:00", " 99999:99999:99999", " 1:2:3.4", " 1:2:3.99999", " 12pm", " 99999am",
        " 1.30am", " 10:30 +0200", " 10:30 -99999", " 10:30 +99999:99999", " 10:30:00Z",
        " 10:30Z", "T10:30", " T 10:30:15.5 pm", " 10:30 pm +1", " 1:2:3.4+5",
    ];
    for now in moments() {
        for offset in [0, 50_400, -43_200] {
            for date in dates {
                for time in times {
                    let text = format!("{date}{time}");
                    assert!(check_plain_phrase(&text), "{text:?}");
                    assert!(parse_relative_date(&text, now, offset).is_ok());
                }
            }
        }
    }
}

#[test]
fn every_short_text_is_answered_as_a_written_date() {
    let letters = ['0', '1', '9', '-', '/', ' ', ':', '+', '\u{e9}', '\u{661}', '\u{1f534}', 'T'];
    let mut dates = 0;
    for text in texts_over(&letters, 4) {
        if parse_absolute_date(&text).is_some() {
            dates += 1;
        }
        let longer = format!("1-1-1{text}");
        if parse_absolute_date(&longer).is_some() {
            dates += 1;
        }
        let timed = format!("9-9-9 1:{text}");
        if parse_absolute_date(&timed).is_some() {
            dates += 1;
        }
    }
    assert!(dates > 0);
    assert_eq!(parse_absolute_date("1-1-1"), Timestamp::from_ymd_hms(1, 1, 1, 0, 0, 0));
    assert_eq!(parse_absolute_date("9-9-9 1:09"), Timestamp::from_ymd_hms(9, 9, 9, 1, 9, 0));
    assert_eq!(parse_absolute_date("262143-1-1"), None);
    assert_eq!(parse_absolute_date("31-12-262142"), None);
    assert_eq!(
        parse_absolute_date("+262142-12-31"),
        Timestamp::from_ymd_hms(262142, 12, 31, 0, 0, 0)
    );
}

#[test]
fn texts_outside_ascii_are_lowered_and_trimmed() {
    let now = current_time();
    assert_eq!(
        parse_due_date_at(Some("\u{2003}TOMORROW\u{a0}"), now, 0).unwrap(),
        Some(midnight(2025, 8, 8))
    );
    match parse_due_date_at(Some(" \u{c9}T\u{c9} "), now, 0).unwrap_err() {
        TodoError::InvalidDateFormat { input } => assert_eq!(input, "\u{e9}t\u{e9}"),
        _ => panic!("Expected InvalidDateFormat error"),
    }
    assert_eq!(parse_due_date_at(Some("\u{2003}\u{a0}"), now, 0).unwrap(), None);
}

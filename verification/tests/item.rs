use todo_app::todo::{Priority, SortBy, Timestamp, TodoError, TodoItem};

fn test_date(year: i32, month: u32, day: u32, hour: u32, min: u32) -> Timestamp {
    Timestamp::from_ymd_hms(year, month, day, hour, min, 0).unwrap()
}

// The moment at which the records below are made.
fn current_time() -> Timestamp {
    Timestamp::from_ymd_hms(2024, 12, 1, 9, 15, 30).unwrap()
}

// A moment that lies the given number of seconds after `current_time`.
fn later(seconds: u32) -> Timestamp {
    let now = current_time();
    Timestamp::new(now.day_number(), now.seconds_of_day() + seconds, 0).unwrap()
}

fn create_test_todo() -> TodoItem {
    TodoItem::new(
        1,
        "Test Todo".to_string(),
        Some("Test description".to_string()),
        false,
        Some(test_date(2024, 12, 25, 14, 30)),
        Some(Priority::High),
        Some(vec!["work".to_string(), "urgent".to_string()]),
        current_time(),
    )
}

fn create_minimal_todo() -> TodoItem {
    TodoItem::new(
        1,
        "Minimal Todo".to_string(),
        None,
        false,
        None,
        None,
        None,
        current_time(),
    )
}

#[test]
fn test_todo_item_creation() {
    let todo = create_test_todo();

    assert_eq!(todo.id(), 1);
    assert_eq!(todo.title(), "Test Todo");
    assert_eq!(todo.description(), Some("Test description"));
    assert!(!todo.completed());
    assert!(todo.due_date().is_some());
    assert_eq!(todo.priority(), Some(Priority::High));
    assert_eq!(
        todo.tags(),
        Some(["work".to_string(), "urgent".to_string()].as_slice())
    );
}

#[test]
fn test_minimal_todo_creation() {
    let todo = create_minimal_todo();

    assert_eq!(todo.id(), 1);
    assert_eq!(todo.title(), "Minimal Todo");
    assert_eq!(todo.description(), None);
    assert!(!todo.completed());
    assert!(todo.due_date().is_none());
    assert_eq!(todo.priority(), None);
    assert_eq!(todo.tags(), None);
}

#[test]
fn test_timestamps_are_set() {
    let todo = create_test_todo();

    assert_eq!(todo.created_at(), current_time());
    assert_eq!(todo.updated_at(), current_time());
    assert_eq!(todo.created_at(), todo.updated_at());
}

#[test]
fn test_getters() {
    let todo = create_test_todo();

    assert_eq!(todo.id(), 1);
    assert_eq!(todo.title(), "Test Todo");
    assert_eq!(todo.description(), Some("Test description"));
    assert!(!todo.completed());
    assert!(todo.due_date().is_some());
    assert_eq!(todo.priority(), Some(Priority::High));
    assert_eq!(
        todo.tags(),
        Some(["work".to_string(), "urgent".to_string()].as_slice())
    );
}

#[test]
fn test_is_overdue() {
    let now = test_date(2025, 8, 7, 12, 0);
    let past_date = test_date(2025, 8, 6, 12, 0);
    let overdue_todo = TodoItem::new(
        1,
        "Overdue Todo".to_string(),
        None,
        false,
        Some(past_date),
        None,
        None,
        now,
    );
    assert!(overdue_todo.is_overdue(now));

    let completed_overdue = TodoItem::new(
        2,
        "Completed Overdue".to_string(),
        None,
        true,
        Some(past_date),
        None,
        None,
        now,
    );
    assert!(!completed_overdue.is_overdue(now));

    let future_date = test_date(2025, 8, 8, 12, 0);
    let future_todo = TodoItem::new(
        3,
        "Future Todo".to_string(),
        None,
        false,
        Some(future_date),
        None,
        None,
        now,
    );
    assert!(!future_todo.is_overdue(now));

    let no_due_date = TodoItem::new(
        4,
        "No Due Date".to_string(),
        None,
        false,
        None,
        None,
        None,
        now,
    );
    assert!(!no_due_date.is_overdue(now));
}

#[test]
fn test_set_title() {
    let mut todo = create_test_todo();
    let original_updated_at = todo.updated_at();

    todo.set_title("New Title".to_string(), later(1));

    assert_eq!(todo.title(), "New Title");
    assert!(original_updated_at.is_before(&todo.updated_at()));
    assert_eq!(todo.updated_at(), later(1));
    assert_eq!(todo.created_at(), current_time());
}

#[test]
fn test_set_description() {
    let mut todo = create_test_todo();
    let original_updated_at = todo.updated_at();

    todo.set_description(Some("New description".to_string()), later(1));
    assert_eq!(todo.description(), Some("New description"));
    assert!(original_updated_at.is_before(&todo.updated_at()));

    let updated_at_after_first_change = todo.updated_at();

    todo.set_description(None, later(2));
    assert_eq!(todo.description(), None);
    assert!(updated_at_after_first_change.is_before(&todo.updated_at()));
}

#[test]
fn test_set_completed() {
    let mut todo = create_test_todo();
    let original_updated_at = todo.updated_at();

    todo.set_completed(true, later(1));
    assert!(todo.completed());
    assert!(original_updated_at.is_before(&todo.updated_at()));

    let updated_at_after_completion = todo.updated_at();

    todo.set_completed(false, later(2));
    assert!(!todo.completed());
    assert!(updated_at_after_completion.is_before(&todo.updated_at()));
}

#[test]
fn test_set_due_date() {
    let mut todo = create_test_todo();
    let original_updated_at = todo.updated_at();
    let new_date = test_date(2025, 1, 1, 12, 0);

    todo.set_due_date(Some(new_date), later(1));
    assert_eq!(todo.due_date(), Some(new_date));
    assert!(original_updated_at.is_before(&todo.updated_at()));

    let updated_at_after_date_change = todo.updated_at();

    todo.set_due_date(None, later(2));
    assert_eq!(todo.due_date(), None);
    assert!(updated_at_after_date_change.is_before(&todo.updated_at()));
}

#[test]
fn test_set_priority() {
    let mut todo = create_test_todo();
    let original_updated_at = todo.updated_at();

    todo.set_priority(Some(Priority::Low), later(1));
    assert_eq!(todo.priority(), Some(Priority::Low));
    assert!(original_updated_at.is_before(&todo.updated_at()));

    let updated_at_after_priority_change = todo.updated_at();

    todo.set_priority(None, later(2));
    assert_eq!(todo.priority(), None);
    assert!(updated_at_after_priority_change.is_before(&todo.updated_at()));
}

#[test]
fn test_set_tags() {
    let mut todo = create_test_todo();
    let original_updated_at = todo.updated_at();

    let new_tags = vec!["personal".to_string(), "health".to_string()];
    todo.set_tags(Some(new_tags.clone()), later(1));
    assert_eq!(todo.tags(), Some(new_tags.as_slice()));
    assert!(original_updated_at.is_before(&todo.updated_at()));

    let updated_at_after_tags_change = todo.updated_at();

    todo.set_tags(None, later(2));
    assert_eq!(todo.tags(), None);
    assert!(updated_at_after_tags_change.is_before(&todo.updated_at()));
}

#[test]
fn test_priority_enum() {
    assert_eq!(Priority::High.to_string(), "üî¥ High");
    assert_eq!(Priority::Medium.to_string(), "üü° Medium");
    assert_eq!(Priority::Low.to_string(), "üü¢ Low");
}

#[test]
fn test_priority_from_str() {
    assert_eq!("high".parse::<Priority>().unwrap(), Priority::High);
    assert_eq!("HIGH".parse::<Priority>().unwrap(), Priority::High);
    assert_eq!("High".parse::<Priority>().unwrap(), Priority::High);

    assert_eq!("medium".parse::<Priority>().unwrap(), Priority::Medium);
    assert_eq!("MEDIUM".parse::<Priority>().unwrap(), Priority::Medium);
    assert_eq!("Medium".parse::<Priority>().unwrap(), Priority::Medium);

    assert_eq!("low".parse::<Priority>().unwrap(), Priority::Low);
    assert_eq!("LOW".parse::<Priority>().unwrap(), Priority::Low);
    assert_eq!("Low".parse::<Priority>().unwrap(), Priority::Low);

    assert!("invalid".parse::<Priority>().is_err());
    assert!("".parse::<Priority>().is_err());
}

#[test]
fn test_priority_ordering() {
    assert!(Priority::High > Priority::Medium);
    assert!(Priority::Medium > Priority::Low);
    assert!(Priority::High > Priority::Low);

    assert!(Some(Priority::High) > Some(Priority::Medium));
    assert!(Some(Priority::Medium) > Some(Priority::Low));
    assert!(Some(Priority::Low) > None);
}

#[test]
fn test_sort_by_enum() {
    assert_eq!("due".parse::<SortBy>().unwrap(), SortBy::Due);
    assert_eq!("DUE".parse::<SortBy>().unwrap(), SortBy::Due);
    assert_eq!("priority".parse::<SortBy>().unwrap(), SortBy::Priority);
    assert_eq!("PRIORITY".parse::<SortBy>().unwrap(), SortBy::Priority);
    assert_eq!(
        "due+priority".parse::<SortBy>().unwrap(),
        SortBy::DueThenPriority
    );
    assert_eq!(
        "DUE+PRIORITY".parse::<SortBy>().unwrap(),
        SortBy::DueThenPriority
    );

    let result: Result<SortBy, TodoError> = "invalid".parse();
    assert!(result.is_err());
    if let Err(TodoError::InvalidSortField { field }) = result {
        assert_eq!(field, "invalid");
    } else {
        panic!("Expected InvalidSortField error");
    }
}

#[test]
fn test_clone() {
    let original = create_test_todo();
    let cloned = original.clone();

    assert_eq!(original.id(), cloned.id());
    assert_eq!(original.title(), cloned.title());
    assert_eq!(original.description(), cloned.description());
    assert_eq!(original.completed(), cloned.completed());
    assert_eq!(original.due_date(), cloned.due_date());
    assert_eq!(original.priority(), cloned.priority());
    assert_eq!(original.tags(), cloned.tags());
    assert_eq!(original.created_at(), cloned.created_at());
    assert_eq!(original.updated_at(), cloned.updated_at());
}

#[test]
fn item_test_edge_cases() {
    let edge_todo = TodoItem::new(
        u32::MAX,
        String::new(),
        Some(String::new()),
        true,
        None,
        None,
        Some(vec![]),
        current_time(),
    );

    assert_eq!(edge_todo.id(), u32::MAX);
    assert_eq!(edge_todo.title(), "");
    assert_eq!(edge_todo.description(), Some(""));
    assert!(edge_todo.completed());
    assert_eq!(edge_todo.tags(), Some([].as_slice()));
    assert_eq!(edge_todo.tags_string(), Some("".to_string()));
}

#[test]
fn test_overdue_edge_cases() {
    let now = Timestamp::from_ymd_hms(2025, 8, 7, 12, 0, 0).unwrap();

    let todo_now = TodoItem::new(1, "Now".to_string(), None, false, Some(now), None, None, now);
    assert!(!todo_now.is_overdue(now));

    // Due five minutes before, and looked at a nanosecond after that, as a
    // clock that is read twice would have it.
    let five_minutes_ago = Timestamp::from_ymd_hms(2025, 8, 7, 11, 55, 0).unwrap();
    let a_moment_later = Timestamp::new(now.day_number(), now.seconds_of_day(), 1).unwrap();
    let todo_past = TodoItem::new(
        1,
        "Past".to_string(),
        None,
        false,
        Some(five_minutes_ago),
        None,
        None,
        now,
    );
    assert!(todo_past.is_overdue(a_moment_later));
    assert!(!todo_past.is_overdue(now));

    let one_second_future = Timestamp::from_ymd_hms(2025, 8, 7, 12, 0, 1).unwrap();
    let todo_future = TodoItem::new(
        1,
        "Future".to_string(),
        None,
        false,
        Some(one_second_future),
        None,
        None,
        now,
    );
    assert!(!todo_future.is_overdue(now));
}

#[test]
fn overdue_counts_five_minutes_across_midnight() {
    let due = Timestamp::from_ymd_hms(2025, 12, 31, 23, 58, 0).unwrap();
    let todo = TodoItem::new(1, "Late".to_string(), None, false, Some(due), None, None, due);
    assert!(!todo.is_overdue(Timestamp::from_ymd_hms(2026, 1, 1, 0, 3, 0).unwrap()));
    assert!(todo.is_overdue(Timestamp::from_ymd_hms(2026, 1, 1, 0, 3, 1).unwrap()));
    assert_eq!(
        due.plus_minutes(5),
        Some(Timestamp::from_ymd_hms(2026, 1, 1, 0, 3, 0).unwrap())
    );
    assert_eq!(
        due.plus_minutes(-5),
        Some(Timestamp::from_ymd_hms(2025, 12, 31, 23, 53, 0).unwrap())
    );
}

#[test]
fn test_multiple_updates_timestamp() {
    let mut todo = create_minimal_todo();
    let original_time = todo.updated_at();

    todo.set_title("Updated Title".to_string(), later(2));
    let after_title = todo.updated_at();
    assert!(original_time.is_before(&after_title));

    todo.set_completed(true, later(4));
    let after_completion = todo.updated_at();
    assert!(after_title.is_before(&after_completion));

    todo.set_priority(Some(Priority::Medium), later(6));
    let after_priority = todo.updated_at();
    assert!(after_completion.is_before(&after_priority));

    assert_eq!(todo.created_at(), original_time);
}

#[test]
fn test_tags_with_special_characters() {
    let special_tags = vec![
        "tag with spaces".to_string(),
        "tag-with-dashes".to_string(),
        "tag_with_underscores".to_string(),
        "üè∑Ô∏èemoji-tag".to_string(),
        "123numeric".to_string(),
    ];

    let todo = TodoItem::new(
        1,
        "Special Tags Todo".to_string(),
        None,
        false,
        None,
        None,
        Some(special_tags.clone()),
        current_time(),
    );

    assert_eq!(todo.tags(), Some(special_tags.as_slice()));
    assert_eq!(
        todo.tags_string(),
        Some(
            "tag with spaces, tag-with-dashes, tag_with_underscores, üè∑Ô∏èemoji-tag, 123numeric"
                .to_string()
        )
    );
}

#[test]
fn tags_string_of_one_tag_and_of_none() {
    let mut todo = create_minimal_todo();
    assert_eq!(todo.tags_string(), None);
    todo.set_tags(Some(vec!["solo".to_string()]), later(1));
    assert_eq!(todo.tags_string(), Some("solo".to_string()));
    todo.set_tags(Some(vec![String::new(), String::new()]), later(2));
    assert_eq!(todo.tags_string(), Some(", ".to_string()));
}

#[test]
fn a_setter_changes_one_field_and_the_time_of_change() {
    let mut todo = create_test_todo();
    todo.set_completed(true, later(5));
    assert_eq!(todo.id(), 1);
    assert_eq!(todo.title(), "Test Todo");
    assert_eq!(todo.description(), Some("Test description"));
    assert_eq!(todo.due_date(), Some(test_date(2024, 12, 25, 14, 30)));
    assert_eq!(todo.priority(), Some(Priority::High));
    assert_eq!(
        todo.tags(),
        Some(["work".to_string(), "urgent".to_string()].as_slice())
    );
    assert_eq!(todo.created_at(), current_time());
    assert_eq!(todo.updated_at(), later(5));
}

#[test]
fn enum_names_outside_ascii_are_refused() {
    // The Kelvin sign lowers to `k`, and the dotted capital I to an `i`
    // followed by a dot above: neither spells a word that is accepted.
    assert!("H\u{130}GH".parse::<Priority>().is_err());
    assert!("hi\u{307}gh".parse::<Priority>().is_err());
    assert!(" high".parse::<Priority>().is_err());
    assert!("due + priority".parse::<SortBy>().is_err());
    assert!("h".parse::<Priority>().is_err());
    match "Urgent".parse::<Priority>() {
        Err(TodoError::InvalidPriority { input }) => assert_eq!(input, "Urgent"),
        _ => panic!("Expected InvalidPriority error"),
    }
    assert_eq!(Priority::from_lowercase("high", "HIGH").unwrap(), Priority::High);
    assert!(Priority::from_lowercase("HIGH", "HIGH").is_err());
    assert_eq!(SortBy::from_lowercase("due", "Due").unwrap(), SortBy::Due);
    match SortBy::from_lowercase("Due", "Due") {
        Err(TodoError::InvalidSortField { field }) => assert_eq!(field, "Due"),
        _ => panic!("Expected InvalidSortField error"),
    }
}

#[test]
fn timestamps_hold_what_the_calendar_says() {
    let epoch = Timestamp::from_ymd_hms(1970, 1, 1, 0, 0, 0).unwrap();
    assert_eq!(epoch.day_number(), 719_163);
    assert_eq!(Timestamp::from_ymd_hms(1, 1, 1, 0, 0, 0).unwrap().day_number(), 1);
    assert_eq!(Timestamp::from_ymd_hms(0, 12, 31, 0, 0, 0).unwrap().day_number(), 0);
    let moment = Timestamp::from_ymd_hms(2025, 8, 7, 13, 45, 59).unwrap();
    assert_eq!(moment.day_number(), 739_470);
    assert_eq!(moment.seconds_of_day(), 13 * 3600 + 45 * 60 + 59);
    assert_eq!(moment.nanosecond(), 0);
    assert_eq!(moment.hour(), 13);
    assert_eq!(moment.minute(), 45);
    assert_eq!(moment.second(), 59);
    assert_eq!(Timestamp::at_midnight(739_470), Timestamp::from_ymd_hms(2025, 8, 7, 0, 0, 0));

    assert_eq!(Timestamp::from_ymd_hms(2025, 2, 29, 0, 0, 0), None);
    assert!(Timestamp::from_ymd_hms(2024, 2, 29, 0, 0, 0).is_some());
    assert_eq!(Timestamp::from_ymd_hms(2025, 13, 1, 0, 0, 0), None);
    assert_eq!(Timestamp::from_ymd_hms(2025, 0, 1, 0, 0, 0), None);
    assert_eq!(Timestamp::from_ymd_hms(2025, 1, 32, 0, 0, 0), None);
    assert_eq!(Timestamp::from_ymd_hms(2025, 1, 1, 24, 0, 0), None);
    assert_eq!(Timestamp::from_ymd_hms(2025, 1, 1, 0, 60, 0), None);
    assert_eq!(Timestamp::from_ymd_hms(2025, 1, 1, 0, 0, 60), None);
}

#[test]
fn timestamps_cover_the_range_of_the_calendar() {
    let first = Timestamp::from_ymd_hms(-262143, 1, 1, 0, 0, 0).unwrap();
    let last = Timestamp::from_ymd_hms(262142, 12, 31, 23, 59, 59).unwrap();
    assert_eq!(first.day_number(), todo_app::todo::time::MIN_DAY);
    assert_eq!(last.day_number(), todo_app::todo::time::MAX_DAY);
    assert_eq!(Timestamp::from_ymd_hms(-262144, 12, 31, 0, 0, 0), None);
    assert_eq!(Timestamp::from_ymd_hms(262143, 1, 1, 0, 0, 0), None);
    assert_eq!(Timestamp::new(first.day_number() - 1, 0, 0), None);
    assert_eq!(Timestamp::new(last.day_number() + 1, 0, 0), None);
    assert_eq!(Timestamp::new(1, 86_400, 0), None);
    assert_eq!(Timestamp::new(1, 86_399, 2_000_000_000), None);
    assert!(Timestamp::new(1, 86_399, 1_999_999_999).is_some());
    assert_eq!(Timestamp::new(1, 86_398, 1_000_000_000), None);
    assert!(Timestamp::new(1, 59, 1_000_000_000).is_some());
    assert_eq!(last.plus_minutes(1), None);
    assert!(first.plus_minutes(-1).is_none());
    assert!(first.is_before(&last));
    assert!(!last.is_before(&first));
    assert!(!last.is_before(&last));
}

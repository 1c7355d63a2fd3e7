use todo_app::cli::{Cli, CliError, Commands};


#[test]
fn test_cli_default_file() {
    let args = vec!["todo", "list"];
    let cli = Cli::try_parse_from(args).unwrap();

    assert_eq!(cli.file, "todo_list.json");
    assert!(matches!(cli.command, Commands::List { .. }));
}

#[test]
fn test_cli_custom_file() {
    let args = vec!["todo", "--file", "custom.json", "list"];
    let cli = Cli::try_parse_from(args).unwrap();

    assert_eq!(cli.file, "custom.json");
}

#[test]
fn test_add_command_required_only() {
    let args = vec!["todo", "add", "Buy groceries"];
    let cli = Cli::try_parse_from(args).unwrap();

    match cli.command {
        Commands::Add {
            title,
            due_date,
            priority,
            description,
            tags,
        } => {
            assert_eq!(title, "Buy groceries");
            assert_eq!(due_date, None);
            assert_eq!(priority, None);
            assert_eq!(description, None);
            assert_eq!(tags, None);
        }
        _ => panic!("Expected Add command"),
    }
}

#[test]
fn test_add_command_with_all_options() {
    let args = vec![
        "todo",
        "add",
        "Complete project",
        "--due-date",
        "2025-12-25",
        "--priority",
        "high",
        "--description",
        "Finish the todo app",
        "--tags",
        "work,urgent,deadline",
    ];
    let cli = Cli::try_parse_from(args).unwrap();

    match cli.command {
        Commands::Add {
            title,
            due_date,
            priority,
            description,
            tags,
        } => {
            assert_eq!(title, "Complete project");
            assert_eq!(due_date, Some("2025-12-25".to_string()));
            assert_eq!(priority, Some("high".to_string()));
            assert_eq!(description, Some("Finish the todo app".to_string()));
            assert_eq!(
                tags,
                Some(vec![
                    "work".to_string(),
                    "urgent".to_string(),
                    "deadline".to_string()
                ])
            );
        }
        _ => panic!("Expected Add command"),
    }
}

#[test]
fn test_edit_command() {
    let args = vec![
        "todo",
        "edit",
        "1",
        "--title",
        "New title",
        "--priority",
        "low",
        "--description",
        "Updated description",
    ];
    let cli = Cli::try_parse_from(args).unwrap();

    match cli.command {
        Commands::Edit {
            id,
            title,
            description,
            due_date,
            priority,
            tags,
        } => {
            assert_eq!(id, 1);
            assert_eq!(title, Some("New title".to_string()));
            assert_eq!(description, Some("Updated description".to_string()));
            assert_eq!(due_date, None);
            assert_eq!(priority, Some("low".to_string()));
            assert_eq!(tags, None);
        }
        _ => panic!("Expected Edit command"),
    }
}

#[test]
fn test_toggle_command() {
    let args = vec!["todo", "toggle", "42"];
    let cli = Cli::try_parse_from(args).unwrap();

    match cli.command {
        Commands::Toggle { id } => {
            assert_eq!(id, 42);
        }
        _ => panic!("Expected Toggle command"),
    }
}

#[test]
fn test_delete_command() {
    let args = vec!["todo", "delete", "5"];
    let cli = Cli::try_parse_from(args).unwrap();

    match cli.command {
        Commands::Delete { id } => {
            assert_eq!(id, 5);
        }
        _ => panic!("Expected Delete command"),
    }
}

#[test]
fn test_clear_list_command() {
    let args = vec!["todo", "clear-list"];
    let cli = Cli::try_parse_from(args).unwrap();

    assert!(matches!(cli.command, Commands::ClearList));
}

#[test]
fn test_list_command_basic() {
    let args = vec!["todo", "list"];
    let cli = Cli::try_parse_from(args).unwrap();

    match cli.command {
        Commands::List {
            asc,
            desc,
            sort_by,
            only_complete,
            only_pending,
            priority,
            overdue,
            due_today,
            due_tomorrow,
            due_within,
        } => {
            assert!(!asc);
            assert!(!desc);
            assert_eq!(sort_by, None);
            assert!(!only_complete);
            assert!(!only_pending);
            assert_eq!(priority, None);
            assert!(!overdue);
            assert!(!due_today);
            assert!(!due_tomorrow);
            assert_eq!(due_within, None);
        }
        _ => panic!("Expected List command"),
    }
}

#[test]
fn test_list_command_with_options() {
    let args = vec![
        "todo",
        "list",
        "--asc",
        "--sort-by",
        "priority",
        "--only-pending",
        "--priority",
        "high",
        "--overdue",
    ];
    let cli = Cli::try_parse_from(args).unwrap();

    match cli.command {
        Commands::List {
            asc,
            desc,
            sort_by,
            only_complete,
            only_pending,
            priority,
            overdue,
            due_today,
            due_tomorrow,
            due_within,
        } => {
            assert!(asc);
            assert!(!desc);
            assert_eq!(sort_by, Some("priority".to_string()));
            assert!(!only_complete);
            assert!(only_pending);
            assert_eq!(priority, Some("high".to_string()));
            assert!(overdue);
            assert!(!due_today);
            assert!(!due_tomorrow);
            assert_eq!(due_within, None);
        }
        _ => panic!("Expected List command"),
    }
}

#[test]
fn test_invalid_priority_value() {
    let args = vec!["todo", "add", "Task", "--priority", "invalid"];
    let result = Cli::try_parse_from(args);

    assert!(result.is_err());
}

#[test]
fn test_invalid_sort_by_value() {
    let args = vec!["todo", "list", "--sort-by", "invalid"];
    let result = Cli::try_parse_from(args);

    assert!(result.is_err());
}

#[test]
fn test_conflicting_asc_desc() {
    let args = vec!["todo", "list", "--asc", "--desc"];
    let result = Cli::try_parse_from(args);

    assert!(result.is_err());
}

#[test]
fn test_missing_required_title_for_add() {
    let args = vec!["todo", "add"];
    let result = Cli::try_parse_from(args);

    assert!(result.is_err());
}

#[test]
fn test_missing_required_id_for_toggle() {
    let args = vec!["todo", "toggle"];
    let result = Cli::try_parse_from(args);

    assert!(result.is_err());
}

#[test]
fn test_tags_comma_delimiter() {
    let args = vec![
        "todo",
        "add",
        "Task with tags",
        "--tags",
        "work,personal,urgent",
    ];
    let cli = Cli::try_parse_from(args).unwrap();

    match cli.command {
        Commands::Add { tags, .. } => {
            assert_eq!(
                tags,
                Some(vec![
                    "work".to_string(),
                    "personal".to_string(),
                    "urgent".to_string()
                ])
            );
        }
        _ => panic!("Expected Add command"),
    }
}

#[test]
fn test_due_within_numeric_value() {
    let args = vec!["todo", "list", "--due-within", "7"];
    let cli = Cli::try_parse_from(args).unwrap();

    match cli.command {
        Commands::List { due_within, .. } => {
            assert_eq!(due_within, Some(7));
        }
        _ => panic!("Expected List command"),
    }
}

#[test]
fn test_all_sort_by_values() {
    let sort_values = vec!["due", "priority", "due+priority"];

    for sort_value in sort_values {
        let args = vec!["todo", "list", "--sort-by", sort_value];
        let cli = Cli::try_parse_from(args).unwrap();

        match cli.command {
            Commands::List { sort_by, .. } => {
                assert_eq!(sort_by, Some(sort_value.to_string()));
            }
            _ => panic!("Expected List command"),
        }
    }
}

#[test]
fn test_all_priority_values() {
    let priority_values = vec!["high", "medium", "low"];

    for priority_value in priority_values {
        let args = vec!["todo", "add", "Task", "--priority", priority_value];
        let cli = Cli::try_parse_from(args).unwrap();

        match cli.command {
            Commands::Add { priority, .. } => {
                assert_eq!(priority, Some(priority_value.to_string()));
            }
            _ => panic!("Expected Add command"),
        }
    }
}

fn parse(args: &[&str]) -> Result<Cli, CliError> {
    Cli::try_parse_from(args.to_vec())
}

fn refused(args: &[&str]) -> CliError {
    match parse(args) {
        Ok(cli) => panic!("accepted: {:?}", cli),
        Err(e) => e,
    }
}

#[test]
fn file_can_be_named_in_every_form() {
    for args in [
        vec!["todo", "--file", "a.json", "list"],
        vec!["todo", "--file=a.json", "list"],
        vec!["todo", "-f", "a.json", "list"],
        vec!["todo", "-fa.json", "list"],
        vec!["todo", "-f=a.json", "list"],
    ] {
        let cli = Cli::try_parse_from(args).unwrap();
        assert_eq!(cli.file, "a.json");
        assert!(matches!(cli.command, Commands::List { .. }));
    }
}

#[test]
fn file_after_the_command_is_refused() {
    assert_eq!(refused(&["todo", "list", "--file", "a.json"]), CliError::UnknownArgument);
    assert_eq!(refused(&["todo", "list", "-f", "a.json"]), CliError::UnknownArgument);
}

#[test]
fn file_named_twice_or_without_value_is_refused() {
    assert_eq!(
        refused(&["todo", "--file", "a", "--file", "b", "list"]),
        CliError::DuplicateArgument
    );
    assert_eq!(refused(&["todo", "--file"]), CliError::MissingValue);
    assert_eq!(refused(&["todo", "--file", "--help"]), CliError::MissingValue);
    assert_eq!(refused(&["todo", "-f"]), CliError::MissingValue);
}

#[test]
fn a_command_must_be_named() {
    assert_eq!(refused(&[]), CliError::MissingSubcommand);
    assert_eq!(refused(&["todo"]), CliError::MissingSubcommand);
    assert_eq!(refused(&["todo", "--file", "a.json"]), CliError::MissingSubcommand);
    assert_eq!(refused(&["todo", "remove", "1"]), CliError::UnknownSubcommand);
    assert_eq!(refused(&["todo", "LIST"]), CliError::UnknownSubcommand);
    assert_eq!(refused(&["todo", "--", "list"]), CliError::UnknownArgument);
    assert_eq!(refused(&["todo", "--verbose", "list"]), CliError::UnknownArgument);
    assert_eq!(refused(&["todo", "-x", "list"]), CliError::UnknownArgument);
}

#[test]
fn help_and_version_end_the_reading() {
    assert_eq!(refused(&["todo", "--help"]), CliError::HelpRequested);
    assert_eq!(refused(&["todo", "-h"]), CliError::HelpRequested);
    assert_eq!(refused(&["todo", "help"]), CliError::HelpRequested);
    assert_eq!(refused(&["todo", "--version"]), CliError::VersionRequested);
    assert_eq!(refused(&["todo", "-V"]), CliError::VersionRequested);
    assert_eq!(refused(&["todo", "list", "--help"]), CliError::HelpRequested);
    assert_eq!(refused(&["todo", "add", "-h"]), CliError::HelpRequested);
    assert_eq!(refused(&["todo", "toggle", "--version"]), CliError::VersionRequested);
    assert_eq!(refused(&["todo", "delete", "-V"]), CliError::VersionRequested);
}

#[test]
fn options_and_arguments_stand_in_any_order() {
    let cli = parse(&["todo", "add", "--priority", "low", "Task", "--due-date=tomorrow"]).unwrap();
    match cli.command {
        Commands::Add { title, due_date, priority, description, tags } => {
            assert_eq!(title, "Task");
            assert_eq!(due_date, Some("tomorrow".to_string()));
            assert_eq!(priority, Some("low".to_string()));
            assert_eq!(description, None);
            assert_eq!(tags, None);
        }
        _ => panic!("Expected Add command"),
    }
    let cli = parse(&["todo", "edit", "--title=x=y", "7"]).unwrap();
    match cli.command {
        Commands::Edit { id, title, .. } => {
            assert_eq!(id, 7);
            assert_eq!(title, Some("x=y".to_string()));
        }
        _ => panic!("Expected Edit command"),
    }
}

#[test]
fn after_the_mark_every_word_is_an_argument() {
    let cli = parse(&["todo", "add", "--", "--priority"]).unwrap();
    match cli.command {
        Commands::Add { title, priority, .. } => {
            assert_eq!(title, "--priority");
            assert_eq!(priority, None);
        }
        _ => panic!("Expected Add command"),
    }
    assert_eq!(
        refused(&["todo", "add", "--", "--priority", "high"]),
        CliError::UnexpectedArgument
    );
    let cli = parse(&["todo", "add", "-"]).unwrap();
    match cli.command {
        Commands::Add { title, .. } => assert_eq!(title, "-"),
        _ => panic!("Expected Add command"),
    }
}

#[test]
fn an_option_needs_its_value() {
    assert_eq!(refused(&["todo", "add", "Task", "--priority"]), CliError::MissingValue);
    assert_eq!(
        refused(&["todo", "add", "Task", "--description", "--priority", "high"]),
        CliError::MissingValue
    );
    assert_eq!(refused(&["todo", "list", "--due-within", "-3"]), CliError::MissingValue);
    assert_eq!(refused(&["todo", "list", "--due-within", "--"]), CliError::MissingValue);
    let cli = parse(&["todo", "list", "--due-within=-3"]).unwrap();
    match cli.command {
        Commands::List { due_within, .. } => assert_eq!(due_within, Some(-3)),
        _ => panic!("Expected List command"),
    }
    let cli = parse(&["todo", "add", "Task", "--description", "-"]).unwrap();
    match cli.command {
        Commands::Add { description, .. } => assert_eq!(description, Some("-".to_string())),
        _ => panic!("Expected Add command"),
    }
    let cli = parse(&["todo", "add", "Task", "--description="]).unwrap();
    match cli.command {
        Commands::Add { description, .. } => assert_eq!(description, Some(String::new())),
        _ => panic!("Expected Add command"),
    }
}

#[test]
fn a_flag_takes_no_value() {
    assert_eq!(refused(&["todo", "list", "--asc=true"]), CliError::UnexpectedValue);
    assert_eq!(refused(&["todo", "list", "--overdue="]), CliError::UnexpectedValue);
}

#[test]
fn unknown_options_are_refused() {
    assert_eq!(refused(&["todo", "add", "Task", "--title", "x"]), CliError::UnknownArgument);
    assert_eq!(refused(&["todo", "toggle", "1", "--asc"]), CliError::UnknownArgument);
    assert_eq!(refused(&["todo", "clear-list", "--tags", "a"]), CliError::UnknownArgument);
    assert_eq!(refused(&["todo", "list", "--due_today"]), CliError::UnknownArgument);
    assert_eq!(refused(&["todo", "list", "-a"]), CliError::UnknownArgument);
    assert_eq!(refused(&["todo", "list", "--ASC"]), CliError::UnknownArgument);
}

#[test]
fn an_option_is_given_once() {
    assert_eq!(
        refused(&["todo", "add", "Task", "--priority", "high", "--priority", "low"]),
        CliError::DuplicateArgument
    );
    assert_eq!(refused(&["todo", "list", "--asc", "--asc"]), CliError::DuplicateArgument);
    assert_eq!(
        refused(&["todo", "edit", "1", "--title", "a", "--title=b"]),
        CliError::DuplicateArgument
    );
}

#[test]
fn tags_can_be_given_many_times() {
    let cli = parse(&["todo", "add", "Task", "--tags", "a,b", "--tags=c", "--tags", "d,,e"]).unwrap();
    match cli.command {
        Commands::Add { tags, .. } => {
            let expected: Vec<String> =
                ["a", "b", "c", "d", "", "e"].iter().map(|t| t.to_string()).collect();
            assert_eq!(tags, Some(expected));
        }
        _ => panic!("Expected Add command"),
    }
    let cli = parse(&["todo", "edit", "3", "--tags", "one"]).unwrap();
    match cli.command {
        Commands::Edit { id, tags, .. } => {
            assert_eq!(id, 3);
            assert_eq!(tags, Some(vec!["one".to_string()]));
        }
        _ => panic!("Expected Edit command"),
    }
    let cli = parse(&["todo", "add", "Task", "--tags="]).unwrap();
    match cli.command {
        Commands::Add { tags, .. } => assert_eq!(tags, Some(vec![String::new()])),
        _ => panic!("Expected Add command"),
    }
}

#[test]
fn arguments_are_counted() {
    assert_eq!(refused(&["todo", "add", "One", "Two"]), CliError::UnexpectedArgument);
    assert_eq!(refused(&["todo", "edit"]), CliError::MissingArgument);
    assert_eq!(refused(&["todo", "delete"]), CliError::MissingArgument);
    assert_eq!(refused(&["todo", "toggle", "1", "2"]), CliError::UnexpectedArgument);
    assert_eq!(refused(&["todo", "clear-list", "now"]), CliError::UnexpectedArgument);
    assert_eq!(refused(&["todo", "list", "all"]), CliError::UnexpectedArgument);
    assert_eq!(refused(&["todo", "add"]), CliError::MissingArgument);
}

#[test]
fn values_are_checked() {
    assert_eq!(refused(&["todo", "toggle", "abc"]), CliError::InvalidValue);
    assert_eq!(refused(&["todo", "toggle", "4294967296"]), CliError::InvalidValue);
    assert_eq!(refused(&["todo", "delete", "1.5"]), CliError::InvalidValue);
    assert_eq!(refused(&["todo", "edit", ""]), CliError::InvalidValue);
    assert_eq!(refused(&["todo", "list", "--due-within", "soon"]), CliError::InvalidValue);
    assert_eq!(
        refused(&["todo", "list", "--due-within", "9223372036854775808"]),
        CliError::InvalidValue
    );
    assert_eq!(refused(&["todo", "list", "--priority", "HIGH"]), CliError::InvalidValue);
    assert_eq!(refused(&["todo", "add", "Task", "--priority", "invalid"]), CliError::InvalidValue);
    assert_eq!(refused(&["todo", "list", "--sort-by", "invalid"]), CliError::InvalidValue);
    assert_eq!(refused(&["todo", "edit", "1", "--priority", ""]), CliError::InvalidValue);

    let cli = parse(&["todo", "toggle", "4294967295"]).unwrap();
    assert!(matches!(cli.command, Commands::Toggle { id: 4294967295 }));
    let cli = parse(&["todo", "delete", "+5"]).unwrap();
    assert!(matches!(cli.command, Commands::Delete { id: 5 }));
    let cli = parse(&["todo", "toggle", "0007"]).unwrap();
    assert!(matches!(cli.command, Commands::Toggle { id: 7 }));
    let cli = parse(&["todo", "list", "--due-within=-9223372036854775808"]).unwrap();
    assert!(matches!(cli.command, Commands::List { due_within: Some(i64::MIN), .. }));
    let cli = parse(&["todo", "list", "--due-within", "+9223372036854775807"]).unwrap();
    assert!(matches!(cli.command, Commands::List { due_within: Some(i64::MAX), .. }));
}

#[test]
fn options_that_exclude_each_other() {
    assert_eq!(refused(&["todo", "list", "--asc", "--desc"]), CliError::ConflictingArguments);
    assert_eq!(
        refused(&["todo", "list", "--only-complete", "--only-pending"]),
        CliError::ConflictingArguments
    );
    assert_eq!(
        refused(&["todo", "list", "--overdue", "--due-today"]),
        CliError::ConflictingArguments
    );
    assert_eq!(
        refused(&["todo", "list", "--due-tomorrow", "--due-within", "3"]),
        CliError::ConflictingArguments
    );
    let cli = parse(&["todo", "list", "--desc", "--only-complete", "--due-tomorrow"]).unwrap();
    match cli.command {
        Commands::List { asc, desc, only_complete, only_pending, due_tomorrow, .. } => {
            assert!(!asc);
            assert!(desc);
            assert!(only_complete);
            assert!(!only_pending);
            assert!(due_tomorrow);
        }
        _ => panic!("Expected List command"),
    }
}

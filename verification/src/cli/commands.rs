use crate::cli::args::{
    collect_positionals, listed_values, optional_text, optional_texts, positionals, scan,
    scan_args, shape, shape_of, single_flag, single_value, take_flag, take_list, take_single,
    views_of, words, is_plain, inline_value, long_name, CliError, Item, ItemView, Scope, Shape,
};
use crate::utils::number::{parse_i64, parse_u32, parsed_i64, parsed_u32};
use crate::utils::text::{find_char, slice, str_eq, string_views};
use vstd::prelude::*;
use vstd::string::StringExecFns;

verus! {

/// A command line: the file that holds the list, and what to do with it.
#[derive(Debug)]
pub struct Cli {
    pub file: String,
    pub command: Commands,
}

/// What can be done with the list.
#[derive(Debug)]
#[allow(inconsistent_fields)]
pub enum Commands {
    Add {
        title: String,
        due_date: Option<String>,
        priority: Option<String>,
        description: Option<String>,
        tags: Option<Vec<String>>,
    },
    Edit {
        id: u32,
        title: Option<String>,
        description: Option<String>,
        due_date: Option<String>,
        priority: Option<String>,
        tags: Option<Vec<String>>,
    },
    Toggle { id: u32 },
    Delete { id: u32 },
    ClearList,
    List {
        asc: bool,
        desc: bool,
        sort_by: Option<String>,
        only_complete: bool,
        only_pending: bool,
        priority: Option<String>,
        overdue: bool,
        due_today: bool,
        due_tomorrow: bool,
        due_within: Option<i64>,
    },
}

/// What a command holds, as mathematical values.
#[allow(inconsistent_fields)]
pub enum CommandsView {
    Add {
        title: Seq<char>,
        due_date: Option<Seq<char>>,
        priority: Option<Seq<char>>,
        description: Option<Seq<char>>,
        tags: Option<Seq<Seq<char>>>,
    },
    Edit {
        id: u32,
        title: Option<Seq<char>>,
        description: Option<Seq<char>>,
        due_date: Option<Seq<char>>,
        priority: Option<Seq<char>>,
        tags: Option<Seq<Seq<char>>>,
    },
    Toggle { id: u32 },
    Delete { id: u32 },
    ClearList,
    List {
        asc: bool,
        desc: bool,
        sort_by: Option<Seq<char>>,
        only_complete: bool,
        only_pending: bool,
        priority: Option<Seq<char>>,
        overdue: bool,
        due_today: bool,
        due_tomorrow: bool,
        due_within: Option<i64>,
    },
}

/// What a command line holds, as mathematical values.
pub struct CliView {
    pub file: Seq<char>,
    pub command: CommandsView,
}

impl View for Commands {
    type V = CommandsView;

    open spec fn view(&self) -> CommandsView {
        match *self {
            Commands::Add { title, due_date, priority, description, tags } => CommandsView::Add {
                title: title@,
                due_date: optional_text(due_date),
                priority: optional_text(priority),
                description: optional_text(description),
                tags: optional_texts(tags),
            },
            Commands::Edit {
                id,
                title,
                description,
                due_date,
                priority,
                tags,
            } => CommandsView::Edit {
                id,
                title: optional_text(title),
                description: optional_text(description),
                due_date: optional_text(due_date),
                priority: optional_text(priority),
                tags: optional_texts(tags),
            },
            Commands::Toggle { id } => CommandsView::Toggle { id },
            Commands::Delete { id } => CommandsView::Delete { id },
            Commands::ClearList => CommandsView::ClearList,
            Commands::List {
                asc,
                desc,
                sort_by,
                only_complete,
                only_pending,
                priority,
                overdue,
                due_today,
                due_tomorrow,
                due_within,
            } => CommandsView::List {
                asc,
                desc,
                sort_by: optional_text(sort_by),
                only_complete,
                only_pending,
                priority: optional_text(priority),
                overdue,
                due_today,
                due_tomorrow,
                due_within,
            },
        }
    }
}

impl View for Cli {
    type V = CliView;

    open spec fn view(&self) -> CliView {
        CliView { file: self.file@, command: self.command@ }
    }
}

/// The file that holds the list when none is named.
pub open spec fn default_file() -> Seq<char> {
    "todo_list.json"@
}

/// Whether the word is one of those that name a priority on the command
/// line. Other than in the rest of the library, the case of the letters
/// counts here.
pub open spec fn is_priority_word(word: Seq<char>) -> bool {
    word == "high"@ || word == "medium"@ || word == "low"@
}

/// Whether the word is one of those that name a sort field on the command
/// line.
pub open spec fn is_sort_word(word: Seq<char>) -> bool {
    word == "due"@ || word == "priority"@ || word == "due+priority"@
}

/// The one word that belongs to no option: `MissingArgument` if there is
/// none, `UnexpectedArgument` if there are more.
pub open spec fn one_positional(items: Seq<ItemView>) -> Result<Seq<char>, CliError> {
    let found = positionals(items);
    if found.len() == 0 {
        Err(CliError::MissingArgument)
    } else if found.len() > 1 {
        Err(CliError::UnexpectedArgument)
    } else {
        Ok(found[0])
    }
}

/// The id that a command is given as its one argument: `InvalidValue` if
/// the word is no number below 2^32.
pub open spec fn id_argument(items: Seq<ItemView>) -> Result<u32, CliError> {
    match one_positional(items) {
        Err(e) => Err(e),
        Ok(word) => match parsed_u32(word) {
            Some(id) => Ok(id),
            None => Err(CliError::InvalidValue),
        },
    }
}

/// The value of `--priority`: `InvalidValue` if it names no priority.
pub open spec fn priority_value(items: Seq<ItemView>) -> Result<Option<Seq<char>>, CliError> {
    match single_value(items, "priority"@) {
        Err(e) => Err(e),
        Ok(None) => Ok(None),
        Ok(Some(word)) => if is_priority_word(word) {
            Ok(Some(word))
        } else {
            Err(CliError::InvalidValue)
        },
    }
}

/// The value of `--sort-by`: `InvalidValue` if it names no sort field.
pub open spec fn sort_value(items: Seq<ItemView>) -> Result<Option<Seq<char>>, CliError> {
    match single_value(items, "sort-by"@) {
        Err(e) => Err(e),
        Ok(None) => Ok(None),
        Ok(Some(word)) => if is_sort_word(word) {
            Ok(Some(word))
        } else {
            Err(CliError::InvalidValue)
        },
    }
}

/// The value of `--due-within`: `InvalidValue` if it is no number.
pub open spec fn within_value(items: Seq<ItemView>) -> Result<Option<i64>, CliError> {
    match single_value(items, "due-within"@) {
        Err(e) => Err(e),
        Ok(None) => Ok(None),
        Ok(Some(word)) => match parsed_i64(word) {
            Some(days) => Ok(Some(days)),
            None => Err(CliError::InvalidValue),
        },
    }
}

/// The command `add`, from the pieces after its name. It takes the title as
/// its one argument, and the options `--due-date`, `--priority`,
/// `--description`, each at most once, and `--tags`.
pub open spec fn add_command(items: Seq<ItemView>) -> Result<CommandsView, CliError> {
    match one_positional(items) {
        Err(e) => Err(e),
        Ok(title) => match single_value(items, "due-date"@) {
            Err(e) => Err(e),
            Ok(due_date) => match priority_value(items) {
                Err(e) => Err(e),
                Ok(priority) => match single_value(items, "description"@) {
                    Err(e) => Err(e),
                    Ok(description) => Ok(
                        CommandsView::Add {
                            title,
                            due_date,
                            priority,
                            description,
                            tags: listed_values(items, "tags"@),
                        },
                    ),
                },
            },
        },
    }
}

/// The command `edit`, from the pieces after its name. It takes the id as
/// its one argument, and the options `--title`, `--description`,
/// `--due-date`, `--priority`, each at most once, and `--tags`.
pub open spec fn edit_command(items: Seq<ItemView>) -> Result<CommandsView, CliError> {
    match id_argument(items) {
        Err(e) => Err(e),
        Ok(id) => match single_value(items, "title"@) {
            Err(e) => Err(e),
            Ok(title) => match single_value(items, "description"@) {
                Err(e) => Err(e),
                Ok(description) => match single_value(items, "due-date"@) {
                    Err(e) => Err(e),
                    Ok(due_date) => match priority_value(items) {
                        Err(e) => Err(e),
                        Ok(priority) => Ok(
                            CommandsView::Edit {
                                id,
                                title,
                                description,
                                due_date,
                                priority,
                                tags: listed_values(items, "tags"@),
                            },
                        ),
                    },
                },
            },
        },
    }
}

/// What `list` is asked for, before the options that exclude each other are
/// held against each other.
pub struct ListOptions {
    pub asc: bool,
    pub desc: bool,
    pub sort_by: Option<Seq<char>>,
    pub only_complete: bool,
    pub only_pending: bool,
    pub priority: Option<Seq<char>>,
    pub overdue: bool,
    pub due_today: bool,
    pub due_tomorrow: bool,
    pub due_within: Option<i64>,
}

/// How many of the options of the time group are given.
pub open spec fn time_options(options: ListOptions) -> nat {
    (if options.overdue {
        1nat
    } else {
        0nat
    }) + (if options.due_today {
        1nat
    } else {
        0nat
    }) + (if options.due_tomorrow {
        1nat
    } else {
        0nat
    }) + (if options.due_within is Some {
        1nat
    } else {
        0nat
    })
}

/// The flags of `list`, each at most once.
pub open spec fn list_flags(items: Seq<ItemView>) -> Result<
    (bool, bool, bool, bool, bool, bool, bool),
    CliError,
> {
    match single_flag(items, "asc"@) {
        Err(e) => Err(e),
        Ok(asc) => match single_flag(items, "desc"@) {
            Err(e) => Err(e),
            Ok(desc) => match single_flag(items, "only-complete"@) {
                Err(e) => Err(e),
                Ok(only_complete) => match single_flag(items, "only-pending"@) {
                    Err(e) => Err(e),
                    Ok(only_pending) => match single_flag(items, "overdue"@) {
                        Err(e) => Err(e),
                        Ok(overdue) => match single_flag(items, "due-today"@) {
                            Err(e) => Err(e),
                            Ok(due_today) => match single_flag(items, "due-tomorrow"@) {
                                Err(e) => Err(e),
                                Ok(due_tomorrow) => Ok(
                                    (
                                        asc,
                                        desc,
                                        only_complete,
                                        only_pending,
                                        overdue,
                                        due_today,
                                        due_tomorrow,
                                    ),
                                ),
                            },
                        },
                    },
                },
            },
        },
    }
}

/// The options of `list`: no argument, the flags, and the values of
/// `--sort-by`, `--priority` and `--due-within`, each at most once.
pub open spec fn list_options(items: Seq<ItemView>) -> Result<ListOptions, CliError> {
    if positionals(items).len() > 0 {
        Err(CliError::UnexpectedArgument)
    } else {
        match list_flags(items) {
            Err(e) => Err(e),
            Ok(flags) => match sort_value(items) {
                Err(e) => Err(e),
                Ok(sort_by) => match priority_value(items) {
                    Err(e) => Err(e),
                    Ok(priority) => match within_value(items) {
                        Err(e) => Err(e),
                        Ok(due_within) => Ok(
                            ListOptions {
                                asc: flags.0,
                                desc: flags.1,
                                sort_by,
                                only_complete: flags.2,
                                only_pending: flags.3,
                                priority,
                                overdue: flags.4,
                                due_today: flags.5,
                                due_tomorrow: flags.6,
                                due_within,
                            },
                        ),
                    },
                },
            },
        }
    }
}

/// Whether two options are given of which only one may be: both directions,
/// both status filters, or more than one option of the time group.
pub open spec fn in_conflict(options: ListOptions) -> bool {
    (options.asc && options.desc) || (options.only_complete && options.only_pending)
        || time_options(options) > 1
}

/// The command `list`, from the pieces after its name.
pub open spec fn list_command(items: Seq<ItemView>) -> Result<CommandsView, CliError> {
    match list_options(items) {
        Err(e) => Err(e),
        Ok(options) => if in_conflict(options) {
            Err(CliError::ConflictingArguments)
        } else {
            Ok(
                CommandsView::List {
                    asc: options.asc,
                    desc: options.desc,
                    sort_by: options.sort_by,
                    only_complete: options.only_complete,
                    only_pending: options.only_pending,
                    priority: options.priority,
                    overdue: options.overdue,
                    due_today: options.due_today,
                    due_tomorrow: options.due_tomorrow,
                    due_within: options.due_within,
                },
            )
        },
    }
}

/// The command with the given name, from the words after the name. The
/// name `help` asks for help.
pub open spec fn command_named(name: Seq<char>, args: Seq<Seq<char>>, at: int) -> Result<
    CommandsView,
    CliError,
> {
    if name == "add"@ {
        match scan(args, at, Scope::Add, false, Seq::empty()) {
            Err(e) => Err(e),
            Ok(items) => add_command(items),
        }
    } else if name == "edit"@ {
        match scan(args, at, Scope::Edit, false, Seq::empty()) {
            Err(e) => Err(e),
            Ok(items) => edit_command(items),
        }
    } else if name == "toggle"@ {
        match scan(args, at, Scope::Bare, false, Seq::empty()) {
            Err(e) => Err(e),
            Ok(items) => match id_argument(items) {
                Err(e) => Err(e),
                Ok(id) => Ok(CommandsView::Toggle { id }),
            },
        }
    } else if name == "delete"@ {
        match scan(args, at, Scope::Bare, false, Seq::empty()) {
            Err(e) => Err(e),
            Ok(items) => match id_argument(items) {
                Err(e) => Err(e),
                Ok(id) => Ok(CommandsView::Delete { id }),
            },
        }
    } else if name == "clear-list"@ {
        match scan(args, at, Scope::Bare, false, Seq::empty()) {
            Err(e) => Err(e),
            Ok(items) => if positionals(items).len() > 0 {
                Err(CliError::UnexpectedArgument)
            } else {
                Ok(CommandsView::ClearList)
            },
        }
    } else if name == "list"@ {
        match scan(args, at, Scope::List, false, Seq::empty()) {
            Err(e) => Err(e),
            Ok(items) => list_command(items),
        }
    } else if name == "help"@ {
        Err(CliError::HelpRequested)
    } else {
        Err(CliError::UnknownSubcommand)
    }
}

/// The value that the short option `-f` carries in its own word, if it
/// carries one: what follows the letter, without an equals sign in front.
pub open spec fn short_inline_value(arg: Seq<char>) -> Option<Seq<char>> {
    if arg.len() <= 2 {
        None
    } else if arg[2] == '=' {
        Some(arg.subrange(3, arg.len() as int))
    } else {
        Some(arg.subrange(2, arg.len() as int))
    }
}

/// What stands before the name of the command, from place `at` on, where
/// `file` is the file named so far: the file and the place of the name, or
/// the first fault.
///
/// The file is named by `--file` or `-f`, at most once, with its value after
/// an equals sign, in the next word, or, for `-f`, right after the letter.
/// `--help`, `-h`, `--version` and `-V` end the reading. The first plain
/// word is the name of the command.
pub open spec fn scan_global(args: Seq<Seq<char>>, at: int, file: Option<Seq<char>>) -> Result<
    (Option<Seq<char>>, int),
    CliError,
>
    decreases args.len() - at,
{
    if at < 0 || at >= args.len() {
        Err(CliError::MissingSubcommand)
    } else {
        let arg = args[at];
        match shape_of(arg) {
            Shape::Plain => Ok((file, at)),
            Shape::Escape => Err(CliError::UnknownArgument),
            Shape::Long => {
                let name = long_name(arg);
                if name == "help"@ {
                    Err(CliError::HelpRequested)
                } else if name == "version"@ {
                    Err(CliError::VersionRequested)
                } else if name == "file"@ {
                    file_named(args, at, file, inline_value(arg))
                } else {
                    Err(CliError::UnknownArgument)
                }
            },
            Shape::Short => if arg[1] == 'h' {
                Err(CliError::HelpRequested)
            } else if arg[1] == 'V' {
                Err(CliError::VersionRequested)
            } else if arg[1] == 'f' {
                file_named(args, at, file, short_inline_value(arg))
            } else {
                Err(CliError::UnknownArgument)
            },
        }
    }
}

/// The reading goes on after the word at place `at`, which names the file,
/// with the value `inline` in the same word or its value in the next one.
pub open spec fn file_named(
    args: Seq<Seq<char>>,
    at: int,
    file: Option<Seq<char>>,
    inline: Option<Seq<char>>,
) -> Result<(Option<Seq<char>>, int), CliError>
    decreases args.len() - at, 0nat,
{
    if at < 0 || at >= args.len() {
        Err(CliError::MissingSubcommand)
    } else if file is Some {
        Err(CliError::DuplicateArgument)
    } else {
        match inline {
            Some(value) => scan_global(args, at + 1, Some(value)),
            None => if at + 1 < args.len() && is_plain(args[at + 1]) {
                scan_global(args, at + 2, Some(args[at + 1]))
            } else {
                Err(CliError::MissingValue)
            },
        }
    }
}

/// The command line that the words stand for, or the reason they are
/// refused. The first word is the name of the program and is passed over.
pub open spec fn parsed_cli(args: Seq<Seq<char>>) -> Result<CliView, CliError> {
    match scan_global(args, 1, None) {
        Err(e) => Err(e),
        Ok((file, at)) => match command_named(args[at], args, at + 1) {
            Err(e) => Err(e),
            Ok(command) => Ok(
                CliView {
                    file: match file {
                        Some(f) => f,
                        None => default_file(),
                    },
                    command,
                },
            ),
        },
    }
}

/// The one word that belongs to no option.
fn take_positional(items: &Vec<Item>) -> (r: Result<String, CliError>)
    ensures
        match one_positional(views_of(items@)) {
            Ok(word) => r matches Ok(found) && found@ == word,
            Err(e) => r == Err::<String, CliError>(e),
        },
{
    let mut found = collect_positionals(items);
    if found.len() == 0 {
        Err(CliError::MissingArgument)
    } else if found.len() > 1 {
        Err(CliError::UnexpectedArgument)
    } else {
        let ghost all = string_views(found@);
        let word = found.remove(0);
        assert(word@ == all[0]);
        Ok(word)
    }
}

/// The id that a command is given as its one argument.
fn take_id(items: &Vec<Item>) -> (r: Result<u32, CliError>)
    ensures
        r == id_argument(views_of(items@)),
{
    let word = take_positional(items)?;
    match parse_u32(word.as_str()) {
        Some(id) => Ok(id),
        None => Err(CliError::InvalidValue),
    }
}

/// The value of `--priority`.
fn take_priority(items: &Vec<Item>) -> (r: Result<Option<String>, CliError>)
    ensures
        match priority_value(views_of(items@)) {
            Ok(value) => r matches Ok(found) && optional_text(found) == value,
            Err(e) => r == Err::<Option<String>, CliError>(e),
        },
{
    match take_single(items, "priority")? {
        Some(word) => {
            if str_eq(word.as_str(), "high") || str_eq(word.as_str(), "medium") || str_eq(
                word.as_str(),
                "low",
            ) {
                Ok(Some(word))
            } else {
                Err(CliError::InvalidValue)
            }
        },
        None => Ok(None),
    }
}

/// The value of `--sort-by`.
fn take_sort(items: &Vec<Item>) -> (r: Result<Option<String>, CliError>)
    ensures
        match sort_value(views_of(items@)) {
            Ok(value) => r matches Ok(found) && optional_text(found) == value,
            Err(e) => r == Err::<Option<String>, CliError>(e),
        },
{
    match take_single(items, "sort-by")? {
        Some(word) => {
            if str_eq(word.as_str(), "due") || str_eq(word.as_str(), "priority") || str_eq(
                word.as_str(),
                "due+priority",
            ) {
                Ok(Some(word))
            } else {
                Err(CliError::InvalidValue)
            }
        },
        None => Ok(None),
    }
}

/// The value of `--due-within`.
fn take_within(items: &Vec<Item>) -> (r: Result<Option<i64>, CliError>)
    ensures
        r == within_value(views_of(items@)),
{
    match take_single(items, "due-within")? {
        Some(word) => match parse_i64(word.as_str()) {
            Some(days) => Ok(Some(days)),
            None => Err(CliError::InvalidValue),
        },
        None => Ok(None),
    }
}

/// The command `add`, from the pieces after its name.
fn build_add(items: &Vec<Item>) -> (r: Result<Commands, CliError>)
    ensures
        match add_command(views_of(items@)) {
            Ok(command) => r matches Ok(found) && found@ == command,
            Err(e) => r == Err::<Commands, CliError>(e),
        },
{
    let title = take_positional(items)?;
    let due_date = take_single(items, "due-date")?;
    let priority = take_priority(items)?;
    let description = take_single(items, "description")?;
    let tags = take_list(items, "tags");
    Ok(Commands::Add { title, due_date, priority, description, tags })
}

/// The command `edit`, from the pieces after its name.
fn build_edit(items: &Vec<Item>) -> (r: Result<Commands, CliError>)
    ensures
        match edit_command(views_of(items@)) {
            Ok(command) => r matches Ok(found) && found@ == command,
            Err(e) => r == Err::<Commands, CliError>(e),
        },
{
    let id = take_id(items)?;
    let title = take_single(items, "title")?;
    let description = take_single(items, "description")?;
    let due_date = take_single(items, "due-date")?;
    let priority = take_priority(items)?;
    let tags = take_list(items, "tags");
    Ok(Commands::Edit { id, title, description, due_date, priority, tags })
}

/// The command `list`, from the pieces after its name.
fn build_list(items: &Vec<Item>) -> (r: Result<Commands, CliError>)
    ensures
        match list_command(views_of(items@)) {
            Ok(command) => r matches Ok(found) && found@ == command,
            Err(e) => r == Err::<Commands, CliError>(e),
        },
{
    let extra = collect_positionals(items);
    if extra.len() > 0 {
        return Err(CliError::UnexpectedArgument);
    }
    let asc = take_flag(items, "asc")?;
    let desc = take_flag(items, "desc")?;
    let only_complete = take_flag(items, "only-complete")?;
    let only_pending = take_flag(items, "only-pending")?;
    let overdue = take_flag(items, "overdue")?;
    let due_today = take_flag(items, "due-today")?;
    let due_tomorrow = take_flag(items, "due-tomorrow")?;
    let sort_by = take_sort(items)?;
    let priority = take_priority(items)?;
    let due_within = take_within(items)?;
    let mut time_options: u8 = 0;
    if overdue {
        time_options += 1;
    }
    if due_today {
        time_options += 1;
    }
    if due_tomorrow {
        time_options += 1;
    }
    if due_within.is_some() {
        time_options += 1;
    }
    if (asc && desc) || (only_complete && only_pending) || time_options > 1 {
        return Err(CliError::ConflictingArguments);
    }
    Ok(
        Commands::List {
            asc,
            desc,
            sort_by,
            only_complete,
            only_pending,
            priority,
            overdue,
            due_today,
            due_tomorrow,
            due_within,
        },
    )
}

/// The command with the given name, from the words after the name.
fn build_command(name: &str, args: &Vec<&str>, at: usize) -> (r: Result<Commands, CliError>)
    requires
        at <= args.len(),
    ensures
        match command_named(name@, words(args@), at as int) {
            Ok(command) => r matches Ok(found) && found@ == command,
            Err(e) => r == Err::<Commands, CliError>(e),
        },
{
    if str_eq(name, "add") {
        let items = scan_args(args, at, Scope::Add)?;
        build_add(&items)
    } else if str_eq(name, "edit") {
        let items = scan_args(args, at, Scope::Edit)?;
        build_edit(&items)
    } else if str_eq(name, "toggle") {
        let items = scan_args(args, at, Scope::Bare)?;
        let id = take_id(&items)?;
        Ok(Commands::Toggle { id })
    } else if str_eq(name, "delete") {
        let items = scan_args(args, at, Scope::Bare)?;
        let id = take_id(&items)?;
        Ok(Commands::Delete { id })
    } else if str_eq(name, "clear-list") {
        let items = scan_args(args, at, Scope::Bare)?;
        let extra = collect_positionals(&items);
        if extra.len() > 0 {
            Err(CliError::UnexpectedArgument)
        } else {
            Ok(Commands::ClearList)
        }
    } else if str_eq(name, "list") {
        let items = scan_args(args, at, Scope::List)?;
        build_list(&items)
    } else if str_eq(name, "help") {
        Err(CliError::HelpRequested)
    } else {
        Err(CliError::UnknownSubcommand)
    }
}

/// Reads what stands before the name of the command.
fn scan_global_args(args: &Vec<&str>) -> (r: Result<(Option<String>, usize), CliError>)
    ensures
        match scan_global(words(args@), 1, None) {
            Ok((file, at)) => r matches Ok(found) && optional_text(found.0) == file && found.1
                == at && 1 <= at < args.len(),
            Err(e) => r == Err::<(Option<String>, usize), CliError>(e),
        },
{
    let ghost all = words(args@);
    let mut file: Option<String> = None;
    let mut at: usize = 1;
    while at < args.len()
        invariant
            1 <= at,
            all == words(args@),
            scan_global(all, at as int, optional_text(file)) == scan_global(all, 1, None),
        decreases args.len() - at,
    {
        let arg: &str = args[at];
        assert(all[at as int] == arg@);
        let len = arg.unicode_len();
        let inline: Option<String> = match shape(arg) {
            Shape::Plain => {
                return Ok((file, at));
            },
            Shape::Escape => {
                return Err(CliError::UnknownArgument);
            },
            Shape::Long => {
                let eq = find_char(arg, '=', 2);
                let name = slice(arg, 2, eq);
                if str_eq(name.as_str(), "help") {
                    return Err(CliError::HelpRequested);
                } else if str_eq(name.as_str(), "version") {
                    return Err(CliError::VersionRequested);
                } else if !str_eq(name.as_str(), "file") {
                    return Err(CliError::UnknownArgument);
                }
                if eq < len {
                    Some(slice(arg, eq + 1, len))
                } else {
                    None
                }
            },
            Shape::Short => {
                let c = arg.get_char(1);
                if c == 'h' {
                    return Err(CliError::HelpRequested);
                } else if c == 'V' {
                    return Err(CliError::VersionRequested);
                } else if c != 'f' {
                    return Err(CliError::UnknownArgument);
                }
                if len <= 2 {
                    None
                } else if arg.get_char(2) == '=' {
                    Some(slice(arg, 3, len))
                } else {
                    Some(slice(arg, 2, len))
                }
            },
        };
        assert(scan_global(all, at as int, optional_text(file)) == file_named(
            all,
            at as int,
            optional_text(file),
            optional_text(inline),
        ));
        if file.is_some() {
            return Err(CliError::DuplicateArgument);
        }
        match inline {
            Some(value) => {
                file = Some(value);
                at += 1;
            },
            None => {
                if at + 1 >= args.len() {
                    return Err(CliError::MissingValue);
                }
                let next: &str = args[at + 1];
                assert(all[at + 1] == next@);
                match shape(next) {
                    Shape::Plain => {},
                    _ => {
                        return Err(CliError::MissingValue);
                    },
                }
                file = Some(String::from_str(next));
                at += 2;
            },
        }
    }
    Err(CliError::MissingSubcommand)
}

impl Cli {
    /// Reads a command line from its words, the first of which is the name
    /// of the program.
    ///
    /// Before the name of the command the file can be named, with `--file`
    /// or `-f`; without it the file is `todo_list.json`. The commands are
    /// `add`, `edit`, `toggle`, `delete`, `clear-list` and `list`. Options
    /// and arguments of a command can stand in any order. After the word
    /// `--` nothing is taken for an option.
    pub fn try_parse_from(args: Vec<&str>) -> (r: Result<Cli, CliError>)
        ensures
            match parsed_cli(words(args@)) {
                Ok(cli) => r matches Ok(found) && found@ == cli,
                Err(e) => r == Err::<Cli, CliError>(e),
            },
    {
        let (file, at) = scan_global_args(&args)?;
        let name: &str = args[at];
        assert(words(args@)[at as int] == name@);
        let command = build_command(name, &args, at + 1)?;
        let file = match file {
            Some(f) => f,
            None => String::from_str("todo_list.json"),
        };
        Ok(Cli { file, command })
    }
}

} // verus!

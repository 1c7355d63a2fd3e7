use crate::utils::text::{find_char, position_of, slice, split, split_on, str_eq, string_views};
use vstd::prelude::*;
use vstd::string::StringExecFns;

verus! {

/// The reasons for which a command line is refused.
#[derive(Debug, Clone, Copy, PartialEq, Eq, Structural)]
pub enum CliError {
    /// No command is named.
    MissingSubcommand,
    /// The command that is named does not exist.
    UnknownSubcommand,
    /// An option is given that the command does not have.
    UnknownArgument,
    /// An option that takes a value stands without one.
    MissingValue,
    /// A value is given to an option that takes none.
    UnexpectedValue,
    /// An option is given more than once.
    DuplicateArgument,
    /// An argument that the command needs is not given.
    MissingArgument,
    /// More arguments are given than the command takes.
    UnexpectedArgument,
    /// The value of an option or argument is not one that it accepts.
    InvalidValue,
    /// Two options are given of which only one may be.
    ConflictingArguments,
    /// Help is asked for.
    HelpRequested,
    /// The version is asked for.
    VersionRequested,
}

/// The commands, by the options that each of them has.
#[derive(Debug, Clone, Copy, PartialEq, Eq, Structural)]
pub enum Scope {
    /// `add`.
    Add,
    /// `edit`.
    Edit,
    /// `toggle`, `delete` and `clear-list`, which have no options.
    Bare,
    /// `list`.
    List,
}

/// Whether an option takes a value.
#[derive(Debug, Clone, Copy, PartialEq, Eq, Structural)]
pub enum ArgKind {
    Flag,
    Valued,
}

/// One piece of a command line, once the words are told apart.
#[derive(Debug)]
pub enum Item {
    /// An option with its value: `--priority high` or `--priority=high`.
    Valued { name: String, value: String },
    /// An option that takes no value: `--asc`.
    Flag { name: String },
    /// A word that belongs to no option.
    Positional { value: String },
}

/// What an item holds, as mathematical values.
pub enum ItemView {
    Valued { name: Seq<char>, value: Seq<char> },
    Flag { name: Seq<char> },
    Positional { value: Seq<char> },
}

impl View for Item {
    type V = ItemView;

    open spec fn view(&self) -> ItemView {
        match *self {
            Item::Valued { name, value } => ItemView::Valued { name: name@, value: value@ },
            Item::Flag { name } => ItemView::Flag { name: name@ },
            Item::Positional { value } => ItemView::Positional { value: value@ },
        }
    }
}

/// What each item of a sequence holds.
pub open spec fn views_of(items: Seq<Item>) -> Seq<ItemView> {
    Seq::new(items.len(), |i: int| items[i]@)
}

/// The characters of each word of a sequence.
pub open spec fn words(args: Seq<&str>) -> Seq<Seq<char>> {
    Seq::new(args.len(), |i: int| args[i]@)
}

/// The kind of the option with the given name under a command; `None` if
/// the command has no such option.
pub open spec fn kind_of(scope: Scope, name: Seq<char>) -> Option<ArgKind> {
    match scope {
        Scope::Add => if name == "due-date"@ || name == "priority"@ || name == "description"@
            || name == "tags"@ {
            Some(ArgKind::Valued)
        } else {
            None
        },
        Scope::Edit => if name == "title"@ || name == "description"@ || name == "due-date"@
            || name == "priority"@ || name == "tags"@ {
            Some(ArgKind::Valued)
        } else {
            None
        },
        Scope::Bare => None,
        Scope::List => if name == "sort-by"@ || name == "priority"@ || name == "due-within"@ {
            Some(ArgKind::Valued)
        } else if name == "asc"@ || name == "desc"@ || name == "only-complete"@ || name
            == "only-pending"@ || name == "overdue"@ || name == "due-today"@ || name
            == "due-tomorrow"@ {
            Some(ArgKind::Flag)
        } else {
            None
        },
    }
}

/// The kind of the option with the given name under a command.
pub fn option_kind(scope: Scope, name: &str) -> (r: Option<ArgKind>)
    ensures
        r == kind_of(scope, name@),
{
    match scope {
        Scope::Add => if str_eq(name, "due-date") || str_eq(name, "priority") || str_eq(
            name,
            "description",
        ) || str_eq(name, "tags") {
            Some(ArgKind::Valued)
        } else {
            None
        },
        Scope::Edit => if str_eq(name, "title") || str_eq(name, "description") || str_eq(
            name,
            "due-date",
        ) || str_eq(name, "priority") || str_eq(name, "tags") {
            Some(ArgKind::Valued)
        } else {
            None
        },
        Scope::Bare => None,
        Scope::List => if str_eq(name, "sort-by") || str_eq(name, "priority") || str_eq(
            name,
            "due-within",
        ) {
            Some(ArgKind::Valued)
        } else if str_eq(name, "asc") || str_eq(name, "desc") || str_eq(name, "only-complete")
            || str_eq(name, "only-pending") || str_eq(name, "overdue") || str_eq(
            name,
            "due-today",
        ) || str_eq(name, "due-tomorrow") {
            Some(ArgKind::Flag)
        } else {
            None
        },
    }
}

/// Whether the word is a long option: two dashes and at least one more
/// character.
pub open spec fn is_long(arg: Seq<char>) -> bool {
    arg.len() > 2 && arg[0] == '-' && arg[1] == '-'
}

/// Whether the word is a short option: one dash and at least one more
/// character, which is no dash.
pub open spec fn is_short(arg: Seq<char>) -> bool {
    arg.len() > 1 && arg[0] == '-' && arg[1] != '-'
}

/// Whether the word is the mark after which every word is taken literally:
/// two dashes and nothing else.
pub open spec fn is_escape(arg: Seq<char>) -> bool {
    arg.len() == 2 && arg[0] == '-' && arg[1] == '-'
}

/// Whether the word can be the value of an option, or stand by itself: it
/// is no option and no mark. A single dash is such a word.
pub open spec fn is_plain(arg: Seq<char>) -> bool {
    !is_long(arg) && !is_short(arg) && !is_escape(arg)
}

/// The name of a long option: what stands between the two dashes and the
/// first equals sign, or the end.
pub open spec fn long_name(arg: Seq<char>) -> Seq<char> {
    arg.subrange(2, position_of(arg, '=', 2))
}

/// The value that a long option carries after an equals sign, if it has one.
pub open spec fn inline_value(arg: Seq<char>) -> Option<Seq<char>> {
    if position_of(arg, '=', 2) < arg.len() {
        Some(arg.subrange(position_of(arg, '=', 2) + 1, arg.len() as int))
    } else {
        None
    }
}

/// How a word looks: an option, the mark, or a plain word.
#[derive(Debug, Clone, Copy, PartialEq, Eq, Structural)]
pub enum Shape {
    Long,
    Short,
    Escape,
    Plain,
}

/// How a word looks.
pub open spec fn shape_of(arg: Seq<char>) -> Shape {
    if is_long(arg) {
        Shape::Long
    } else if is_short(arg) {
        Shape::Short
    } else if is_escape(arg) {
        Shape::Escape
    } else {
        Shape::Plain
    }
}

/// How a word looks.
pub fn shape(arg: &str) -> (r: Shape)
    ensures
        r == shape_of(arg@),
{
    let len = arg.unicode_len();
    if len < 2 || arg.get_char(0) != '-' {
        return Shape::Plain;
    }
    if arg.get_char(1) == '-' {
        if len == 2 {
            Shape::Escape
        } else {
            Shape::Long
        }
    } else {
        Shape::Short
    }
}

/// The pieces of the words of a command from place `at` on, after the pieces
/// in `items`; or the first fault. Once the mark `--` is met, `literal` is
/// set and every word is a piece by itself.
///
/// A long option is looked up by its name. `--help` and `--version` end the
/// reading. An option that takes a value has it after an equals sign, or in
/// the next word, which must be a plain one. A short option can only be
/// `-h` or `-V`.
pub open spec fn scan(
    args: Seq<Seq<char>>,
    at: int,
    scope: Scope,
    literal: bool,
    items: Seq<ItemView>,
) -> Result<Seq<ItemView>, CliError>
    decreases args.len() - at,
{
    if at < 0 || at >= args.len() {
        Ok(items)
    } else {
        let arg = args[at];
        if literal {
            scan(args, at + 1, scope, true, items.push(ItemView::Positional { value: arg }))
        } else {
            match shape_of(arg) {
                Shape::Escape => scan(args, at + 1, scope, true, items),
                Shape::Plain => scan(
                    args,
                    at + 1,
                    scope,
                    false,
                    items.push(ItemView::Positional { value: arg }),
                ),
                Shape::Short => if arg[1] == 'h' {
                    Err(CliError::HelpRequested)
                } else if arg[1] == 'V' {
                    Err(CliError::VersionRequested)
                } else {
                    Err(CliError::UnknownArgument)
                },
                Shape::Long => {
                    let name = long_name(arg);
                    if name == "help"@ {
                        Err(CliError::HelpRequested)
                    } else if name == "version"@ {
                        Err(CliError::VersionRequested)
                    } else {
                        match kind_of(scope, name) {
                            None => Err(CliError::UnknownArgument),
                            Some(ArgKind::Flag) => if inline_value(arg) is Some {
                                Err(CliError::UnexpectedValue)
                            } else {
                                scan(
                                    args,
                                    at + 1,
                                    scope,
                                    false,
                                    items.push(ItemView::Flag { name }),
                                )
                            },
                            Some(ArgKind::Valued) => match inline_value(arg) {
                                Some(value) => scan(
                                    args,
                                    at + 1,
                                    scope,
                                    false,
                                    items.push(ItemView::Valued { name, value }),
                                ),
                                None => if at + 1 < args.len() && is_plain(args[at + 1]) {
                                    scan(
                                        args,
                                        at + 2,
                                        scope,
                                        false,
                                        items.push(ItemView::Valued { name, value: args[at + 1] }),
                                    )
                                } else {
                                    Err(CliError::MissingValue)
                                },
                            },
                        }
                    }
                },
            }
        }
    }
}

/// Tells the words of a command apart, from place `start` on.
pub fn scan_args(args: &Vec<&str>, start: usize, scope: Scope) -> (r: Result<Vec<Item>, CliError>)
    requires
        start <= args.len(),
    ensures
        match scan(words(args@), start as int, scope, false, Seq::empty()) {
            Ok(items) => r matches Ok(found) && views_of(found@) == items,
            Err(e) => r == Err::<Vec<Item>, CliError>(e),
        },
{
    let ghost all = words(args@);
    let mut items: Vec<Item> = Vec::new();
    let mut at: usize = start;
    let mut literal = false;
    assert(views_of(items@) =~= Seq::<ItemView>::empty());
    while at < args.len()
        invariant
            start <= at <= args.len(),
            all == words(args@),
            scan(all, at as int, scope, literal, views_of(items@)) == scan(
                all,
                start as int,
                scope,
                false,
                Seq::empty(),
            ),
        decreases args.len() - at,
    {
        let arg: &str = args[at];
        let ghost before = views_of(items@);
        assert(all[at as int] == arg@);
        if literal {
            items.push(Item::Positional { value: String::from_str(arg) });
            assert(views_of(items@) =~= before.push(ItemView::Positional { value: arg@ }));
            at += 1;
        } else {
            match shape(arg) {
                Shape::Escape => {
                    literal = true;
                    at += 1;
                },
                Shape::Plain => {
                    items.push(Item::Positional { value: String::from_str(arg) });
                    assert(views_of(items@) =~= before.push(
                        ItemView::Positional { value: arg@ },
                    ));
                    at += 1;
                },
                Shape::Short => {
                    let c = arg.get_char(1);
                    if c == 'h' {
                        return Err(CliError::HelpRequested);
                    } else if c == 'V' {
                        return Err(CliError::VersionRequested);
                    } else {
                        return Err(CliError::UnknownArgument);
                    }
                },
                Shape::Long => {
                    let len = arg.unicode_len();
                    let eq = find_char(arg, '=', 2);
                    let name = slice(arg, 2, eq);
                    if str_eq(name.as_str(), "help") {
                        return Err(CliError::HelpRequested);
                    }
                    if str_eq(name.as_str(), "version") {
                        return Err(CliError::VersionRequested);
                    }
                    match option_kind(scope, name.as_str()) {
                        None => {
                            return Err(CliError::UnknownArgument);
                        },
                        Some(ArgKind::Flag) => {
                            if eq < len {
                                return Err(CliError::UnexpectedValue);
                            }
                            items.push(Item::Flag { name });
                            assert(views_of(items@) =~= before.push(
                                ItemView::Flag { name: name@ },
                            ));
                            at += 1;
                        },
                        Some(ArgKind::Valued) => {
                            if eq < len {
                                let value = slice(arg, eq + 1, len);
                                items.push(Item::Valued { name, value });
                                assert(views_of(items@) =~= before.push(
                                    ItemView::Valued { name: name@, value: value@ },
                                ));
                                at += 1;
                            } else {
                                if at + 1 >= args.len() {
                                    return Err(CliError::MissingValue);
                                }
                                let next: &str = args[at + 1];
                                assert(all[at + 1] == next@);
                                match shape(next) {
                                    Shape::Plain => {},
                                    _ => {
                                        return Err(CliError::MissingValue);
                                    },
                                }
                                items.push(Item::Valued { name, value: String::from_str(next) });
                                assert(views_of(items@) =~= before.push(
                                    ItemView::Valued { name: name@, value: next@ },
                                ));
                                at += 2;
                            }
                        },
                    }
                },
            }
        }
    }
    Ok(items)
}

/// The values given to the option with the given name, in their order.
pub open spec fn values_of(items: Seq<ItemView>, name: Seq<char>) -> Seq<Seq<char>>
    decreases items.len(),
{
    if items.len() == 0 {
        Seq::empty()
    } else {
        let rest = values_of(items.drop_last(), name);
        match items.last() {
            ItemView::Valued { name: found, value } => if found == name {
                rest.push(value)
            } else {
                rest
            },
            _ => rest,
        }
    }
}

/// How often the flag with the given name is given.
pub open spec fn flag_count(items: Seq<ItemView>, name: Seq<char>) -> nat
    decreases items.len(),
{
    if items.len() == 0 {
        0
    } else {
        let rest = flag_count(items.drop_last(), name);
        match items.last() {
            ItemView::Flag { name: found } => if found == name {
                rest + 1
            } else {
                rest
            },
            _ => rest,
        }
    }
}

/// The words that belong to no option, in their order.
pub open spec fn positionals(items: Seq<ItemView>) -> Seq<Seq<char>>
    decreases items.len(),
{
    if items.len() == 0 {
        Seq::empty()
    } else {
        let rest = positionals(items.drop_last());
        match items.last() {
            ItemView::Positional { value } => rest.push(value),
            _ => rest,
        }
    }
}

/// The value of an option that may be given once: none if it is not given,
/// `DuplicateArgument` if it is given more than once.
pub open spec fn single_value(items: Seq<ItemView>, name: Seq<char>) -> Result<
    Option<Seq<char>>,
    CliError,
> {
    let values = values_of(items, name);
    if values.len() == 0 {
        Ok(None)
    } else if values.len() == 1 {
        Ok(Some(values[0]))
    } else {
        Err(CliError::DuplicateArgument)
    }
}

/// Whether a flag that may be given once is given: `DuplicateArgument` if
/// it is given more than once.
pub open spec fn single_flag(items: Seq<ItemView>, name: Seq<char>) -> Result<bool, CliError> {
    if flag_count(items, name) == 0 {
        Ok(false)
    } else if flag_count(items, name) == 1 {
        Ok(true)
    } else {
        Err(CliError::DuplicateArgument)
    }
}

/// The parts of each of the values between its commas, all in one row.
pub open spec fn split_all(values: Seq<Seq<char>>) -> Seq<Seq<char>>
    decreases values.len(),
{
    if values.len() == 0 {
        Seq::empty()
    } else {
        split_all(values.drop_last()) + split(values.last(), ',')
    }
}

/// The list that an option gives which may be given many times, each time
/// with values between commas: none if it is not given.
pub open spec fn listed_values(items: Seq<ItemView>, name: Seq<char>) -> Option<Seq<Seq<char>>> {
    let values = values_of(items, name);
    if values.len() == 0 {
        None
    } else {
        Some(split_all(values))
    }
}

/// The characters of an optional text.
pub open spec fn optional_text(text: Option<String>) -> Option<Seq<char>> {
    match text {
        Some(t) => Some(t@),
        None => None,
    }
}

/// The characters of each text of an optional list.
pub open spec fn optional_texts(texts: Option<Vec<String>>) -> Option<Seq<Seq<char>>> {
    match texts {
        Some(t) => Some(string_views(t@)),
        None => None,
    }
}

/// The values given to the option with the given name, in their order.
pub fn collect_values(items: &Vec<Item>, name: &str) -> (r: Vec<String>)
    ensures
        string_views(r@) == values_of(views_of(items@), name@),
{
    let ghost all = views_of(items@);
    let mut values: Vec<String> = Vec::new();
    let mut i: usize = 0;
    assert(all.take(0) =~= Seq::<ItemView>::empty());
    assert(string_views(values@) =~= Seq::<Seq<char>>::empty());
    while i < items.len()
        invariant
            i <= items.len(),
            all == views_of(items@),
            string_views(values@) == values_of(all.take(i as int), name@),
        decreases items.len() - i,
    {
        let ghost before = string_views(values@);
        assert(all.take(i + 1).drop_last() =~= all.take(i as int));
        assert(all.take(i + 1).last() == items[i as int]@);
        match &items[i] {
            Item::Valued { name: found, value } => {
                if str_eq(found.as_str(), name) {
                    values.push(value.clone());
                    assert(string_views(values@) =~= before.push(value@));
                }
            },
            _ => {},
        }
        i += 1;
    }
    assert(all.take(items.len() as int) =~= all);
    values
}

/// The words that belong to no option, in their order.
pub fn collect_positionals(items: &Vec<Item>) -> (r: Vec<String>)
    ensures
        string_views(r@) == positionals(views_of(items@)),
{
    let ghost all = views_of(items@);
    let mut values: Vec<String> = Vec::new();
    let mut i: usize = 0;
    assert(all.take(0) =~= Seq::<ItemView>::empty());
    assert(string_views(values@) =~= Seq::<Seq<char>>::empty());
    while i < items.len()
        invariant
            i <= items.len(),
            all == views_of(items@),
            string_views(values@) == positionals(all.take(i as int)),
        decreases items.len() - i,
    {
        let ghost before = string_views(values@);
        assert(all.take(i + 1).drop_last() =~= all.take(i as int));
        assert(all.take(i + 1).last() == items[i as int]@);
        match &items[i] {
            Item::Positional { value } => {
                values.push(value.clone());
                assert(string_views(values@) =~= before.push(value@));
            },
            _ => {},
        }
        i += 1;
    }
    assert(all.take(items.len() as int) =~= all);
    values
}

/// The value of an option that may be given once.
pub fn take_single(items: &Vec<Item>, name: &str) -> (r: Result<Option<String>, CliError>)
    ensures
        match single_value(views_of(items@), name@) {
            Ok(value) => r matches Ok(found) && optional_text(found) == value,
            Err(e) => r == Err::<Option<String>, CliError>(e),
        },
{
    let mut values = collect_values(items, name);
    if values.len() == 0 {
        Ok(None)
    } else if values.len() == 1 {
        let ghost all = string_views(values@);
        let value = values.remove(0);
        assert(value@ == all[0]);
        Ok(Some(value))
    } else {
        Err(CliError::DuplicateArgument)
    }
}

/// Whether a flag that may be given once is given.
pub fn take_flag(items: &Vec<Item>, name: &str) -> (r: Result<bool, CliError>)
    ensures
        r == single_flag(views_of(items@), name@),
{
    let ghost all = views_of(items@);
    let mut count: usize = 0;
    let mut i: usize = 0;
    assert(all.take(0) =~= Seq::<ItemView>::empty());
    while i < items.len()
        invariant
            i <= items.len(),
            all == views_of(items@),
            count <= i,
            count == flag_count(all.take(i as int), name@),
        decreases items.len() - i,
    {
        assert(all.take(i + 1).drop_last() =~= all.take(i as int));
        assert(all.take(i + 1).last() == items[i as int]@);
        match &items[i] {
            Item::Flag { name: found } => {
                if str_eq(found.as_str(), name) {
                    count += 1;
                }
            },
            _ => {},
        }
        i += 1;
    }
    assert(all.take(items.len() as int) =~= all);
    if count == 0 {
        Ok(false)
    } else if count == 1 {
        Ok(true)
    } else {
        Err(CliError::DuplicateArgument)
    }
}

/// The list that an option gives which may be given many times, each time
/// with values between commas.
pub fn take_list(items: &Vec<Item>, name: &str) -> (r: Option<Vec<String>>)
    ensures
        optional_texts(r) == listed_values(views_of(items@), name@),
{
    let values = collect_values(items, name);
    if values.len() == 0 {
        return None;
    }
    let ghost all = string_views(values@);
    let mut parts: Vec<String> = Vec::new();
    let mut i: usize = 0;
    assert(all.take(0) =~= Seq::<Seq<char>>::empty());
    assert(string_views(parts@) =~= Seq::<Seq<char>>::empty());
    while i < values.len()
        invariant
            i <= values.len(),
            all == string_views(values@),
            string_views(parts@) == split_all(all.take(i as int)),
        decreases values.len() - i,
    {
        assert(all.take(i + 1).drop_last() =~= all.take(i as int));
        assert(all.take(i + 1).last() == values[i as int]@);
        let mut pieces = split_on(values[i].as_str(), ',');
        let ghost before = string_views(parts@);
        let ghost added = string_views(pieces@);
        parts.append(&mut pieces);
        assert(string_views(parts@) =~= before + added);
        i += 1;
    }
    assert(all.take(values.len() as int) =~= all);
    Some(parts)
}

} // verus!

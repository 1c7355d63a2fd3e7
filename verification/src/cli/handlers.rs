use crate::cli::commands::{Commands, CommandsView};
use crate::todo::error::{TodoErrorView, TodoResult};
use crate::todo::filters::{apply_filter, filtered, lemma_no_filter_lists_all, ListQuery};
use crate::todo::item::{item_views, TodoItem, TodoItemView};
use crate::todo::manager::{
    added_message, added_text, cleared_message, cleared_text, deleted_message, deleted_text,
    edited, edited_message, edited_text, found_todo, has_id, is_first_with_id,
    lemma_edit_keeps_id, lemma_found_is_first, lemma_without_id, new_todo, priority_parsed, stands_at,
    toggled_message, toggled_text, without_id, TodoManager, TodoManagerView,
};
use crate::todo::priority::SortBy;
use crate::todo::sorting::{
    apply_sorting, goes_before, lemma_sorted_keeps_every_record, lemma_sorted_order_exists,
    sorted, sorted_order,
};
use crate::todo::time::Timestamp;
use crate::utils::text::lowercased;
use vstd::prelude::*;

verus! {

/// What is to be shown once a command is carried out.
#[derive(Debug)]
pub enum Outcome {
    /// One line that says what was done.
    Said(String),
    /// The todos that a listing shows, in their order.
    Listed(Vec<TodoItem>),
}

/// What an outcome holds, as mathematical values.
pub enum OutcomeView {
    Said(Seq<char>),
    Listed(Seq<TodoItemView>),
}

impl View for Outcome {
    type V = OutcomeView;

    open spec fn view(&self) -> OutcomeView {
        match *self {
            Outcome::Said(text) => OutcomeView::Said(text@),
            Outcome::Listed(todos) => OutcomeView::Listed(item_views(todos@)),
        }
    }
}

/// A result of carrying out a command, as mathematical values.
pub open spec fn outcome_view(r: TodoResult<Outcome>) -> Result<OutcomeView, TodoErrorView> {
    match r {
        Ok(outcome) => Ok(outcome@),
        Err(e) => Err(e@),
    }
}

/// The direction that the two flags of a query ask for: ascending unless
/// descending alone is set.
pub open spec fn is_ascending(asc: bool, desc: bool) -> bool {
    asc || !desc
}

/// The direction that the two flags of a query ask for.
pub fn resolve_ascending(asc: bool, desc: bool) -> (r: bool)
    ensures
        r == is_ascending(asc, desc),
{
    asc || !desc
}

/// Answers a listing: sorts the records in place as the query asks, and hands
/// back copies of those that its filters list at the time `now`, in sorted
/// order. It never fails.
pub fn handle_list_command(todos: &mut Vec<TodoItem>, query: ListQuery, now: Timestamp) -> (r:
    TodoResult<Vec<TodoItem>>)
    ensures
        item_views(final(todos)@) == sorted(
            item_views(old(todos)@),
            query.sort_by,
            is_ascending(query.asc, query.desc),
        ),
        r matches Ok(listed) && item_views(listed@) == filtered(
            item_views(final(todos)@),
            query,
            now,
        ),
{
    let ascending = resolve_ascending(query.asc, query.desc);
    match apply_sorting(todos, query.sort_by, ascending) {
        Ok(()) => apply_filter(todos, &query, now),
        Err(e) => Err(e),
    }
}

/// A listing whose query asks for no filter shows every record: the sorted
/// list as it stands, which is as long as the list was and holds the record
/// of each place of it.
pub proof fn lemma_listing_without_filters(
    records: Seq<TodoItemView>,
    query: ListQuery,
    now: Timestamp,
    i: int,
)
    requires
        !query.any_filters(),
        0 <= i < records.len(),
    ensures
        filtered(
            sorted(records, query.sort_by, is_ascending(query.asc, query.desc)),
            query,
            now,
        ) == sorted(records, query.sort_by, is_ascending(query.asc, query.desc)),
        sorted(records, query.sort_by, is_ascending(query.asc, query.desc)).len()
            == records.len(),
        sorted(records, query.sort_by, is_ascending(query.asc, query.desc)).contains(records[i]),
{
    let ascending = is_ascending(query.asc, query.desc);
    let listed = sorted(records, query.sort_by, ascending);
    lemma_no_filter_lists_all(listed, query, now);
    lemma_sorted_keeps_every_record(records, query.sort_by, ascending, i);
    let k = choose|k: int|
        0 <= k < records.len() && sorted_order(records, query.sort_by, ascending)[k] == i
            && listed[k] == records[i];
    assert(listed[k] == records[i]);
}

/// The sort field that a listing asks for: the due date if none is named,
/// else the one that the word names, or `InvalidSortField`.
pub open spec fn sort_field(sort_by: Option<Seq<char>>) -> Result<SortBy, TodoErrorView> {
    match sort_by {
        Some(word) => SortBy::parsed(lowercased(word), word),
        None => Ok(SortBy::Due),
    }
}

/// The query that the options of `list` make, or the reason they are
/// refused: a sort field or a priority that is none.
pub open spec fn list_query(
    asc: bool,
    desc: bool,
    sort_by: Option<Seq<char>>,
    only_complete: bool,
    only_pending: bool,
    priority: Option<Seq<char>>,
    overdue: bool,
    due_today: bool,
    due_tomorrow: bool,
    due_within: Option<i64>,
) -> Result<ListQuery, TodoErrorView> {
    match sort_field(sort_by) {
        Err(e) => Err(e),
        Ok(sort_by) => match priority_parsed(priority) {
            Err(e) => Err(e),
            Ok(priority) => Ok(
                ListQuery {
                    sort_by,
                    asc,
                    desc,
                    only_complete,
                    only_pending,
                    priority,
                    overdue,
                    due_today,
                    due_tomorrow,
                    due_within,
                },
            ),
        },
    }
}

/// What carrying out a command at the time `now` gives, and the manager it
/// leaves: what is to be shown, or the reason the command is refused.
///
/// `add` and `edit` check what they are given and change the list as the
/// manager says. `toggle` turns the first todo with the id round, `delete`
/// takes out every todo with the id, `clear-list` all of them. `list` sorts
/// the list, which stays sorted, and shows the todos that its filters pass.
pub open spec fn handled(
    command: CommandsView,
    manager: TodoManagerView,
    now: Timestamp,
    utc_offset: int,
) -> (Result<OutcomeView, TodoErrorView>, TodoManagerView) {
    match command {
        CommandsView::Add { title, due_date, priority, description, tags } => match new_todo(
            manager.next_id,
            title,
            description,
            due_date,
            priority,
            tags,
            now,
            utc_offset,
        ) {
            Ok(item) => (
                Ok(OutcomeView::Said(added_text(manager.next_id))),
                TodoManagerView {
                    todos: manager.todos.push(item),
                    next_id: (manager.next_id + 1) as u32,
                    ..manager
                },
            ),
            Err(e) => (Err(e), manager),
        },
        CommandsView::Edit {
            id,
            title,
            description,
            due_date,
            priority,
            tags,
        } => match found_todo(manager.todos, id) {
            Ok(i) => {
                let (item, fault) = edited(
                    manager.todos[i],
                    title,
                    description,
                    due_date,
                    priority,
                    tags,
                    now,
                    utc_offset,
                );
                (
                    match fault {
                        Some(e) => Err(e),
                        None => Ok(OutcomeView::Said(edited_text(id))),
                    },
                    TodoManagerView { todos: manager.todos.update(i, item), ..manager },
                )
            },
            Err(e) => (Err(e), manager),
        },
        CommandsView::Toggle { id } => match found_todo(manager.todos, id) {
            Ok(i) => {
                let item = manager.todos[i];
                (
                    Ok(OutcomeView::Said(toggled_text(id, !item.completed))),
                    TodoManagerView {
                        todos: manager.todos.update(
                            i,
                            TodoItemView { completed: !item.completed, updated_at: now, ..item },
                        ),
                        ..manager
                    },
                )
            },
            Err(e) => (Err(e), manager),
        },
        CommandsView::Delete { id } => if has_id(manager.todos, id) {
            (
                Ok(OutcomeView::Said(deleted_text(id))),
                TodoManagerView { todos: without_id(manager.todos, id), ..manager },
            )
        } else {
            (Err(TodoErrorView::TodoNotFound { id }), manager)
        },
        CommandsView::ClearList => (
            Ok(OutcomeView::Said(cleared_text(manager.todos.len() as usize))),
            TodoManagerView { todos: Seq::empty(), ..manager },
        ),
        CommandsView::List {
            asc,
            desc,
            sort_by,
            only_complete,
            only_pending,
            priority,
            overdue,
            due_today,
            due_tomorrow,
            due_within,
        } => match list_query(
            asc,
            desc,
            sort_by,
            only_complete,
            only_pending,
            priority,
            overdue,
            due_today,
            due_tomorrow,
            due_within,
        ) {
            Ok(query) => {
                let todos = sorted(manager.todos, query.sort_by, is_ascending(asc, desc));
                (
                    Ok(OutcomeView::Listed(filtered(todos, query, now))),
                    TodoManagerView { todos, ..manager },
                )
            },
            Err(e) => (Err(e), manager),
        },
    }
}

/// Ids stay in order under every command: if every id in use lay below the
/// id that the next new todo gets, it does so afterwards, and that id has
/// not gone down; and if no two todos had the same id, none have afterwards.
/// So the id of a new todo is one that no todo has or had.
pub proof fn lemma_commands_keep_ids_in_order(
    command: CommandsView,
    manager: TodoManagerView,
    now: Timestamp,
    utc_offset: int,
)
    requires
        manager.well_formed(),
        command is Add ==> manager.next_id < u32::MAX,
    ensures
        handled(command, manager, now, utc_offset).1.well_formed(),
        handled(command, manager, now, utc_offset).1.next_id >= manager.next_id,
        handled(command, manager, now, utc_offset).1.file_path == manager.file_path,
        manager.ids_distinct() ==> handled(command, manager, now, utc_offset).1.ids_distinct(),
{
    let after = handled(command, manager, now, utc_offset).1;
    match command {
        CommandsView::Add { .. } => {},
        CommandsView::Edit { id, title, description, due_date, priority, tags } => {
            if let Ok(i) = found_todo(manager.todos, id) {
                lemma_found_is_first(manager.todos, id);
                lemma_edit_keeps_id(
                    manager.todos[i],
                    title,
                    description,
                    due_date,
                    priority,
                    tags,
                    now,
                    utc_offset,
                );
                assert(is_first_with_id(manager.todos, id, i));
            }
        },
        CommandsView::Toggle { id } => {
            if let Ok(i) = found_todo(manager.todos, id) {
                lemma_found_is_first(manager.todos, id);
                assert(is_first_with_id(manager.todos, id, i));
            }
        },
        CommandsView::Delete { id } => {
            if has_id(manager.todos, id) {
                lemma_without_id(manager.todos, id);
                let places = choose|places: Seq<int>|
                    #[trigger] stands_at(without_id(manager.todos, id), manager.todos, places);
                assert forall|k: int| 0 <= k < after.todos.len() implies (
                #[trigger] after.todos[k]).id < after.next_id by {
                    assert(after.todos[k] == manager.todos[places[k]]);
                }
                if manager.ids_distinct() {
                    assert forall|k: int, l: int| 0 <= k < l < after.todos.len() implies (
                    #[trigger] after.todos[k]).id != (#[trigger] after.todos[l]).id by {
                        assert(after.todos[k] == manager.todos[places[k]]);
                        assert(after.todos[l] == manager.todos[places[l]]);
                        assert(places[k] < places[l]);
                    }
                }
            }
        },
        CommandsView::ClearList => {},
        CommandsView::List {
            asc,
            desc,
            sort_by,
            only_complete,
            only_pending,
            priority,
            overdue,
            due_today,
            due_tomorrow,
            due_within,
        } => {
            if let Ok(query) = list_query(
                asc,
                desc,
                sort_by,
                only_complete,
                only_pending,
                priority,
                overdue,
                due_today,
                due_tomorrow,
                due_within,
            ) {
                let ascending = is_ascending(asc, desc);
                lemma_sorted_order_exists(manager.todos, query.sort_by, ascending);
                let order = sorted_order(manager.todos, query.sort_by, ascending);
                assert forall|k: int, l: int| 0 <= k < l < after.todos.len() implies order[k]
                    != order[l] by {
                    assert(goes_before(
                        manager.todos,
                        order[k],
                        order[l],
                        query.sort_by,
                        ascending,
                    ));
                }
                assert forall|k: int| 0 <= k < after.todos.len() implies (
                #[trigger] after.todos[k]).id < after.next_id by {
                    assert(after.todos[k] == manager.todos[order[k]]);
                }
                if manager.ids_distinct() {
                    assert forall|k: int, l: int| 0 <= k < l < after.todos.len() implies (
                    #[trigger] after.todos[k]).id != (#[trigger] after.todos[l]).id by {
                        assert(after.todos[k] == manager.todos[order[k]]);
                        assert(after.todos[l] == manager.todos[order[l]]);
                        assert(order[k] != order[l]);
                        if order[k] < order[l] {
                            assert(manager.todos[order[k]].id != manager.todos[order[l]].id);
                        } else {
                            assert(manager.todos[order[l]].id != manager.todos[order[k]].id);
                        }
                    }
                }
            }
        },
    }
}

/// Carries out a command on the manager's list at the local time `now`, in
/// the zone that lies `utc_offset` seconds east of universal time, and
/// hands back what is to be shown. Saving the list and showing the outcome
/// are left to the caller.
pub fn handle_commands(
    command: Commands,
    manager: &mut TodoManager,
    now: Timestamp,
    utc_offset: i32,
) -> (r: TodoResult<Outcome>)
    requires
        command is Add ==> old(manager).next_id < u32::MAX,
    ensures
        (outcome_view(r), final(manager)@) == handled(
            command@,
            old(manager)@,
            now,
            utc_offset as int,
        ),
{
    match command {
        Commands::Add { title, description, due_date, priority, tags } => {
            let priority_text: Option<&str> = match &priority {
                Some(p) => Some(p.as_str()),
                None => None,
            };
            let id = manager.add_todo(
                title,
                description,
                due_date,
                priority_text,
                tags,
                now,
                utc_offset,
            )?;
            Ok(Outcome::Said(added_message(id)))
        },
        Commands::Edit { id, title, description, due_date, priority, tags } => {
            let due_text: Option<&str> = match &due_date {
                Some(d) => Some(d.as_str()),
                None => None,
            };
            let priority_text: Option<&str> = match &priority {
                Some(p) => Some(p.as_str()),
                None => None,
            };
            manager.edit_todo(
                id,
                title,
                description,
                due_text,
                priority_text,
                tags,
                now,
                utc_offset,
            )?;
            Ok(Outcome::Said(edited_message(id)))
        },
        Commands::Toggle { id } => {
            let completed = manager.toggle_todo(id, now)?;
            Ok(Outcome::Said(toggled_message(id, completed)))
        },
        Commands::Delete { id } => {
            manager.delete_todo(id)?;
            Ok(Outcome::Said(deleted_message(id)))
        },
        Commands::ClearList => {
            let count = manager.clear_all();
            Ok(Outcome::Said(cleared_message(count)))
        },
        Commands::List {
            asc,
            desc,
            sort_by,
            only_complete,
            only_pending,
            priority,
            overdue,
            due_today,
            due_tomorrow,
            due_within,
        } => {
            let sort_by = match sort_by {
                Some(s) => SortBy::from_str(s.as_str())?,
                None => SortBy::Due,
            };
            let priority_text: Option<&str> = match &priority {
                Some(p) => Some(p.as_str()),
                None => None,
            };
            let priority = TodoManager::parse_priority(priority_text)?;
            let query = ListQuery {
                sort_by,
                asc,
                desc,
                only_complete,
                only_pending,
                priority,
                overdue,
                due_today,
                due_tomorrow,
                due_within,
            };
            let listed = handle_list_command(&mut manager.todos, query, now)?;
            Ok(Outcome::Listed(listed))
        },
    }
}

} // verus!

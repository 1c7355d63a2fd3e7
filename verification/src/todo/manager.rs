use crate::todo::error::{result_view, TodoError, TodoErrorView, TodoResult};
use crate::todo::item::{
    item_views, optional_str_view, optional_string_view, optional_strings_view, TodoItem,
    TodoItemView,
};
use crate::todo::priority::Priority;
use crate::todo::time::Timestamp;
use crate::utils::date::{due_date_parsed, parse_due_date};
use crate::utils::text::{decimal, decimal_string, lowercased, trim, trimmed};
use crate::utils::validation::{checked_text, validate_text};
use vstd::prelude::*;
use vstd::string::StringExecFns;

verus! {

/// The most bytes that the title of a todo may take.
pub const MAX_TITLE_LENGTH: usize = 140;

/// The most bytes that the description of a todo may take.
pub const MAX_DESCRIPTION_LENGTH: usize = 1000;

/// The list of todos of one user, the file it is kept in, and the id that
/// the next new todo gets.
pub struct TodoManager {
    pub todos: Vec<TodoItem>,
    pub file_path: String,
    pub next_id: u32,
}

/// What a manager holds, as mathematical values.
pub struct TodoManagerView {
    pub todos: Seq<TodoItemView>,
    pub file_path: Seq<char>,
    pub next_id: u32,
}

impl View for TodoManager {
    type V = TodoManagerView;

    open spec fn view(&self) -> TodoManagerView {
        TodoManagerView {
            todos: item_views(self.todos@),
            file_path: self.file_path@,
            next_id: self.next_id,
        }
    }
}

impl TodoManagerView {
    /// Whether every id in use lies below the id that the next new todo
    /// gets, so that a new todo never gets an id that is in use, nor one
    /// that a deleted todo had.
    pub open spec fn well_formed(self) -> bool {
        forall|i: int| 0 <= i < self.todos.len() ==> (#[trigger] self.todos[i]).id < self.next_id
    }

    /// Whether no two todos have the same id.
    pub open spec fn ids_distinct(self) -> bool {
        forall|i: int, j: int|
            0 <= i < j < self.todos.len() ==> (#[trigger] self.todos[i]).id
                != (#[trigger] self.todos[j]).id
    }
}

/// The id that the next new todo gets: one more than the greatest id among
/// the records, and 1 if there are none.
pub open spec fn next_free_id(records: Seq<TodoItemView>) -> nat
    decreases records.len(),
{
    if records.len() == 0 {
        1
    } else {
        let rest = next_free_id(records.drop_last());
        if records.last().id + 1 > rest {
            (records.last().id + 1) as nat
        } else {
            rest
        }
    }
}

/// Whether some record has the given id.
pub open spec fn has_id(records: Seq<TodoItemView>, id: u32) -> bool {
    exists|i: int| 0 <= i < records.len() && (#[trigger] records[i]).id == id
}

/// Whether the record at place `i` is the first with the given id.
pub open spec fn is_first_with_id(records: Seq<TodoItemView>, id: u32, i: int) -> bool {
    &&& 0 <= i < records.len()
    &&& records[i].id == id
    &&& forall|k: int| 0 <= k < i ==> (#[trigger] records[k]).id != id
}

/// The place of the first record with the given id.
pub open spec fn first_with_id(records: Seq<TodoItemView>, id: u32) -> int {
    choose|i: int| is_first_with_id(records, id, i)
}

/// What looking for a todo gives: `InvalidId` with the word "zero" for the
/// id 0, which no todo has; the place of the first record with the id; or
/// `TodoNotFound` with the id.
pub open spec fn found_todo(records: Seq<TodoItemView>, id: u32) -> Result<int, TodoErrorView> {
    if id == 0 {
        Err(TodoErrorView::InvalidId { id: "zero"@ })
    } else if has_id(records, id) {
        Ok(first_with_id(records, id))
    } else {
        Err(TodoErrorView::TodoNotFound { id })
    }
}

/// The records without those that have the given id.
pub open spec fn without_id(records: Seq<TodoItemView>, id: u32) -> Seq<TodoItemView> {
    records.filter(|item: TodoItemView| item.id != id)
}

/// What reading an optional priority gives: none for no text; else the
/// priority that the text names, or `InvalidPriority` with the text.
pub open spec fn priority_parsed(priority: Option<Seq<char>>) -> Result<
    Option<Priority>,
    TodoErrorView,
> {
    match priority {
        Some(text) => match Priority::parsed(lowercased(text), text) {
            Ok(p) => Ok(Some(p)),
            Err(e) => Err(e),
        },
        None => Ok(None),
    }
}

/// What checking an optional description gives: none for none; else the
/// description without the blanks around it, or the reason it is refused.
pub open spec fn checked_description(description: Option<Seq<char>>) -> Result<
    Option<Seq<char>>,
    TodoErrorView,
> {
    match description {
        Some(text) => match checked_text(trimmed(text), MAX_DESCRIPTION_LENGTH as nat) {
            Ok(t) => Ok(Some(t)),
            Err(e) => Err(e),
        },
        None => Ok(None),
    }
}

/// The record that adding a todo makes, or the reason it is refused. Title,
/// description, due date and priority are checked in this order, and the
/// first fault is the one reported.
pub open spec fn new_todo(
    id: u32,
    title: Seq<char>,
    description: Option<Seq<char>>,
    due_date: Option<Seq<char>>,
    priority: Option<Seq<char>>,
    tags: Option<Seq<Seq<char>>>,
    now: Timestamp,
    utc_offset: int,
) -> Result<TodoItemView, TodoErrorView> {
    match checked_text(trimmed(title), MAX_TITLE_LENGTH as nat) {
        Err(e) => Err(e),
        Ok(title) => match checked_description(description) {
            Err(e) => Err(e),
            Ok(description) => match due_date_parsed(due_date, now, utc_offset) {
                Err(e) => Err(e),
                Ok(due_date) => match priority_parsed(priority) {
                    Err(e) => Err(e),
                    Ok(priority) => Ok(
                        TodoItemView {
                            id,
                            title,
                            description,
                            completed: false,
                            due_date,
                            priority,
                            tags,
                            created_at: now,
                            updated_at: now,
                        },
                    ),
                },
            },
        },
    }
}

/// What the last step of an edit leaves: the record with the new tags, if
/// there are any.
pub open spec fn edited_tags(item: TodoItemView, tags: Option<Seq<Seq<char>>>, now: Timestamp) -> (
    TodoItemView,
    Option<TodoErrorView>,
) {
    match tags {
        Some(t) => (TodoItemView { tags: Some(t), updated_at: now, ..item }, None),
        None => (item, None),
    }
}

/// What an edit leaves from the priority on.
pub open spec fn edited_priority(
    item: TodoItemView,
    priority: Option<Seq<char>>,
    tags: Option<Seq<Seq<char>>>,
    now: Timestamp,
) -> (TodoItemView, Option<TodoErrorView>) {
    match priority {
        Some(text) => match Priority::parsed(lowercased(text), text) {
            Ok(p) => edited_tags(
                TodoItemView { priority: Some(p), updated_at: now, ..item },
                tags,
                now,
            ),
            Err(e) => (item, Some(e)),
        },
        None => edited_tags(item, tags, now),
    }
}

/// What an edit leaves from the due date on.
pub open spec fn edited_due_date(
    item: TodoItemView,
    due: Option<Seq<char>>,
    priority: Option<Seq<char>>,
    tags: Option<Seq<Seq<char>>>,
    now: Timestamp,
    utc_offset: int,
) -> (TodoItemView, Option<TodoErrorView>) {
    match due {
        Some(text) => match due_date_parsed(Some(text), now, utc_offset) {
            Ok(due_date) => edited_priority(
                TodoItemView { due_date, updated_at: now, ..item },
                priority,
                tags,
                now,
            ),
            Err(e) => (item, Some(e)),
        },
        None => edited_priority(item, priority, tags, now),
    }
}

/// What an edit leaves from the description on.
pub open spec fn edited_description(
    item: TodoItemView,
    description: Option<Seq<char>>,
    due: Option<Seq<char>>,
    priority: Option<Seq<char>>,
    tags: Option<Seq<Seq<char>>>,
    now: Timestamp,
    utc_offset: int,
) -> (TodoItemView, Option<TodoErrorView>) {
    match description {
        Some(text) => match checked_text(trimmed(text), MAX_DESCRIPTION_LENGTH as nat) {
            Ok(t) => edited_due_date(
                TodoItemView { description: Some(t), updated_at: now, ..item },
                due,
                priority,
                tags,
                now,
                utc_offset,
            ),
            Err(e) => (item, Some(e)),
        },
        None => edited_due_date(item, due, priority, tags, now, utc_offset),
    }
}

/// What an edit leaves of a record, and the fault that stopped it, if one
/// did. The fields that are given are checked and set one after the other:
/// title, description, due date, priority, tags. A fault stops the edit, and
/// the fields set before it stay set. Each field that is set also sets the
/// time of the last change to `now`.
pub open spec fn edited(
    item: TodoItemView,
    title: Option<Seq<char>>,
    description: Option<Seq<char>>,
    due: Option<Seq<char>>,
    priority: Option<Seq<char>>,
    tags: Option<Seq<Seq<char>>>,
    now: Timestamp,
    utc_offset: int,
) -> (TodoItemView, Option<TodoErrorView>) {
    match title {
        Some(text) => match checked_text(trimmed(text), MAX_TITLE_LENGTH as nat) {
            Ok(t) => edited_description(
                TodoItemView { title: t, updated_at: now, ..item },
                description,
                due,
                priority,
                tags,
                now,
                utc_offset,
            ),
            Err(e) => (item, Some(e)),
        },
        None => edited_description(item, description, due, priority, tags, now, utc_offset),
    }
}

/// Where some record has the given id, one of them is the first.
pub proof fn lemma_found_is_first(records: Seq<TodoItemView>, id: u32)
    requires
        has_id(records, id),
    ensures
        is_first_with_id(records, id, first_with_id(records, id)),
{
    let some = choose|i: int| 0 <= i < records.len() && (#[trigger] records[i]).id == id;
    lemma_first_up_to(records, id, some);
}

/// Where the record at place `k` has the given id, one at or before that
/// place is the first with it.
proof fn lemma_first_up_to(records: Seq<TodoItemView>, id: u32, k: int)
    requires
        0 <= k < records.len(),
        records[k].id == id,
    ensures
        exists|i: int| is_first_with_id(records, id, i),
    decreases k,
{
    if exists|j: int| 0 <= j < k && (#[trigger] records[j]).id == id {
        let j = choose|j: int| 0 <= j < k && (#[trigger] records[j]).id == id;
        lemma_first_up_to(records, id, j);
    } else {
        assert(is_first_with_id(records, id, k));
    }
}

/// The first record with the given id is the only place that is first.
pub proof fn lemma_first_with_id(records: Seq<TodoItemView>, id: u32, i: int)
    requires
        is_first_with_id(records, id, i),
    ensures
        has_id(records, id),
        first_with_id(records, id) == i,
{
    let j = first_with_id(records, id);
    assert(is_first_with_id(records, id, j));
    if j < i {
        assert(records[j].id != id);
    } else if i < j {
        assert(records[i].id != id);
    }
}

impl TodoManager {
    /// The manager of the given records, kept in the given file. The next
    /// new todo gets an id greater than all that are in use.
    pub fn new(file_path: String, todos: Vec<TodoItem>) -> (r: TodoResult<TodoManager>)
        requires
            next_free_id(item_views(todos@)) <= u32::MAX,
        ensures
            r matches Ok(manager) && manager.todos == todos && manager.file_path == file_path
                && manager.next_id == next_free_id(item_views(todos@))
                && manager@.well_formed(),
    {
        let ghost records = item_views(todos@);
        let mut next_id: u32 = 1;
        let mut i: usize = 0;
        proof {
            assert(records.take(0).len() == 0);
            lemma_next_free_id_grows(records, 0);
        }
        while i < todos.len()
            invariant
                i <= todos.len(),
                records == item_views(todos@),
                next_free_id(records) <= u32::MAX,
                next_id == next_free_id(records.take(i as int)),
            decreases todos.len() - i,
        {
            proof {
                assert(records.take(i + 1).drop_last() =~= records.take(i as int));
                assert(records.take(i + 1).last() == records[i as int]);
                lemma_next_free_id_grows(records, i + 1);
            }
            let id = todos[i].id();
            if id >= next_id {
                next_id = id + 1;
            }
            i += 1;
        }
        assert(records.take(todos.len() as int) =~= records);
        proof {
            assert forall|k: int| 0 <= k < records.len() implies (#[trigger] records[k]).id
                < next_id by {
                lemma_next_free_id_grows(records, k);
            }
        }
        Ok(TodoManager { todos, file_path, next_id })
    }

    /// Whether what a file holds is blank, so that it stands for an empty
    /// list and is not read as JSON.
    pub fn stored_list_is_blank(content: &str) -> (r: bool)
        ensures
            r == (trimmed(content@).len() == 0),
    {
        trim(content).unicode_len() == 0
    }

    /// Adds a todo, made at the time `now`, and hands back its id.
    ///
    /// The title must not be blank, nor take more than 140 bytes without
    /// the blanks around it; a description likewise, with 1000 bytes. The due
    /// date and the priority must read as such. If anything is refused the
    /// manager stays as it was.
    pub fn add_todo(
        &mut self,
        title: String,
        description: Option<String>,
        due_date: Option<String>,
        priority: Option<&str>,
        tags: Option<Vec<String>>,
        now: Timestamp,
        utc_offset: i32,
    ) -> (r: TodoResult<u32>)
        requires
            old(self).next_id < u32::MAX,
        ensures
            match new_todo(
                old(self).next_id,
                title@,
                optional_string_view(description),
                optional_string_view(due_date),
                optional_str_view(priority),
                optional_strings_view(tags),
                now,
                utc_offset as int,
            ) {
                Ok(item) => result_view(r) == Ok::<u32, TodoErrorView>(old(self).next_id)
                    && final(self)@ == (TodoManagerView {
                    todos: old(self)@.todos.push(item),
                    next_id: (old(self).next_id + 1) as u32,
                    ..old(self)@
                }),
                Err(e) => result_view(r) == Err::<u32, TodoErrorView>(e) && final(self)@ == old(
                    self,
                )@,
            },
    {
        let title = match validate_text(title.as_str(), MAX_TITLE_LENGTH) {
            Ok(t) => t,
            Err(e) => {
                return Err(e);
            },
        };
        let description = match description {
            Some(d) => match validate_text(d.as_str(), MAX_DESCRIPTION_LENGTH) {
                Ok(t) => Some(t),
                Err(e) => {
                    return Err(e);
                },
            },
            None => None,
        };
        let due_text: Option<&str> = match &due_date {
            Some(d) => Some(d.as_str()),
            None => None,
        };
        let parsed_due = match parse_due_date(due_text, now, utc_offset) {
            Ok(d) => d,
            Err(e) => {
                return Err(e);
            },
        };
        let parsed_priority = match TodoManager::parse_priority(priority) {
            Ok(p) => p,
            Err(e) => {
                return Err(e);
            },
        };
        let next_id = self.next_id;
        self.next_id = next_id + 1;
        let todo = TodoItem::new(
            next_id,
            title,
            description,
            false,
            parsed_due,
            parsed_priority,
            tags,
            now,
        );
        let ghost before = item_views(self.todos@);
        self.todos.push(todo);
        assert(item_views(self.todos@) =~= before.push(todo@));
        Ok(next_id)
    }

    /// Reads an optional priority.
    pub fn parse_priority(priority_str: Option<&str>) -> (r: TodoResult<Option<Priority>>)
        ensures
            result_view(r) == priority_parsed(optional_str_view(priority_str)),
    {
        match priority_str {
            Some(p) => match Priority::from_str(p) {
                Ok(priority) => Ok(Some(priority)),
                Err(_) => Err(TodoError::InvalidPriority { input: String::from_str(p) }),
            },
            None => Ok(None),
        }
    }

    /// The place of the first todo with the given id.
    pub fn find_todo_index(&self, id: u32) -> (r: TodoResult<usize>)
        ensures
            match found_todo(self@.todos, id) {
                Ok(i) => r matches Ok(found) && found == i && is_first_with_id(self@.todos, id, i),
                Err(e) => result_view(r) == Err::<usize, TodoErrorView>(e),
            },
    {
        if id == 0 {
            return Err(TodoError::InvalidId { id: String::from_str("zero") });
        }
        let ghost records = item_views(self.todos@);
        let mut i: usize = 0;
        while i < self.todos.len()
            invariant
                id != 0,
                i <= self.todos.len(),
                records == item_views(self.todos@),
                forall|k: int| 0 <= k < i ==> (#[trigger] records[k]).id != id,
            decreases self.todos.len() - i,
        {
            if self.todos[i].id() == id {
                proof {
                    assert(records[i as int] == self.todos[i as int]@);
                    lemma_first_with_id(records, id, i as int);
                }
                return Ok(i);
            }
            i += 1;
        }
        Err(TodoError::TodoNotFound { id })
    }

    /// Changes the todo with the given id at the time `now`.
    ///
    /// The fields that are given are checked and set one after the other:
    /// title, description, due date, priority, tags. A fault stops the edit;
    /// the fields set before it stay set.
    pub fn edit_todo(
        &mut self,
        id: u32,
        new_title: Option<String>,
        new_description: Option<String>,
        due: Option<&str>,
        priority: Option<&str>,
        tags: Option<Vec<String>>,
        now: Timestamp,
        utc_offset: i32,
    ) -> (r: TodoResult<()>)
        ensures
            match found_todo(old(self)@.todos, id) {
                Ok(i) => {
                    let (item, fault) = edited(
                        old(self)@.todos[i],
                        optional_string_view(new_title),
                        optional_string_view(new_description),
                        optional_str_view(due),
                        optional_str_view(priority),
                        optional_strings_view(tags),
                        now,
                        utc_offset as int,
                    );
                    &&& final(self)@ == (TodoManagerView {
                        todos: old(self)@.todos.update(i, item),
                        ..old(self)@
                    })
                    &&& result_view(r) == match fault {
                        Some(e) => Err::<(), TodoErrorView>(e),
                        None => Ok::<(), TodoErrorView>(()),
                    }
                },
                Err(e) => result_view(r) == Err::<(), TodoErrorView>(e) && final(self)@ == old(
                    self,
                )@,
            },
    {
        let index = match self.find_todo_index(id) {
            Ok(i) => i,
            Err(e) => {
                return Err(e);
            },
        };
        let ghost records = item_views(self.todos@);
        let mut todo = self.todos[index].clone();
        let fault = TodoManager::apply_edit(
            &mut todo,
            new_title,
            new_description,
            due,
            priority,
            tags,
            now,
            utc_offset,
        );
        self.todos.set(index, todo);
        assert(item_views(self.todos@) =~= records.update(index as int, todo@));
        match fault {
            Some(e) => Err(e),
            None => Ok(()),
        }
    }

    /// Checks and sets the given fields of one record, one after the other,
    /// and hands back the fault that stopped it, if one did.
    pub fn apply_edit(
        todo: &mut TodoItem,
        new_title: Option<String>,
        new_description: Option<String>,
        due: Option<&str>,
        priority: Option<&str>,
        tags: Option<Vec<String>>,
        now: Timestamp,
        utc_offset: i32,
    ) -> (r: Option<TodoError>)
        ensures
            ({
                let (item, fault) = edited(
                    old(todo)@,
                    optional_string_view(new_title),
                    optional_string_view(new_description),
                    optional_str_view(due),
                    optional_str_view(priority),
                    optional_strings_view(tags),
                    now,
                    utc_offset as int,
                );
                &&& final(todo)@ == item
                &&& match fault {
                    Some(e) => r matches Some(found) && found@ == e,
                    None => r is None,
                }
            }),
    {
        if let Some(text) = new_title {
            match validate_text(text.as_str(), MAX_TITLE_LENGTH) {
                Ok(t) => todo.set_title(t, now),
                Err(e) => {
                    return Some(e);
                },
            }
        }
        if let Some(description) = new_description {
            match validate_text(description.as_str(), MAX_DESCRIPTION_LENGTH) {
                Ok(t) => todo.set_description(Some(t), now),
                Err(e) => {
                    return Some(e);
                },
            }
        }
        if let Some(due_date) = due {
            match parse_due_date(Some(due_date), now, utc_offset) {
                Ok(d) => todo.set_due_date(d, now),
                Err(e) => {
                    return Some(e);
                },
            }
        }
        if let Some(priority_str) = priority {
            match TodoManager::parse_priority(Some(priority_str)) {
                Ok(p) => todo.set_priority(p, now),
                Err(e) => {
                    return Some(e);
                },
            }
        }
        if let Some(tags) = tags {
            todo.set_tags(Some(tags), now);
        }
        None
    }

    /// The first todo with the given id, to be changed in place.
    pub fn find_todo_mut(&mut self, id: u32) -> (r: TodoResult<&mut TodoItem>)
        ensures
            match found_todo(old(self)@.todos, id) {
                Ok(i) => r matches Ok(item) && item@ == old(self)@.todos[i] && final(self)@ == (
                TodoManagerView {
                    todos: old(self)@.todos.update(i, final(item)@),
                    ..old(self)@
                }),
                Err(e) => r matches Err(found) && found@ == e && final(self)@ == old(self)@,
            },
    {
        let index = match self.find_todo_index(id) {
            Ok(i) => i,
            Err(e) => {
                return Err(e);
            },
        };
        let ghost records = item_views(self.todos@);
        let item = &mut self.todos[index];
        proof {
            assert(item_views(after_borrow(self.todos)@) =~= records.update(
                index as int,
                final(item)@,
            ));
        }
        Ok(item)
    }

    /// Marks a pending todo as completed and a completed one as pending, at
    /// the time `now`, and hands back whether it is completed now.
    pub fn toggle_todo(&mut self, id: u32, now: Timestamp) -> (r: TodoResult<bool>)
        ensures
            match found_todo(old(self)@.todos, id) {
                Ok(i) => {
                    let item = old(self)@.todos[i];
                    &&& result_view(r) == Ok::<bool, TodoErrorView>(!item.completed)
                    &&& final(self)@ == (TodoManagerView {
                        todos: old(self)@.todos.update(
                            i,
                            TodoItemView { completed: !item.completed, updated_at: now, ..item },
                        ),
                        ..old(self)@
                    })
                },
                Err(e) => result_view(r) == Err::<bool, TodoErrorView>(e) && final(self)@ == old(
                    self,
                )@,
            },
    {
        let todo = match self.find_todo_mut(id) {
            Ok(t) => t,
            Err(e) => {
                return Err(e);
            },
        };
        let completed = !todo.completed();
        todo.set_completed(completed, now);
        Ok(completed)
    }

    /// Deletes every todo with the given id. `TodoNotFound` if there is none.
    pub fn delete_todo(&mut self, id: u32) -> (r: TodoResult<()>)
        ensures
            final(self)@ == (TodoManagerView {
                todos: without_id(old(self)@.todos, id),
                ..old(self)@
            }),
            result_view(r) == if has_id(old(self)@.todos, id) {
                Ok::<(), TodoErrorView>(())
            } else {
                Err::<(), TodoErrorView>(TodoErrorView::TodoNotFound { id })
            },
            !has_id(old(self)@.todos, id) ==> final(self)@ == old(self)@,
    {
        let ghost records = item_views(self.todos@);
        let ghost kept_if = |item: TodoItemView| item.id != id;
        let mut kept: Vec<TodoItem> = Vec::new();
        let mut i: usize = 0;
        proof {
            reveal(Seq::filter);
            assert(records.take(0).filter(kept_if) =~= Seq::<TodoItemView>::empty());
            assert(item_views(kept@) =~= Seq::<TodoItemView>::empty());
        }
        while i < self.todos.len()
            invariant
                i <= self.todos.len(),
                records == item_views(self.todos@),
                kept_if == |item: TodoItemView| item.id != id,
                item_views(kept@) == records.take(i as int).filter(kept_if),
                kept.len() <= i,
                kept.len() == i <==> forall|k: int| 0 <= k < i ==> (#[trigger] records[k]).id != id,
                kept.len() == i ==> item_views(kept@) == records.take(i as int),
            decreases self.todos.len() - i,
        {
            let ghost before = item_views(kept@);
            proof {
                assert(records.take(i + 1) =~= records.take(i as int).push(records[i as int]));
                records.take(i as int).lemma_filter_push(records[i as int], kept_if);
            }
            if self.todos[i].id() != id {
                kept.push(self.todos[i].clone());
                assert(item_views(kept@) =~= before.push(records[i as int]));
            }
            i += 1;
        }
        assert(records.take(self.todos.len() as int) =~= records);
        if kept.len() < self.todos.len() {
            self.todos = kept;
            Ok(())
        } else {
            assert(!has_id(records, id));
            Err(TodoError::TodoNotFound { id })
        }
    }

    /// Deletes every todo, and hands back how many there were.
    pub fn clear_all(&mut self) -> (r: usize)
        ensures
            r == old(self)@.todos.len(),
            final(self)@ == (TodoManagerView { todos: Seq::empty(), ..old(self)@ }),
    {
        let count = self.todos.len();
        self.todos.clear();
        assert(item_views(self.todos@) =~= Seq::<TodoItemView>::empty());
        count
    }
}

/// An edit leaves the id of the record, the time it was made and whether
/// it is done as they are.
pub proof fn lemma_edit_keeps_id(
    item: TodoItemView,
    title: Option<Seq<char>>,
    description: Option<Seq<char>>,
    due: Option<Seq<char>>,
    priority: Option<Seq<char>>,
    tags: Option<Seq<Seq<char>>>,
    now: Timestamp,
    utc_offset: int,
)
    ensures
        edited(item, title, description, due, priority, tags, now, utc_offset).0.id == item.id,
        edited(item, title, description, due, priority, tags, now, utc_offset).0.created_at
            == item.created_at,
        edited(item, title, description, due, priority, tags, now, utc_offset).0.completed
            == item.completed,
{
}

/// Whether `places` says where each of the `chosen` records stands in the
/// list: at rising places, and each chosen record is the one at its place.
pub open spec fn stands_at(
    chosen: Seq<TodoItemView>,
    records: Seq<TodoItemView>,
    places: Seq<int>,
) -> bool {
    &&& places.len() == chosen.len()
    &&& forall|k: int|
        0 <= k < places.len() ==> 0 <= #[trigger] places[k] < records.len() && chosen[k]
            == records[places[k]]
    &&& forall|k: int, l: int|
        0 <= k < l < places.len() ==> #[trigger] places[k] < #[trigger] places[l]
}

/// The records without those of one id are records of the list, in the
/// order in which they stood, and none of them has the id.
pub proof fn lemma_without_id(records: Seq<TodoItemView>, id: u32)
    ensures
        forall|k: int|
            0 <= k < without_id(records, id).len() ==> (#[trigger] without_id(records, id)[k]).id
                != id,
        exists|places: Seq<int>| #[trigger] stands_at(without_id(records, id), records, places),
    decreases records.len(),
{
    let kept_if = |item: TodoItemView| item.id != id;
    if records.len() == 0 {
        reveal(Seq::filter);
        assert(stands_at(without_id(records, id), records, Seq::<int>::empty()));
    } else {
        let fewer = records.drop_last();
        let last = records.last();
        lemma_without_id(fewer, id);
        assert(records =~= fewer.push(last));
        fewer.lemma_filter_push(last, kept_if);
        let before = choose|places: Seq<int>|
            #[trigger] stands_at(without_id(fewer, id), fewer, places);
        let places = if last.id != id {
            before.push(records.len() - 1)
        } else {
            before
        };
        assert forall|k: int| 0 <= k < places.len() implies 0 <= #[trigger] places[k]
            < records.len() && without_id(records, id)[k] == records[places[k]] by {
            if k < before.len() {
                assert(places[k] == before[k]);
                assert(without_id(records, id)[k] == without_id(fewer, id)[k]);
            }
        }
        assert forall|k: int, l: int| 0 <= k < l < places.len() implies #[trigger] places[k]
            < #[trigger] places[l] by {
            if l < before.len() {
                assert(places[k] == before[k] && places[l] == before[l]);
            } else {
                assert(places[k] == before[k]);
                assert(before[k] < fewer.len());
            }
        }
        assert(stands_at(without_id(records, id), records, places));
    }
}

/// The id that follows those of the first `k` records is at most the one
/// that follows those of all records.
proof fn lemma_next_free_id_grows(records: Seq<TodoItemView>, k: int)
    requires
        0 <= k <= records.len(),
    ensures
        next_free_id(records.take(k)) <= next_free_id(records),
        k < records.len() ==> records[k].id + 1 <= next_free_id(records),
    decreases records.len(),
{
    if k == records.len() {
        assert(records.take(k) =~= records);
    } else {
        assert(records.drop_last().take(k) =~= records.take(k));
        lemma_next_free_id_grows(records.drop_last(), k);
    }
}

/// What is said once a todo is added.
pub open spec fn added_text(id: u32) -> Seq<char> {
    "✅ Todo added with ID: "@ + decimal(id as nat)
}

/// What is said once a todo is edited.
pub open spec fn edited_text(id: u32) -> Seq<char> {
    "✏️ Todo "@ + decimal(id as nat) + " edited!"@
}

/// What is said once a todo is toggled.
pub open spec fn toggled_text(id: u32, completed: bool) -> Seq<char> {
    "✅ Todo "@ + decimal(id as nat) + if completed {
        " marked as completed!"@
    } else {
        " marked as pending!"@
    }
}

/// What is said once a todo is deleted.
pub open spec fn deleted_text(id: u32) -> Seq<char> {
    "🗑️ Todo "@ + decimal(id as nat) + " deleted!"@
}

/// What is said once the list is cleared.
pub open spec fn cleared_text(count: usize) -> Seq<char> {
    "🗑️ Cleared "@ + decimal(count as nat) + " todo(s)!"@
}

/// What is said when the cleared list could not be saved.
pub open spec fn clear_failed_text(error: TodoErrorView) -> Seq<char> {
    "❌ Failed to clear todos: "@ + error.message()
}

/// What is said once a todo is added.
pub fn added_message(id: u32) -> (r: String)
    ensures
        r@ == added_text(id),
{
    let mut text = String::from_str("✅ Todo added with ID: ");
    text.append(decimal_string(id as u64).as_str());
    text
}

/// What is said once a todo is edited.
pub fn edited_message(id: u32) -> (r: String)
    ensures
        r@ == edited_text(id),
{
    let mut text = String::from_str("✏️ Todo ");
    text.append(decimal_string(id as u64).as_str());
    text.append(" edited!");
    text
}

/// What is said once a todo is toggled.
pub fn toggled_message(id: u32, completed: bool) -> (r: String)
    ensures
        r@ == toggled_text(id, completed),
{
    let mut text = String::from_str("✅ Todo ");
    text.append(decimal_string(id as u64).as_str());
    if completed {
        text.append(" marked as completed!");
    } else {
        text.append(" marked as pending!");
    }
    text
}

/// What is said once a todo is deleted.
pub fn deleted_message(id: u32) -> (r: String)
    ensures
        r@ == deleted_text(id),
{
    let mut text = String::from_str("🗑️ Todo ");
    text.append(decimal_string(id as u64).as_str());
    text.append(" deleted!");
    text
}

/// What is said once the list is cleared.
pub fn cleared_message(count: usize) -> (r: String)
    ensures
        r@ == cleared_text(count),
{
    let mut text = String::from_str("🗑️ Cleared ");
    text.append(decimal_string(count as u64).as_str());
    text.append(" todo(s)!");
    text
}

/// What is said when the cleared list could not be saved.
pub fn clear_failed_message(error: &TodoError) -> (r: String)
    ensures
        r@ == clear_failed_text(error@),
{
    let mut text = String::from_str("❌ Failed to clear todos: ");
    text.append(error.to_string().as_str());
    text
}

} // verus!

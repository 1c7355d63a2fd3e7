use crate::todo::priority::Priority;
use crate::todo::time::Timestamp;
use crate::utils::text::string_views;
use vstd::prelude::*;
use vstd::string::StringExecFns;

verus! {

/// What a todo record holds, as mathematical values.
pub struct TodoItemView {
    pub id: u32,
    pub title: Seq<char>,
    pub description: Option<Seq<char>>,
    pub completed: bool,
    pub due_date: Option<Timestamp>,
    pub priority: Option<Priority>,
    pub tags: Option<Seq<Seq<char>>>,
    pub created_at: Timestamp,
    pub updated_at: Timestamp,
}

/// What each record of a sequence holds.
pub open spec fn item_views(items: Seq<TodoItem>) -> Seq<TodoItemView> {
    Seq::new(items.len(), |i: int| items[i]@)
}

/// The characters of an optional string.
pub open spec fn optional_string_view(text: Option<String>) -> Option<Seq<char>> {
    match text {
        Some(s) => Some(s@),
        None => None,
    }
}

/// The characters of an optional string slice.
pub open spec fn optional_str_view(text: Option<&str>) -> Option<Seq<char>> {
    match text {
        Some(s) => Some(s@),
        None => None,
    }
}

/// The characters of each string of an optional list.
pub open spec fn optional_strings_view(strings: Option<Vec<String>>) -> Option<Seq<Seq<char>>> {
    match strings {
        Some(v) => Some(string_views(v@)),
        None => None,
    }
}

/// The characters of each string of an optional slice.
pub open spec fn optional_slice_view(strings: Option<&[String]>) -> Option<Seq<Seq<char>>> {
    match strings {
        Some(v) => Some(string_views(v@)),
        None => None,
    }
}

/// The strings of `parts` in a row, with `separator` between each two.
pub open spec fn joined(parts: Seq<Seq<char>>, separator: Seq<char>) -> Seq<char>
    decreases parts.len(),
{
    if parts.len() == 0 {
        Seq::empty()
    } else if parts.len() == 1 {
        parts[0]
    } else {
        joined(parts.drop_last(), separator) + separator + parts.last()
    }
}

/// One task of the list.
///
/// The id is given when the record is made and never changes. Every change
/// to another field also sets `updated_at` to the time of the change.
#[derive(Debug)]
pub struct TodoItem {
    id: u32,
    title: String,
    description: Option<String>,
    completed: bool,
    due_date: Option<Timestamp>,
    priority: Option<Priority>,
    tags: Option<Vec<String>>,
    created_at: Timestamp,
    updated_at: Timestamp,
}

impl View for TodoItem {
    type V = TodoItemView;

    closed spec fn view(&self) -> TodoItemView {
        TodoItemView {
            id: self.id,
            title: self.title@,
            description: optional_string_view(self.description),
            completed: self.completed,
            due_date: self.due_date,
            priority: self.priority,
            tags: optional_strings_view(self.tags),
            created_at: self.created_at,
            updated_at: self.updated_at,
        }
    }
}

/// A copy of each string of `strings`, in the same order.
fn clone_strings(strings: &Vec<String>) -> (r: Vec<String>)
    ensures
        string_views(r@) == string_views(strings@),
{
    let mut out: Vec<String> = Vec::new();
    let mut i: usize = 0;
    while i < strings.len()
        invariant
            i <= strings.len(),
            out.len() == i,
            forall|k: int| 0 <= k < i ==> out[k]@ == strings[k]@,
        decreases strings.len() - i,
    {
        out.push(strings[i].clone());
        i += 1;
    }
    assert(string_views(out@) =~= string_views(strings@));
    out
}

impl Clone for TodoItem {
    /// A copy that holds what the record holds.
    fn clone(&self) -> (r: TodoItem)
        ensures
            r@ == self@,
    {
        TodoItem {
            id: self.id,
            title: self.title.clone(),
            description: match &self.description {
                Some(d) => Some(d.clone()),
                None => None,
            },
            completed: self.completed,
            due_date: self.due_date,
            priority: self.priority,
            tags: match &self.tags {
                Some(t) => Some(clone_strings(t)),
                None => None,
            },
            created_at: self.created_at,
            updated_at: self.updated_at,
        }
    }
}

impl TodoItem {
    /// A new record, made at the time `now`.
    pub fn new(
        id: u32,
        title: String,
        description: Option<String>,
        completed: bool,
        due_date: Option<Timestamp>,
        priority: Option<Priority>,
        tags: Option<Vec<String>>,
        now: Timestamp,
    ) -> (r: TodoItem)
        ensures
            r@ == (TodoItemView {
                id,
                title: title@,
                description: optional_string_view(description),
                completed,
                due_date,
                priority,
                tags: optional_strings_view(tags),
                created_at: now,
                updated_at: now,
            }),
    {
        TodoItem {
            id,
            title,
            description,
            completed,
            due_date,
            priority,
            tags,
            created_at: now,
            updated_at: now,
        }
    }

    /// A record as it was stored, with the times it was made and last changed.
    pub fn from_parts(
        id: u32,
        title: String,
        description: Option<String>,
        completed: bool,
        due_date: Option<Timestamp>,
        priority: Option<Priority>,
        tags: Option<Vec<String>>,
        created_at: Timestamp,
        updated_at: Timestamp,
    ) -> (r: TodoItem)
        ensures
            r@ == (TodoItemView {
                id,
                title: title@,
                description: optional_string_view(description),
                completed,
                due_date,
                priority,
                tags: optional_strings_view(tags),
                created_at,
                updated_at,
            }),
    {
        TodoItem {
            id,
            title,
            description,
            completed,
            due_date,
            priority,
            tags,
            created_at,
            updated_at,
        }
    }

    /// The id, which never changes.
    pub fn id(&self) -> (r: u32)
        ensures
            r == self@.id,
    {
        self.id
    }

    /// The title.
    pub fn title(&self) -> (r: &str)
        ensures
            r@ == self@.title,
    {
        self.title.as_str()
    }

    /// The description, if there is one.
    pub fn description(&self) -> (r: Option<&str>)
        ensures
            optional_str_view(r) == self@.description,
    {
        match &self.description {
            Some(d) => Some(d.as_str()),
            None => None,
        }
    }

    /// Whether the todo is done.
    pub fn completed(&self) -> (r: bool)
        ensures
            r == self@.completed,
    {
        self.completed
    }

    /// The date and time at which the todo is due, if it has one.
    pub fn due_date(&self) -> (r: Option<Timestamp>)
        ensures
            r == self@.due_date,
    {
        self.due_date
    }

    /// The priority, if there is one.
    pub fn priority(&self) -> (r: Option<Priority>)
        ensures
            r == self@.priority,
    {
        self.priority
    }

    /// The tags in their order, if there are any.
    pub fn tags(&self) -> (r: Option<&[String]>)
        ensures
            optional_slice_view(r) == self@.tags,
    {
        match &self.tags {
            Some(t) => Some(t.as_slice()),
            None => None,
        }
    }

    /// Whether the record is overdue at the time `now`: it is not completed,
    /// and five minutes after its due date lie before `now`.
    pub open spec fn overdue_at(item: TodoItemView, now: Timestamp) -> bool {
        &&& !item.completed
        &&& item.due_date matches Some(due)
        &&& due.later_by_minutes(5) matches Some(limit) && limit.is_before_spec(&now)
    }

    /// Whether the record is overdue at the time `now`. A record without due
    /// date never is, nor is a completed one.
    pub fn is_overdue(&self, now: Timestamp) -> (r: bool)
        ensures
            r == TodoItem::overdue_at(self@, now),
    {
        match self.due_date {
            Some(due) => match due.plus_minutes(5) {
                Some(limit) => limit.is_before(&now) && !self.completed,
                None => false,
            },
            None => false,
        }
    }

    /// The tags in one text, with a comma and a space between each two.
    pub fn tags_string(&self) -> (r: Option<String>)
        ensures
            optional_string_view(r) == match self@.tags {
                Some(tags) => Some(joined(tags, ", "@)),
                None => None,
            },
    {
        match &self.tags {
            Some(tags) => {
                let mut out = String::new();
                let mut i: usize = 0;
                while i < tags.len()
                    invariant
                        i <= tags.len(),
                        out@ == joined(string_views(tags@).take(i as int), ", "@),
                    decreases tags.len() - i,
                {
                    let ghost parts = string_views(tags@).take(i + 1);
                    assert(parts.drop_last() =~= string_views(tags@).take(i as int));
                    assert(parts.last() == tags[i as int]@);
                    if i > 0 {
                        out.append(", ");
                    }
                    out.append(tags[i].as_str());
                    assert(out@ =~= joined(parts, ", "@)) by {
                        if i == 0 {
                            assert(parts.drop_last().len() == 0);
                        }
                    }
                    i += 1;
                }
                assert(string_views(tags@).take(tags.len() as int) =~= string_views(tags@));
                Some(out)
            },
            None => None,
        }
    }

    /// The time at which the record was made.
    pub fn created_at(&self) -> (r: Timestamp)
        ensures
            r == self@.created_at,
    {
        self.created_at
    }

    /// The time of the last change to the record.
    pub fn updated_at(&self) -> (r: Timestamp)
        ensures
            r == self@.updated_at,
    {
        self.updated_at
    }

    /// Sets the title, at the time `now`.
    pub fn set_title(&mut self, title: String, now: Timestamp)
        ensures
            final(self)@ == (TodoItemView { title: title@, updated_at: now, ..old(self)@ }),
    {
        self.title = title;
        self.touch(now);
    }

    /// Sets or removes the description, at the time `now`.
    pub fn set_description(&mut self, description: Option<String>, now: Timestamp)
        ensures
            final(self)@ == (TodoItemView {
                description: optional_string_view(description),
                updated_at: now,
                ..old(self)@
            }),
    {
        self.description = description;
        self.touch(now);
    }

    /// Sets whether the todo is done, at the time `now`.
    pub fn set_completed(&mut self, completed: bool, now: Timestamp)
        ensures
            final(self)@ == (TodoItemView { completed, updated_at: now, ..old(self)@ }),
    {
        self.completed = completed;
        self.touch(now);
    }

    /// Sets or removes the due date, at the time `now`.
    pub fn set_due_date(&mut self, due_date: Option<Timestamp>, now: Timestamp)
        ensures
            final(self)@ == (TodoItemView { due_date, updated_at: now, ..old(self)@ }),
    {
        self.due_date = due_date;
        self.touch(now);
    }

    /// Sets or removes the priority, at the time `now`.
    pub fn set_priority(&mut self, priority: Option<Priority>, now: Timestamp)
        ensures
            final(self)@ == (TodoItemView { priority, updated_at: now, ..old(self)@ }),
    {
        self.priority = priority;
        self.touch(now);
    }

    /// Sets or removes the tags, at the time `now`.
    pub fn set_tags(&mut self, tags: Option<Vec<String>>, now: Timestamp)
        ensures
            final(self)@ == (TodoItemView {
                tags: optional_strings_view(tags),
                updated_at: now,
                ..old(self)@
            }),
    {
        self.tags = tags;
        self.touch(now);
    }

    /// Records `now` as the time of the last change.
    fn touch(&mut self, now: Timestamp)
        ensures
            final(self)@ == (TodoItemView { updated_at: now, ..old(self)@ }),
    {
        self.updated_at = now;
    }
}

} // verus!

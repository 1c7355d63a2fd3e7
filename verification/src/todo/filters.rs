use crate::todo::error::TodoResult;
use crate::todo::item::{item_views, TodoItem, TodoItemView};
use crate::todo::priority::{Priority, SortBy};
use crate::todo::time::Timestamp;
use vstd::prelude::*;

verus! {

/// What a listing asks for: the sort field and direction, and the filters.
///
/// A record is listed when it passes each of three groups. The status group
/// is `only_complete` and `only_pending`; the priority group is `priority`;
/// the time group is `overdue`, `due_today`, `due_tomorrow` and `due_within`.
/// A group of which nothing is asked passes every record. Within the time
/// group a record passes when it meets at least one of the predicates asked
/// for.
pub struct ListQuery {
    pub sort_by: SortBy,
    pub asc: bool,
    pub desc: bool,
    pub only_complete: bool,
    pub only_pending: bool,
    pub priority: Option<Priority>,
    pub overdue: bool,
    pub due_today: bool,
    pub due_tomorrow: bool,
    pub due_within: Option<i64>,
}

impl ListQuery {
    /// Whether any filter is asked for.
    pub open spec fn any_filters(&self) -> bool {
        self.only_complete || self.only_pending || self.priority is Some || self.overdue
            || self.due_today || self.due_tomorrow || self.due_within is Some
    }

    /// Whether any predicate of the time group is asked for.
    pub open spec fn any_time_filters(&self) -> bool {
        self.overdue || self.due_today || self.due_tomorrow || self.due_within is Some
    }

    /// The status group: with only `only_complete` set the record must be
    /// completed, with only `only_pending` set it must not be.
    pub open spec fn status_passes(&self, item: TodoItemView) -> bool {
        if self.only_complete && !self.only_pending {
            item.completed
        } else if !self.only_complete && self.only_pending {
            !item.completed
        } else {
            true
        }
    }

    /// The priority group: a priority that is asked for must be the record's
    /// own. A record without priority matches none.
    pub open spec fn priority_passes(&self, item: TodoItemView) -> bool {
        match self.priority {
            Some(required) => item.priority == Some(required),
            None => true,
        }
    }

    /// Asked for, and the record is due at a time strictly before `now`.
    pub open spec fn overdue_matches(&self, item: TodoItemView, now: Timestamp) -> bool {
        &&& self.overdue
        &&& item.due_date matches Some(due) && due.is_before_spec(&now)
    }

    /// Asked for, and the record is due on the day of `now`.
    pub open spec fn due_today_matches(&self, item: TodoItemView, now: Timestamp) -> bool {
        &&& self.due_today
        &&& item.due_date matches Some(due) && due.day() == now.day()
    }

    /// Asked for, and the record is due on the day after that of `now`.
    pub open spec fn due_tomorrow_matches(&self, item: TodoItemView, now: Timestamp) -> bool {
        &&& self.due_tomorrow
        &&& item.due_date matches Some(due) && due.day() == now.day() + 1
    }

    /// Asked for with a number of days, and the record is due on the day of
    /// `now` or on one of that many days after it. With zero days this is the
    /// day of `now` alone; with a negative number no day is meant.
    pub open spec fn due_within_matches(&self, item: TodoItemView, now: Timestamp) -> bool {
        &&& self.due_within matches Some(days)
        &&& item.due_date matches Some(due)
        &&& now.day() <= due.day() <= now.day() + days
    }

    /// The time group: nothing is asked for, or the record meets one of the
    /// predicates asked for. A record without due date meets none.
    pub open spec fn time_passes(&self, item: TodoItemView, now: Timestamp) -> bool {
        !self.any_time_filters() || self.overdue_matches(item, now) || self.due_today_matches(
            item,
            now,
        ) || self.due_tomorrow_matches(item, now) || self.due_within_matches(item, now)
    }

    /// Whether the record is listed: it passes all three groups.
    pub open spec fn passes(&self, item: TodoItemView, now: Timestamp) -> bool {
        self.status_passes(item) && self.priority_passes(item) && self.time_passes(item, now)
    }

    /// Whether any filter is asked for.
    pub fn has_any_filters(&self) -> (r: bool)
        ensures
            r == self.any_filters(),
    {
        self.only_complete || self.only_pending || self.priority.is_some() || self.overdue
            || self.due_today || self.due_tomorrow || self.due_within.is_some()
    }

    /// Whether the record is listed at the time `now`.
    pub fn item_passes_filters(&self, item: &TodoItem, now: Timestamp) -> (r: bool)
        ensures
            r == self.passes(item@, now),
            !self.any_filters() ==> r,
    {
        if !self.has_any_filters() {
            return true;
        }
        self.passes_status_filter(item) && self.passes_priority_filter(item)
            && self.passes_time_filter(item, now)
    }

    /// Whether the record passes the status group.
    pub fn passes_status_filter(&self, item: &TodoItem) -> (r: bool)
        ensures
            r == self.status_passes(item@),
    {
        match (self.only_complete, self.only_pending) {
            (true, false) => item.completed(),
            (false, true) => !item.completed(),
            _ => true,
        }
    }

    /// Whether the record passes the priority group.
    pub fn passes_priority_filter(&self, item: &TodoItem) -> (r: bool)
        ensures
            r == self.priority_passes(item@),
    {
        match self.priority {
            Some(required) => match item.priority() {
                Some(own) => own == required,
                None => false,
            },
            None => true,
        }
    }

    /// Whether the record passes the time group at the time `now`.
    pub fn passes_time_filter(&self, item: &TodoItem, now: Timestamp) -> (r: bool)
        ensures
            r == self.time_passes(item@, now),
    {
        if !self.overdue && !self.due_today && !self.due_tomorrow && self.due_within.is_none() {
            return true;
        }
        self.is_overdue(item, now) || self.is_due_today(item, now) || self.is_due_tomorrow(
            item,
            now,
        ) || self.is_due_within(item, now)
    }

    /// Whether `due_today` is asked for and the record is due on the day of
    /// `now`.
    pub fn is_due_today(&self, item: &TodoItem, now: Timestamp) -> (r: bool)
        ensures
            r == self.due_today_matches(item@, now),
    {
        if !self.due_today {
            return false;
        }
        match item.due_date() {
            Some(due) => due.day_number() == now.day_number(),
            None => false,
        }
    }

    /// Whether `due_tomorrow` is asked for and the record is due on the day
    /// after that of `now`.
    pub fn is_due_tomorrow(&self, item: &TodoItem, now: Timestamp) -> (r: bool)
        ensures
            r == self.due_tomorrow_matches(item@, now),
    {
        if !self.due_tomorrow {
            return false;
        }
        match item.due_date() {
            Some(due) => due.day_number() as i64 == now.day_number() as i64 + 1,
            None => false,
        }
    }

    /// Whether `overdue` is asked for and the record is due before `now`.
    pub fn is_overdue(&self, item: &TodoItem, now: Timestamp) -> (r: bool)
        ensures
            r == self.overdue_matches(item@, now),
    {
        if !self.overdue {
            return false;
        }
        match item.due_date() {
            Some(due) => due.is_before(&now),
            None => false,
        }
    }

    /// Whether `due_within` is asked for and the record is due on the day of
    /// `now` or within that many days after it.
    pub fn is_due_within(&self, item: &TodoItem, now: Timestamp) -> (r: bool)
        ensures
            r == self.due_within_matches(item@, now),
    {
        match self.due_within {
            Some(days) => match item.due_date() {
                Some(due) => {
                    let ahead: i64 = due.day_number() as i64 - now.day_number() as i64;
                    0 <= ahead && ahead <= days
                },
                None => false,
            },
            None => false,
        }
    }
}

/// The records that the query lists at the time `now`, in the order in which
/// they stand.
pub open spec fn filtered(records: Seq<TodoItemView>, query: ListQuery, now: Timestamp) -> Seq<
    TodoItemView,
> {
    records.filter(|item: TodoItemView| query.passes(item, now))
}

/// Copies of the records that the query lists at the time `now`, in the
/// order in which they stand. It never fails.
pub fn apply_filter(todos: &Vec<TodoItem>, list_options: &ListQuery, now: Timestamp) -> (r:
    TodoResult<Vec<TodoItem>>)
    ensures
        r matches Ok(kept) && item_views(kept@) == filtered(
            item_views(todos@),
            *list_options,
            now,
        ),
{
    let ghost records = item_views(todos@);
    let ghost listed = |item: TodoItemView| list_options.passes(item, now);
    let mut kept: Vec<TodoItem> = Vec::new();
    let mut i: usize = 0;
    proof {
        reveal(Seq::filter);
        assert(records.take(0).filter(listed) =~= Seq::<TodoItemView>::empty());
        assert(item_views(kept@) =~= Seq::<TodoItemView>::empty());
    }
    while i < todos.len()
        invariant
            i <= todos.len(),
            records == item_views(todos@),
            listed == |item: TodoItemView| list_options.passes(item, now),
            item_views(kept@) == records.take(i as int).filter(listed),
        decreases todos.len() - i,
    {
        let ghost before = item_views(kept@);
        proof {
            assert(records.take(i + 1) =~= records.take(i as int).push(records[i as int]));
            records.take(i as int).lemma_filter_push(records[i as int], listed);
        }
        if list_options.item_passes_filters(&todos[i], now) {
            kept.push(todos[i].clone());
            assert(item_views(kept@) =~= before.push(records[i as int]));
        }
        i += 1;
    }
    assert(records.take(todos.len() as int) =~= records);
    Ok(kept)
}

/// Filtering twice with the same query at the same time lists what filtering
/// once lists.
pub proof fn lemma_filter_idempotent(records: Seq<TodoItemView>, query: ListQuery, now: Timestamp)
    ensures
        filtered(filtered(records, query, now), query, now) == filtered(records, query, now),
    decreases records.len(),
{
    let listed = |item: TodoItemView| query.passes(item, now);
    if records.len() == 0 {
        reveal(Seq::filter);
    } else {
        let fewer = records.drop_last();
        let last = records.last();
        lemma_filter_idempotent(fewer, query, now);
        assert(records =~= fewer.push(last));
        fewer.lemma_filter_push(last, listed);
        fewer.filter(listed).lemma_filter_push(last, listed);
    }
}

/// A query that asks for no filter lists every record: as many as there
/// are, each one, in the order in which they stand.
pub proof fn lemma_no_filter_lists_all(records: Seq<TodoItemView>, query: ListQuery, now: Timestamp)
    requires
        !query.any_filters(),
    ensures
        filtered(records, query, now) == records,
    decreases records.len(),
{
    let listed = |item: TodoItemView| query.passes(item, now);
    if records.len() == 0 {
        reveal(Seq::filter);
    } else {
        let fewer = records.drop_last();
        let last = records.last();
        lemma_no_filter_lists_all(fewer, query, now);
        assert(records =~= fewer.push(last));
        fewer.lemma_filter_push(last, listed);
    }
}

/// Every record that the query lists passes each of its three groups, and
/// every record of the input that passes them is listed.
pub proof fn lemma_filtered_are_those_that_pass(
    records: Seq<TodoItemView>,
    query: ListQuery,
    now: Timestamp,
)
    ensures
        forall|k: int|
            0 <= k < filtered(records, query, now).len() ==> query.passes(
                #[trigger] filtered(records, query, now)[k],
                now,
            ),
        forall|i: int|
            0 <= i < records.len() && query.passes(records[i], now) ==> #[trigger] filtered(
                records,
                query,
                now,
            ).contains(records[i]),
{
    let listed = |item: TodoItemView| query.passes(item, now);
    assert forall|k: int| 0 <= k < filtered(records, query, now).len() implies query.passes(
        #[trigger] filtered(records, query, now)[k],
        now,
    ) by {
        records.lemma_filter_pred(listed, k);
    }
    assert forall|i: int|
        0 <= i < records.len() && query.passes(records[i], now) implies #[trigger] filtered(
        records,
        query,
        now,
    ).contains(records[i]) by {
        records.lemma_filter_contains(listed, i);
    }
}

} // verus!

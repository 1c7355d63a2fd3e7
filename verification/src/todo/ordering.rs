use crate::todo::item::{TodoItem, TodoItemView};
use crate::todo::priority::SortBy;
use crate::todo::rank::Ranked;
use std::cmp::Ordering;
use vstd::prelude::*;

verus! {

/// The rank of a value that may be absent.
pub open spec fn rank_of<T: Ranked>(value: Option<T>) -> Option<int> {
    match value {
        Some(v) => Some(v.rank()),
        None => None,
    }
}

/// Whether `a` comes strictly before `b` when an absent value is greater
/// than every present one, and two absent values are equal.
pub open spec fn absent_last_before(a: Option<int>, b: Option<int>) -> bool {
    match (a, b) {
        (Some(x), Some(y)) => x < y,
        (Some(_), None) => true,
        (None, _) => false,
    }
}

/// Whether `a` comes strictly before `b` in the given direction. Descending
/// is ascending turned round: absent values then come first.
pub open spec fn option_before(a: Option<int>, b: Option<int>, ascending: bool) -> bool {
    if ascending {
        absent_last_before(a, b)
    } else {
        absent_last_before(b, a)
    }
}

/// Whether record `a` comes strictly before record `b` under the sort field
/// and direction. With `DueThenPriority` the priority decides only between
/// records that tie on the due date.
pub open spec fn item_before(
    a: TodoItemView,
    b: TodoItemView,
    sort_by: SortBy,
    ascending: bool,
) -> bool {
    let due = option_before(rank_of(a.due_date), rank_of(b.due_date), ascending);
    let due_back = option_before(rank_of(b.due_date), rank_of(a.due_date), ascending);
    let priority = option_before(rank_of(a.priority), rank_of(b.priority), ascending);
    match sort_by {
        SortBy::Due => due,
        SortBy::Priority => priority,
        SortBy::DueThenPriority => due || (!due_back && priority),
    }
}

/// Whether neither record comes before the other: they tie on the sort key.
pub open spec fn item_tie(
    a: TodoItemView,
    b: TodoItemView,
    sort_by: SortBy,
    ascending: bool,
) -> bool {
    !item_before(a, b, sort_by, ascending) && !item_before(b, a, sort_by, ascending)
}

/// Compares two values that may be absent, in the given direction.
pub fn cmp_option<T: Ranked>(a: &Option<T>, b: &Option<T>, ascending: bool) -> (r: Ordering)
    ensures
        (r == Ordering::Less) == option_before(rank_of(*a), rank_of(*b), ascending),
        (r == Ordering::Greater) == option_before(rank_of(*b), rank_of(*a), ascending),
{
    match (a, b) {
        (Some(x), Some(y)) => {
            if x.precedes(y) {
                if ascending {
                    Ordering::Less
                } else {
                    Ordering::Greater
                }
            } else if y.precedes(x) {
                if ascending {
                    Ordering::Greater
                } else {
                    Ordering::Less
                }
            } else {
                Ordering::Equal
            }
        },
        (Some(_), None) => if ascending {
            Ordering::Less
        } else {
            Ordering::Greater
        },
        (None, Some(_)) => if ascending {
            Ordering::Greater
        } else {
            Ordering::Less
        },
        (None, None) => Ordering::Equal,
    }
}

/// Compares two records under the sort field and direction.
pub fn compare_items(a: &TodoItem, b: &TodoItem, sort_by: SortBy, ascending: bool) -> (r:
    Ordering)
    ensures
        (r == Ordering::Less) == item_before(a@, b@, sort_by, ascending),
        (r == Ordering::Greater) == item_before(b@, a@, sort_by, ascending),
{
    match sort_by {
        SortBy::Due => cmp_option(&a.due_date(), &b.due_date(), ascending),
        SortBy::Priority => cmp_option(&a.priority(), &b.priority(), ascending),
        SortBy::DueThenPriority => {
            let by_date = cmp_option(&a.due_date(), &b.due_date(), ascending);
            match by_date {
                Ordering::Equal => cmp_option(&a.priority(), &b.priority(), ascending),
                _ => by_date,
            }
        },
    }
}

/// Whether record `a` comes strictly before record `b`.
pub fn sorts_before(a: &TodoItem, b: &TodoItem, sort_by: SortBy, ascending: bool) -> (r: bool)
    ensures
        r == item_before(a@, b@, sort_by, ascending),
{
    match compare_items(a, b, sort_by, ascending) {
        Ordering::Less => true,
        _ => false,
    }
}

/// No record comes before itself, and of two records at most one comes
/// before the other.
pub proof fn lemma_item_before_asymmetric(
    a: TodoItemView,
    b: TodoItemView,
    sort_by: SortBy,
    ascending: bool,
)
    ensures
        !(item_before(a, b, sort_by, ascending) && item_before(b, a, sort_by, ascending)),
{
}

/// Coming before is transitive, and a record that ties with another stands
/// to every third record as the other does.
pub proof fn lemma_item_before_transitive(
    a: TodoItemView,
    b: TodoItemView,
    c: TodoItemView,
    sort_by: SortBy,
    ascending: bool,
)
    ensures
        item_before(a, b, sort_by, ascending) && item_before(b, c, sort_by, ascending)
            ==> item_before(a, c, sort_by, ascending),
        item_before(a, b, sort_by, ascending) && item_tie(b, c, sort_by, ascending)
            ==> item_before(a, c, sort_by, ascending),
        item_tie(a, b, sort_by, ascending) && item_before(b, c, sort_by, ascending)
            ==> item_before(a, c, sort_by, ascending),
        item_tie(a, b, sort_by, ascending) && item_tie(b, c, sort_by, ascending) ==> item_tie(
            a,
            c,
            sort_by,
            ascending,
        ),
{
}

} // verus!

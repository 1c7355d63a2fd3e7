use crate::todo::error::TodoResult;
use crate::todo::item::{item_views, TodoItem, TodoItemView};
use crate::todo::ordering::{
    item_before, item_tie, lemma_item_before_transitive, sorts_before,
};
use crate::todo::priority::SortBy;
use vstd::prelude::*;
use vstd::set_lib::{lemma_int_range, lemma_subset_equality, set_int_range};

verus! {

/// Whether the record at index `i` of `records` must stand before the one at
/// index `j` once the sequence is sorted: it comes before it on the sort key,
/// or the two tie and `i` is the earlier index.
pub open spec fn goes_before(
    records: Seq<TodoItemView>,
    i: int,
    j: int,
    sort_by: SortBy,
    ascending: bool,
) -> bool {
    item_before(records[i], records[j], sort_by, ascending) || (item_tie(
        records[i],
        records[j],
        sort_by,
        ascending,
    ) && i < j)
}

/// Whether `order` lists the indices of `records` in sorted order: as many
/// indices as records, each one in range, and each standing before all that
/// follow it. Since no index stands before itself, none is listed twice, so
/// every index is listed once.
pub open spec fn is_sorted_order(
    records: Seq<TodoItemView>,
    order: Seq<int>,
    sort_by: SortBy,
    ascending: bool,
) -> bool {
    &&& order.len() == records.len()
    &&& forall|k: int| 0 <= k < order.len() ==> 0 <= #[trigger] order[k] < records.len()
    &&& forall|k: int, l: int|
        0 <= k < l < order.len() ==> goes_before(
            records,
            #[trigger] order[k],
            #[trigger] order[l],
            sort_by,
            ascending,
        )
}

/// The indices of `records` in sorted order.
pub open spec fn sorted_order(records: Seq<TodoItemView>, sort_by: SortBy, ascending: bool) -> Seq<
    int,
> {
    choose|order: Seq<int>| is_sorted_order(records, order, sort_by, ascending)
}

/// The records at the indices that `order` lists, one after the other.
pub open spec fn arranged(records: Seq<TodoItemView>, order: Seq<int>) -> Seq<TodoItemView> {
    Seq::new(order.len(), |k: int| records[order[k]])
}

/// The records in sorted order: monotonic on the sort key in the given
/// direction, with records that tie in the order in which they came.
pub open spec fn sorted(records: Seq<TodoItemView>, sort_by: SortBy, ascending: bool) -> Seq<
    TodoItemView,
> {
    arranged(records, sorted_order(records, sort_by, ascending))
}

/// Standing before is transitive.
pub proof fn lemma_goes_before_transitive(
    records: Seq<TodoItemView>,
    i: int,
    j: int,
    k: int,
    sort_by: SortBy,
    ascending: bool,
)
    requires
        goes_before(records, i, j, sort_by, ascending),
        goes_before(records, j, k, sort_by, ascending),
    ensures
        goes_before(records, i, k, sort_by, ascending),
{
    lemma_item_before_transitive(records[i], records[j], records[k], sort_by, ascending);
}

/// A sorted order lists every index of the records.
pub proof fn lemma_sorted_order_lists_all(
    records: Seq<TodoItemView>,
    order: Seq<int>,
    sort_by: SortBy,
    ascending: bool,
    i: int,
)
    requires
        is_sorted_order(records, order, sort_by, ascending),
        0 <= i < records.len(),
    ensures
        exists|k: int| 0 <= k < order.len() && order[k] == i,
{
    assert(order.no_duplicates()) by {
        assert forall|k: int, l: int| 0 <= k < order.len() && 0 <= l < order.len() && k != l
            implies order[k] != order[l] by {
            if k < l {
                assert(goes_before(records, order[k], order[l], sort_by, ascending));
            } else {
                assert(goes_before(records, order[l], order[k], sort_by, ascending));
            }
        }
    }
    order.unique_seq_to_set();
    let listed = order.to_set();
    let all = set_int_range(0, records.len() as int);
    lemma_int_range(0, records.len() as int);
    assert(listed.subset_of(all)) by {
        assert forall|x: int| listed.contains(x) implies all.contains(x) by {
            let k = choose|k: int| 0 <= k < order.len() && order[k] == x;
            assert(0 <= order[k] < records.len());
        }
    }
    vstd::set_lib::lemma_len_subset(listed, all);
    lemma_subset_equality(listed, all);
    assert(all.contains(i));
    assert(listed.contains(i));
    assert(order.contains(i));
}

/// The records have at most one sorted order.
pub proof fn lemma_sorted_order_unique(
    records: Seq<TodoItemView>,
    first: Seq<int>,
    second: Seq<int>,
    sort_by: SortBy,
    ascending: bool,
)
    requires
        is_sorted_order(records, first, sort_by, ascending),
        is_sorted_order(records, second, sort_by, ascending),
    ensures
        first == second,
{
    assert forall|k: int| 0 <= k < first.len() implies first[k] == second[k] by {
        lemma_orders_agree_up_to(records, first, second, sort_by, ascending, k);
    }
    assert(first =~= second);
}

/// Two sorted orders of the same records list the same index at each place
/// up to `k`.
proof fn lemma_orders_agree_up_to(
    records: Seq<TodoItemView>,
    first: Seq<int>,
    second: Seq<int>,
    sort_by: SortBy,
    ascending: bool,
    k: int,
)
    requires
        is_sorted_order(records, first, sort_by, ascending),
        is_sorted_order(records, second, sort_by, ascending),
        0 <= k < first.len(),
    ensures
        forall|m: int| 0 <= m <= k ==> first[m] == second[m],
    decreases k,
{
    if k > 0 {
        lemma_orders_agree_up_to(records, first, second, sort_by, ascending, k - 1);
    }
    let x = first[k];
    let y = second[k];
    if x != y {
        assert(0 <= x < records.len());
        assert(0 <= y < records.len());
        lemma_sorted_order_lists_all(records, second, sort_by, ascending, x);
        let l = choose|l: int| 0 <= l < second.len() && second[l] == x;
        lemma_sorted_order_lists_all(records, first, sort_by, ascending, y);
        let m = choose|m: int| 0 <= m < first.len() && first[m] == y;
        // `x` stands at place `k` of `first`, so in `second`, which agrees
        // with `first` before `k` and holds `y` at `k`, it stands later.
        if l < k {
            assert(goes_before(records, first[l], first[k], sort_by, ascending));
        }
        assert(l > k);
        if m < k {
            assert(goes_before(records, second[m], second[k], sort_by, ascending));
        }
        assert(m > k);
        assert(goes_before(records, second[k], second[l], sort_by, ascending));
        assert(goes_before(records, first[k], first[m], sort_by, ascending));
        assert(false);
    }
}

/// The order `shorter` with the index `last` put in at place `at`.
spec fn with_inserted(shorter: Seq<int>, at: int, last: int) -> Seq<int> {
    shorter.subrange(0, at).push(last) + shorter.subrange(at, shorter.len() as int)
}

/// The first place of `order`, from `from` on, whose index must stand after
/// `last`; the length of `order` if there is none.
spec fn place_for(
    records: Seq<TodoItemView>,
    order: Seq<int>,
    last: int,
    from: int,
    sort_by: SortBy,
    ascending: bool,
) -> int
    decreases order.len() - from,
{
    if from < 0 || from >= order.len() {
        order.len() as int
    } else if goes_before(records, last, order[from], sort_by, ascending) {
        from
    } else {
        place_for(records, order, last, from + 1, sort_by, ascending)
    }
}

/// What `place_for` finds: every index before the place does not stand after
/// `last`, and the index at the place does.
proof fn lemma_place_for(
    records: Seq<TodoItemView>,
    order: Seq<int>,
    last: int,
    from: int,
    sort_by: SortBy,
    ascending: bool,
)
    requires
        0 <= from <= order.len(),
    ensures
        from <= place_for(records, order, last, from, sort_by, ascending) <= order.len(),
        forall|k: int|
            from <= k < place_for(records, order, last, from, sort_by, ascending) ==> !goes_before(
                records,
                last,
                #[trigger] order[k],
                sort_by,
                ascending,
            ),
        place_for(records, order, last, from, sort_by, ascending) < order.len() ==> goes_before(
            records,
            last,
            order[place_for(records, order, last, from, sort_by, ascending)],
            sort_by,
            ascending,
        ),
    decreases order.len() - from,
{
    if from < order.len() && !goes_before(records, last, order[from], sort_by, ascending) {
        lemma_place_for(records, order, last, from + 1, sort_by, ascending);
    }
}

/// Every sequence of records has a sorted order.
pub proof fn lemma_sorted_order_exists(
    records: Seq<TodoItemView>,
    sort_by: SortBy,
    ascending: bool,
)
    ensures
        is_sorted_order(records, sorted_order(records, sort_by, ascending), sort_by, ascending),
    decreases records.len(),
{
    if records.len() == 0 {
        assert(is_sorted_order(records, Seq::<int>::empty(), sort_by, ascending));
    } else {
        let fewer = records.drop_last();
        lemma_sorted_order_exists(fewer, sort_by, ascending);
        let shorter = sorted_order(fewer, sort_by, ascending);
        let last = records.len() - 1;
        let at = place_for(records, shorter, last, 0, sort_by, ascending);
        lemma_place_for(records, shorter, last, 0, sort_by, ascending);
        let order = with_inserted(shorter, at, last);
        assert forall|k: int, l: int| 0 <= k < l < shorter.len() implies goes_before(
            records,
            #[trigger] shorter[k],
            #[trigger] shorter[l],
            sort_by,
            ascending,
        ) by {
            assert(goes_before(fewer, shorter[k], shorter[l], sort_by, ascending));
        }
        assert forall|k: int| 0 <= k < order.len() implies 0 <= #[trigger] order[k]
            < records.len() by {
            if k < at {
                assert(order[k] == shorter[k]);
            } else if k > at {
                assert(order[k] == shorter[k - 1]);
            }
        }
        assert forall|k: int, l: int| 0 <= k < l < order.len() implies goes_before(
            records,
            #[trigger] order[k],
            #[trigger] order[l],
            sort_by,
            ascending,
        ) by {
            if l < at {
                assert(order[k] == shorter[k] && order[l] == shorter[l]);
            } else if l == at {
                // `shorter[k]` does not stand after `last`, so it stands before it.
                assert(order[k] == shorter[k]);
                assert(!goes_before(records, last, shorter[k], sort_by, ascending));
                assert(0 <= shorter[k] < fewer.len());
            } else if k < at {
                assert(order[k] == shorter[k] && order[l] == shorter[l - 1]);
            } else if k == at {
                assert(order[l] == shorter[l - 1]);
                if l - 1 > at {
                    assert(goes_before(records, shorter[at], shorter[l - 1], sort_by, ascending));
                    lemma_goes_before_transitive(
                        records,
                        last,
                        shorter[at],
                        shorter[l - 1],
                        sort_by,
                        ascending,
                    );
                }
            } else {
                assert(order[k] == shorter[k - 1] && order[l] == shorter[l - 1]);
            }
        }
        assert(is_sorted_order(records, order, sort_by, ascending));
    }
}

/// Whether `run` lists the indices from `lo` up to `hi` in sorted order.
spec fn is_sorted_run(
    records: Seq<TodoItemView>,
    run: Seq<usize>,
    lo: int,
    hi: int,
    sort_by: SortBy,
    ascending: bool,
) -> bool {
    &&& run.len() == hi - lo
    &&& forall|k: int| 0 <= k < run.len() ==> lo <= #[trigger] run[k] < hi
    &&& forall|k: int, l: int|
        0 <= k < l < run.len() ==> goes_before(
            records,
            #[trigger] run[k] as int,
            #[trigger] run[l] as int,
            sort_by,
            ascending,
        )
}

/// Merges two sorted runs of neighbouring index ranges into one.
fn merge_runs(
    items: &Vec<TodoItem>,
    left: &Vec<usize>,
    right: &Vec<usize>,
    sort_by: SortBy,
    ascending: bool,
    Ghost(lo): Ghost<int>,
    Ghost(mid): Ghost<int>,
    Ghost(hi): Ghost<int>,
) -> (run: Vec<usize>)
    requires
        0 <= lo <= mid <= hi <= items.len(),
        is_sorted_run(item_views(items@), left@, lo, mid, sort_by, ascending),
        is_sorted_run(item_views(items@), right@, mid, hi, sort_by, ascending),
    ensures
        is_sorted_run(item_views(items@), run@, lo, hi, sort_by, ascending),
{
    let ghost records = item_views(items@);
    let mut run: Vec<usize> = Vec::new();
    let mut i: usize = 0;
    let mut j: usize = 0;
    while i < left.len() || j < right.len()
        invariant
            0 <= lo <= mid <= hi <= items.len(),
            records == item_views(items@),
            is_sorted_run(records, left@, lo, mid, sort_by, ascending),
            is_sorted_run(records, right@, mid, hi, sort_by, ascending),
            i <= left.len(),
            j <= right.len(),
            run.len() == i + j,
            forall|k: int| 0 <= k < run.len() ==> lo <= #[trigger] run[k] < hi,
            forall|k: int, l: int|
                0 <= k < l < run.len() ==> goes_before(
                    records,
                    #[trigger] run[k] as int,
                    #[trigger] run[l] as int,
                    sort_by,
                    ascending,
                ),
            i < left.len() ==> forall|k: int|
                0 <= k < run.len() ==> goes_before(
                    records,
                    #[trigger] run[k] as int,
                    left[i as int] as int,
                    sort_by,
                    ascending,
                ),
            j < right.len() ==> forall|k: int|
                0 <= k < run.len() ==> goes_before(
                    records,
                    #[trigger] run[k] as int,
                    right[j as int] as int,
                    sort_by,
                    ascending,
                ),
        decreases left.len() - i + right.len() - j,
    {
        let take_left = if i >= left.len() {
            false
        } else if j >= right.len() {
            true
        } else {
            assert(lo <= left[i as int] < mid && mid <= right[j as int] < hi);
            !sorts_before(&items[right[j]], &items[left[i]], sort_by, ascending)
        };
        if take_left {
            let x = left[i];
            assert(lo <= left[i as int] < mid);
            proof {
                if i + 1 < left.len() {
                    let next = left[i + 1] as int;
                    assert(goes_before(records, left[i as int] as int, next, sort_by, ascending));
                    assert forall|k: int| 0 <= k < run.len() implies goes_before(
                        records,
                        #[trigger] run[k] as int,
                        next,
                        sort_by,
                        ascending,
                    ) by {
                        lemma_goes_before_transitive(
                            records,
                            run[k] as int,
                            x as int,
                            next,
                            sort_by,
                            ascending,
                        );
                    }
                }
                if j < right.len() {
                    assert(mid <= right[j as int] < hi);
                    assert(goes_before(
                        records,
                        x as int,
                        right[j as int] as int,
                        sort_by,
                        ascending,
                    ));
                }
            }
            run.push(x);
            i += 1;
        } else {
            let y = right[j];
            assert(mid <= right[j as int] < hi);
            proof {
                if j + 1 < right.len() {
                    let next = right[j + 1] as int;
                    assert(goes_before(records, right[j as int] as int, next, sort_by, ascending));
                    assert forall|k: int| 0 <= k < run.len() implies goes_before(
                        records,
                        #[trigger] run[k] as int,
                        next,
                        sort_by,
                        ascending,
                    ) by {
                        lemma_goes_before_transitive(
                            records,
                            run[k] as int,
                            y as int,
                            next,
                            sort_by,
                            ascending,
                        );
                    }
                }
                if i < left.len() {
                    assert(lo <= left[i as int] < mid);
                    assert(goes_before(
                        records,
                        y as int,
                        left[i as int] as int,
                        sort_by,
                        ascending,
                    ));
                }
            }
            run.push(y);
            j += 1;
        }
    }
    run
}

/// The indices from `lo` up to `hi` in sorted order, by merge sort.
fn sort_range(items: &Vec<TodoItem>, lo: usize, hi: usize, sort_by: SortBy, ascending: bool) -> (run:
    Vec<usize>)
    requires
        lo <= hi <= items.len(),
    ensures
        is_sorted_run(item_views(items@), run@, lo as int, hi as int, sort_by, ascending),
    decreases hi - lo,
{
    let mut run: Vec<usize> = Vec::new();
    if hi - lo == 0 {
        run
    } else if hi - lo == 1 {
        run.push(lo);
        run
    } else {
        let mid: usize = lo + (hi - lo) / 2;
        let left = sort_range(items, lo, mid, sort_by, ascending);
        let right = sort_range(items, mid, hi, sort_by, ascending);
        merge_runs(
            items,
            &left,
            &right,
            sort_by,
            ascending,
            Ghost(lo as int),
            Ghost(mid as int),
            Ghost(hi as int),
        )
    }
}

/// Sorts the records in place by the sort field, in the given direction.
///
/// The sort is stable and takes on the order of `n log n` comparisons. A
/// record without the sort field comes after every record that has it when
/// ascending, and before every such record when descending. It never fails.
pub fn apply_sorting(todos: &mut Vec<TodoItem>, sort_by: SortBy, ascending: bool) -> (r:
    TodoResult<()>)
    ensures
        r is Ok,
        item_views(final(todos)@) == sorted(item_views(old(todos)@), sort_by, ascending),
{
    let ghost records = item_views(todos@);
    let run = sort_range(todos, 0, todos.len(), sort_by, ascending);
    let ghost order = Seq::new(run@.len(), |k: int| run@[k] as int);
    let mut out: Vec<TodoItem> = Vec::new();
    let mut k: usize = 0;
    while k < run.len()
        invariant
            k <= run.len(),
            run.len() == todos.len(),
            records == item_views(todos@),
            order == Seq::new(run@.len(), |k: int| run@[k] as int),
            forall|m: int| 0 <= m < run.len() ==> 0 <= #[trigger] run[m] < todos.len(),
            out.len() == k,
            forall|m: int| 0 <= m < k ==> out[m]@ == records[order[m]],
        decreases run.len() - k,
    {
        assert(0 <= run[k as int] < todos.len());
        out.push(todos[run[k]].clone());
        k += 1;
    }
    proof {
        assert(is_sorted_order(records, order, sort_by, ascending)) by {
            assert forall|a: int, b: int| 0 <= a < b < order.len() implies goes_before(
                records,
                #[trigger] order[a],
                #[trigger] order[b],
                sort_by,
                ascending,
            ) by {
                assert(goes_before(records, run[a] as int, run[b] as int, sort_by, ascending));
            }
        }
        lemma_sorted_by_order(records, order, sort_by, ascending);
        assert(item_views(out@) =~= arranged(records, order));
    }
    *todos = out;
    Ok(())
}

/// The records in a sorted order of their indices are the sorted records:
/// whoever holds one sorted order holds the result of sorting.
pub proof fn lemma_sorted_by_order(
    records: Seq<TodoItemView>,
    order: Seq<int>,
    sort_by: SortBy,
    ascending: bool,
)
    requires
        is_sorted_order(records, order, sort_by, ascending),
    ensures
        sorted_order(records, sort_by, ascending) == order,
        sorted(records, sort_by, ascending) == arranged(records, order),
{
    lemma_sorted_order_exists(records, sort_by, ascending);
    lemma_sorted_order_unique(
        records,
        order,
        sorted_order(records, sort_by, ascending),
        sort_by,
        ascending,
    );
}

/// A sorted sequence is monotonic: no record comes, on the sort key, before
/// one that stands earlier.
pub proof fn lemma_sorted_is_monotonic(
    records: Seq<TodoItemView>,
    sort_by: SortBy,
    ascending: bool,
    k: int,
    l: int,
)
    requires
        0 <= k < l < records.len(),
    ensures
        sorted(records, sort_by, ascending).len() == records.len(),
        !item_before(
            sorted(records, sort_by, ascending)[l],
            sorted(records, sort_by, ascending)[k],
            sort_by,
            ascending,
        ),
{
    lemma_sorted_order_exists(records, sort_by, ascending);
    let order = sorted_order(records, sort_by, ascending);
    assert(goes_before(records, order[k], order[l], sort_by, ascending));
}

/// Sorting keeps every record: the record at each index of the input stands
/// at exactly one place of the output.
pub proof fn lemma_sorted_keeps_every_record(
    records: Seq<TodoItemView>,
    sort_by: SortBy,
    ascending: bool,
    i: int,
)
    requires
        0 <= i < records.len(),
    ensures
        sorted(records, sort_by, ascending).len() == records.len(),
        exists|k: int|
            0 <= k < records.len() && sorted_order(records, sort_by, ascending)[k] == i && sorted(
                records,
                sort_by,
                ascending,
            )[k] == records[i],
        forall|k: int, l: int|
            0 <= k < records.len() && 0 <= l < records.len() && sorted_order(
                records,
                sort_by,
                ascending,
            )[k] == i && sorted_order(records, sort_by, ascending)[l] == i ==> k == l,
{
    lemma_sorted_order_exists(records, sort_by, ascending);
    let order = sorted_order(records, sort_by, ascending);
    lemma_sorted_order_lists_all(records, order, sort_by, ascending, i);
    assert forall|k: int, l: int|
        0 <= k < records.len() && 0 <= l < records.len() && order[k] == i && order[l]
            == i implies k == l by {
        if k < l {
            assert(goes_before(records, order[k], order[l], sort_by, ascending));
        } else if l < k {
            assert(goes_before(records, order[l], order[k], sort_by, ascending));
        }
    }
}

/// Whether index `i` is listed before index `j`.
pub open spec fn stands_before(order: Seq<int>, i: int, j: int) -> bool {
    exists|k: int, l: int|
        0 <= k < l < order.len() && #[trigger] order[k] == i && #[trigger] order[l] == j
}

/// In the sorted order one record is listed before another exactly when it
/// must stand before it: it comes before it on the sort key, or the two tie
/// and it stood earlier in the input.
pub proof fn lemma_sorted_order_follows(
    records: Seq<TodoItemView>,
    sort_by: SortBy,
    ascending: bool,
    i: int,
    j: int,
)
    requires
        0 <= i < records.len(),
        0 <= j < records.len(),
        i != j,
    ensures
        stands_before(sorted_order(records, sort_by, ascending), i, j) <==> goes_before(
            records,
            i,
            j,
            sort_by,
            ascending,
        ),
        stands_before(sorted_order(records, sort_by, ascending), i, j) <==> !stands_before(
            sorted_order(records, sort_by, ascending),
            j,
            i,
        ),
{
    lemma_sorted_order_exists(records, sort_by, ascending);
    let order = sorted_order(records, sort_by, ascending);
    lemma_sorted_order_lists_all(records, order, sort_by, ascending, i);
    let k = choose|k: int| 0 <= k < order.len() && order[k] == i;
    lemma_sorted_order_lists_all(records, order, sort_by, ascending, j);
    let l = choose|l: int| 0 <= l < order.len() && order[l] == j;
    lemma_item_before_transitive(records[i], records[j], records[i], sort_by, ascending);
    if k < l {
        assert(goes_before(records, order[k], order[l], sort_by, ascending));
        assert(stands_before(order, i, j));
    } else {
        assert(goes_before(records, order[l], order[k], sort_by, ascending));
        assert(stands_before(order, j, i));
    }
    if stands_before(order, i, j) {
        let (a, b) = choose|a: int, b: int|
            0 <= a < b < order.len() && #[trigger] order[a] == i && #[trigger] order[b] == j;
        assert(goes_before(records, order[a], order[b], sort_by, ascending));
    }
    if stands_before(order, j, i) {
        let (a, b) = choose|a: int, b: int|
            0 <= a < b < order.len() && #[trigger] order[a] == j && #[trigger] order[b] == i;
        assert(goes_before(records, order[a], order[b], sort_by, ascending));
    }
}

/// Stability: two records that tie on the sort key stand in the output in
/// the order in which they stood in the input, whatever the sort field and
/// the direction.
pub proof fn lemma_sort_is_stable(
    records: Seq<TodoItemView>,
    sort_by: SortBy,
    ascending: bool,
    i: int,
    j: int,
)
    requires
        0 <= i < j < records.len(),
        item_tie(records[i], records[j], sort_by, ascending),
    ensures
        stands_before(sorted_order(records, sort_by, ascending), i, j),
        !stands_before(sorted_order(records, sort_by, ascending), j, i),
{
    lemma_sorted_order_follows(records, sort_by, ascending, i, j);
}

/// Missing values: sorted by due date, a record with a due date stands before
/// every record without one when ascending, and after every such record when
/// descending.
pub proof fn lemma_missing_due_date_placement(
    records: Seq<TodoItemView>,
    ascending: bool,
    with_date: int,
    without: int,
)
    requires
        0 <= with_date < records.len(),
        0 <= without < records.len(),
        records[with_date].due_date is Some,
        records[without].due_date is None,
    ensures
        ascending ==> stands_before(
            sorted_order(records, SortBy::Due, ascending),
            with_date,
            without,
        ),
        !ascending ==> stands_before(
            sorted_order(records, SortBy::Due, ascending),
            without,
            with_date,
        ),
{
    lemma_sorted_order_follows(records, SortBy::Due, ascending, with_date, without);
}

/// Missing values: the same holds of the priority when sorting by priority.
pub proof fn lemma_missing_priority_placement(
    records: Seq<TodoItemView>,
    ascending: bool,
    with_priority: int,
    without: int,
)
    requires
        0 <= with_priority < records.len(),
        0 <= without < records.len(),
        records[with_priority].priority is Some,
        records[without].priority is None,
    ensures
        ascending ==> stands_before(
            sorted_order(records, SortBy::Priority, ascending),
            with_priority,
            without,
        ),
        !ascending ==> stands_before(
            sorted_order(records, SortBy::Priority, ascending),
            without,
            with_priority,
        ),
{
    lemma_sorted_order_follows(records, SortBy::Priority, ascending, with_priority, without);
}

/// Tie-break: two records with the same due date, or both without one,
/// stand to each other under due date and then priority as they do under
/// priority alone.
pub proof fn lemma_equal_due_dates_order_by_priority(
    records: Seq<TodoItemView>,
    ascending: bool,
    i: int,
    j: int,
)
    requires
        0 <= i < records.len(),
        0 <= j < records.len(),
        i != j,
        records[i].due_date == records[j].due_date,
    ensures
        stands_before(sorted_order(records, SortBy::DueThenPriority, ascending), i, j)
            <==> stands_before(sorted_order(records, SortBy::Priority, ascending), i, j),
{
    lemma_sorted_order_follows(records, SortBy::DueThenPriority, ascending, i, j);
    lemma_sorted_order_follows(records, SortBy::Priority, ascending, i, j);
}

/// Tie-break: where all records have the same due date, or none has one,
/// sorting by due date and then priority gives what sorting by priority
/// alone gives.
pub proof fn lemma_equal_due_dates_sort_by_priority(records: Seq<TodoItemView>, ascending: bool)
    requires
        forall|i: int, j: int|
            0 <= i < records.len() && 0 <= j < records.len() ==> records[i].due_date
                == records[j].due_date,
    ensures
        sorted(records, SortBy::DueThenPriority, ascending) == sorted(
            records,
            SortBy::Priority,
            ascending,
        ),
{
    lemma_sorted_order_exists(records, SortBy::Priority, ascending);
    let order = sorted_order(records, SortBy::Priority, ascending);
    assert forall|k: int, l: int| 0 <= k < l < order.len() implies goes_before(
        records,
        #[trigger] order[k],
        #[trigger] order[l],
        SortBy::DueThenPriority,
        ascending,
    ) by {
        assert(goes_before(records, order[k], order[l], SortBy::Priority, ascending));
        assert(records[order[k]].due_date == records[order[l]].due_date);
    }
    lemma_sorted_by_order(records, order, SortBy::DueThenPriority, ascending);
}

} // verus!

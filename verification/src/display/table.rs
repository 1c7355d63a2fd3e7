use crate::display::formatter::{
    can_truncate, due_date_text, format_due_date, format_priority, format_status, priority_text,
    status_mark, truncate_text, truncated,
};
use crate::todo::item::{item_views, TodoItem, TodoItemView};
use crate::todo::time::Timestamp;
use crate::utils::text::{
    decimal, decimal_string, pad_right, padded, repeat_str, repeated, string_views, trim, trimmed,
};
use vstd::prelude::*;
use vstd::string::StringExecFns;

verus! {

/// The most bytes of a title that a row shows.
pub const TODO_DISPLAY_LENGTH: usize = 35;

/// The number of strokes in the line under the header.
pub const TABLE_WIDTH: usize = 85;

/// The line that is shown in place of an empty table.
pub open spec fn empty_line() -> Seq<char> {
    "📭 No todos found."@
}

/// The header of the table: the names of the columns, each as wide as its
/// column.
pub open spec fn header_line() -> Seq<char> {
    padded("ID"@, 3) + " ✓  "@ + padded("Todo"@, 35) + " "@ + padded("Due Date"@, 30)
        + " Priority"@
}

/// The line under the header.
pub open spec fn separator_line() -> Seq<char> {
    repeated('─', TABLE_WIDTH as nat)
}

/// The row of one record at the time `now`: id, status mark, title, due date
/// and priority, the first four each filled with spaces to the width of its
/// column. The title is cut to `TODO_DISPLAY_LENGTH` bytes.
pub open spec fn row_line(item: TodoItemView, now: Timestamp) -> Seq<char> {
    padded(decimal(item.id as nat), 3) + " "@ + status_mark(item.completed) + " "@ + padded(
        truncated(item.title, TODO_DISPLAY_LENGTH as nat),
        35,
    ) + " "@ + padded(due_date_text(item.due_date, now), 30) + " "@ + trimmed(
        priority_text(item.priority),
    )
}

/// The lines of the table for the records at the time `now`: one line that
/// says so if there are none; else the header, the line under it, and one
/// row for each record, in their order.
pub open spec fn table_lines(records: Seq<TodoItemView>, now: Timestamp) -> Seq<Seq<char>> {
    if records.len() == 0 {
        seq![empty_line()]
    } else {
        seq![header_line(), separator_line()] + Seq::new(
            records.len(),
            |i: int| row_line(records[i], now),
        )
    }
}

/// Whether the title of each record can be cut to the width of its column.
pub open spec fn titles_fit(records: Seq<TodoItemView>) -> bool {
    forall|i: int|
        0 <= i < records.len() ==> can_truncate(
            (#[trigger] records[i]).title,
            TODO_DISPLAY_LENGTH as nat,
        )
}

/// The header of the table.
pub fn table_header() -> (r: String)
    ensures
        r@ == header_line(),
{
    let mut line = pad_right("ID", 3);
    line.append(" ✓  ");
    line.append(pad_right("Todo", 35).as_str());
    line.append(" ");
    line.append(pad_right("Due Date", 30).as_str());
    line.append(" Priority");
    line
}

/// The line under the header.
pub fn table_separator() -> (r: String)
    ensures
        r@ == separator_line(),
{
    proof {
        reveal_strlit("─");
    }
    repeat_str("─", TABLE_WIDTH)
}

/// The row of one record at the time `now`.
pub fn todo_row(item: &TodoItem, now: Timestamp) -> (r: String)
    requires
        can_truncate(item@.title, TODO_DISPLAY_LENGTH as nat),
    ensures
        r@ == row_line(item@, now),
{
    let title = truncate_text(item.title(), TODO_DISPLAY_LENGTH);
    let due_date = format_due_date(item.due_date(), now);
    let priority = format_priority(item.priority());
    let mut line = pad_right(decimal_string(item.id() as u64).as_str(), 3);
    line.append(" ");
    line.append(format_status(item.completed()));
    line.append(" ");
    line.append(pad_right(title.as_str(), 35).as_str());
    line.append(" ");
    line.append(pad_right(due_date.as_str(), 30).as_str());
    line.append(" ");
    line.append(trim(priority.as_str()));
    line
}

/// The lines that show the records as a table at the time `now`.
pub fn display_todos(todos: &Vec<TodoItem>, now: Timestamp) -> (r: Vec<String>)
    requires
        titles_fit(item_views(todos@)),
    ensures
        string_views(r@) == table_lines(item_views(todos@), now),
{
    let ghost records = item_views(todos@);
    let mut lines: Vec<String> = Vec::new();
    if todos.len() == 0 {
        lines.push(String::from_str("📭 No todos found."));
        assert(string_views(lines@) =~= table_lines(records, now));
        return lines;
    }
    lines.push(table_header());
    lines.push(table_separator());
    let mut i: usize = 0;
    while i < todos.len()
        invariant
            i <= todos.len(),
            records == item_views(todos@),
            titles_fit(records),
            lines.len() == i + 2,
            lines[0]@ == header_line(),
            lines[1]@ == separator_line(),
            forall|k: int| 0 <= k < i ==> (#[trigger] lines[k + 2])@ == row_line(records[k], now),
        decreases todos.len() - i,
    {
        assert(can_truncate(records[i as int].title, TODO_DISPLAY_LENGTH as nat));
        lines.push(todo_row(&todos[i], now));
        i += 1;
    }
    proof {
        let expected = table_lines(records, now);
        let rows = Seq::new(records.len(), |i: int| row_line(records[i], now));
        assert(expected == seq![header_line(), separator_line()] + rows);
        assert forall|k: int| 0 <= k < lines.len() implies string_views(lines@)[k]
            == expected[k] by {
            if k >= 2 {
                assert(lines[(k - 2) + 2]@ == row_line(records[k - 2], now));
                assert(expected[k] == rows[k - 2]);
            }
        }
        assert(string_views(lines@) =~= expected);
    }
    lines
}

} // verus!

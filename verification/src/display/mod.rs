pub mod formatter;
pub mod table;

pub use formatter::{
    format_due_date, format_due_date_with_now, format_priority, format_status, truncate_text,
};
pub use table::display_todos;

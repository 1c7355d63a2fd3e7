//! A single-user todo list: records, a query engine that sorts and filters
//! them, and the rules around adding, editing and showing them.
//!
//! Nothing here reads a clock, a file or a terminal. The caller hands in the
//! current time and the stored records, and gets back the records to store
//! and the lines to show.

pub mod cli;
pub mod display;
pub mod todo;
pub mod utils;

pub use cli::Cli;
pub use display::{display_todos, format_due_date, format_status, truncate_text};
pub use todo::{TodoItem, TodoManager};

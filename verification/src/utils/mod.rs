pub mod date;
pub mod number;
pub mod text;
pub mod validation;

pub use date::parse_due_date;
pub use validation::{validate_id, validate_text, validate_todo_text};

use crate::utils::text::{decimal, decimal_string};
use vstd::prelude::*;
use vstd::string::StringExecFns;
use vstd::std_specs::convert::FromSpecImpl;

verus! {

/// Errors of the operating system's file interface. Only carried along:
/// nothing here looks inside one.
#[verifier::external_type_specification]
#[verifier::external_body]
pub struct ExIoError(std::io::Error);

/// Errors of the JSON reader and writer. Only carried along: nothing here
/// looks inside one.
#[verifier::external_type_specification]
#[verifier::external_body]
pub struct ExJsonError(serde_json::Error);

/// What a todo operation returns: a value, or the reason it was refused.
pub type TodoResult<T> = Result<T, TodoError>;

/// The reasons for which an operation on the todo list is refused.
#[derive(Debug)]
#[allow(inconsistent_fields)]
pub enum TodoError {
    /// The text is no date in any accepted form.
    InvalidDateFormat { input: String },
    /// The text names no priority.
    InvalidPriority { input: String },
    /// No todo has this id.
    TodoNotFound { id: u32 },
    /// A file could not be read or written.
    FileError { operation: String, path: String, source: std::io::Error },
    /// The text is empty once the surrounding blanks are removed.
    EmptyTodo,
    /// The stored list could not be written as JSON or read back.
    SerializationError(serde_json::Error),
    /// The text names no sort field.
    InvalidSortField { field: String },
    /// The text is longer than allowed.
    TodoTooLong { actual: usize, max: usize },
    /// The text is no valid id.
    InvalidId { id: String },
    /// The date lies in the past.
    PastDate { date: String },
    /// The text is a date, but not an acceptable one.
    InvalidDate { input: String, reason: String },
}

/// What an error holds, as mathematical values.
#[allow(inconsistent_fields)]
pub enum TodoErrorView {
    InvalidDateFormat { input: Seq<char> },
    InvalidPriority { input: Seq<char> },
    TodoNotFound { id: u32 },
    FileError { operation: Seq<char>, path: Seq<char>, source: std::io::Error },
    EmptyTodo,
    SerializationError(serde_json::Error),
    InvalidSortField { field: Seq<char> },
    TodoTooLong { actual: usize, max: usize },
    InvalidId { id: Seq<char> },
    PastDate { date: Seq<char> },
    InvalidDate { input: Seq<char>, reason: Seq<char> },
}

impl View for TodoError {
    type V = TodoErrorView;

    open spec fn view(&self) -> TodoErrorView {
        match *self {
            TodoError::InvalidDateFormat { input } => TodoErrorView::InvalidDateFormat {
                input: input@,
            },
            TodoError::InvalidPriority { input } => TodoErrorView::InvalidPriority {
                input: input@,
            },
            TodoError::TodoNotFound { id } => TodoErrorView::TodoNotFound { id },
            TodoError::FileError { operation, path, source } => TodoErrorView::FileError {
                operation: operation@,
                path: path@,
                source,
            },
            TodoError::EmptyTodo => TodoErrorView::EmptyTodo,
            TodoError::SerializationError(source) => TodoErrorView::SerializationError(source),
            TodoError::InvalidSortField { field } => TodoErrorView::InvalidSortField {
                field: field@,
            },
            TodoError::TodoTooLong { actual, max } => TodoErrorView::TodoTooLong { actual, max },
            TodoError::InvalidId { id } => TodoErrorView::InvalidId { id: id@ },
            TodoError::PastDate { date } => TodoErrorView::PastDate { date: date@ },
            TodoError::InvalidDate { input, reason } => TodoErrorView::InvalidDate {
                input: input@,
                reason: reason@,
            },
        }
    }
}

/// A result with its error as mathematical values.
pub open spec fn result_view<T>(r: Result<T, TodoError>) -> Result<T, TodoErrorView> {
    match r {
        Ok(value) => Ok(value),
        Err(e) => Err(e@),
    }
}

/// A result that holds a text, with text and error as mathematical values.
pub open spec fn text_result_view(r: Result<String, TodoError>) -> Result<
    Seq<char>,
    TodoErrorView,
> {
    match r {
        Ok(text) => Ok(text@),
        Err(e) => Err(e@),
    }
}

impl TodoError {
    /// The error for a file operation that failed without saying which file:
    /// the operation is recorded as "access" and the path as "unknown".
    pub fn from_io_error(err: std::io::Error) -> (r: TodoError)
        ensures
            r@ == (TodoErrorView::FileError {
                operation: "access"@,
                path: "unknown"@,
                source: err,
            }),
    {
        TodoError::FileError {
            operation: String::from_str("access"),
            path: String::from_str("unknown"),
            source: err,
        }
    }
}

/// The conversion makes two new texts, and which values they are is not
/// fixed by the characters they hold: no value can be named in advance that
/// the result is equal to. What it holds is stated on `from_io_error`.
impl FromSpecImpl<std::io::Error> for TodoError {
    open spec fn obeys_from_spec() -> bool {
        false
    }

    open spec fn from_spec(err: std::io::Error) -> TodoError {
        arbitrary()
    }
}

impl From<std::io::Error> for TodoError {
    /// What `from_io_error` gives.
    fn from(err: std::io::Error) -> (r: TodoError) {
        TodoError::from_io_error(err)
    }
}

impl FromSpecImpl<serde_json::Error> for TodoError {
    open spec fn obeys_from_spec() -> bool {
        true
    }

    open spec fn from_spec(err: serde_json::Error) -> TodoError {
        TodoError::SerializationError(err)
    }
}

impl From<serde_json::Error> for TodoError {
    /// The error that holds the given one as its source.
    fn from(err: serde_json::Error) -> (r: TodoError) {
        TodoError::SerializationError(err)
    }
}

impl TodoErrorView {
    /// The message that tells the user what went wrong.
    pub open spec fn message(self) -> Seq<char> {
        match self {
            TodoErrorView::InvalidDateFormat { input } => {
                "❌ Invalid date format: '"@
                    + input
                    + "'. Use: dd-mm-YYYY HH:MM or natural language like 'tomorrow'"@
            },
            TodoErrorView::InvalidPriority { input } => {
                "❌ Invalid priority: '"@
                    + input
                    + "'. Use: high, medium, low (or h, m, l)"@
            },
            TodoErrorView::TodoNotFound { id } => {
                "❌ Todo with ID "@
                    + decimal(id as nat)
                    + " not found. Use 'todo list' to see available todos"@
            },
            TodoErrorView::FileError { operation, path, source: _ } => {
                "❌ Failed to "@
                    + operation
                    + " file '"@
                    + path
                    + "'"@
            },
            TodoErrorView::EmptyTodo => "❌ Todo cannot be empty"@,
            TodoErrorView::SerializationError(_) => "❌ Failed to save/load todos"@,
            TodoErrorView::InvalidSortField { field } => {
                "❌ Invalid sort field: '"@
                    + field
                    + "'. Available: due, priority, due+priority"@
            },
            TodoErrorView::TodoTooLong { actual, max } => {
                "❌ Todo too long: "@
                    + decimal(actual as nat)
                    + " characters (max: "@
                    + decimal(max as nat)
                    + ")"@
            },
            TodoErrorView::InvalidId { id } => {
                "❌ Invalid ID: '"@
                    + id
                    + "'. Please provide a valid number"@
            },
            TodoErrorView::PastDate { date } => {
                "❌ Date is in the past: "@
                    + date
            },
            TodoErrorView::InvalidDate { input, reason } => {
                "❌ Invalid date: "@
                    + input
                    + ". Reason: "@
                    + reason
            },
        }
    }
}

impl TodoError {
    /// The message that tells the user what went wrong.
    pub fn to_string(&self) -> (r: String)
        ensures
            r@ == self@.message(),
    {
        match self {
            TodoError::InvalidDateFormat { input } => {
                let mut text = String::from_str("❌ Invalid date format: '");
                text.append(input.as_str());
                text.append("'. Use: dd-mm-YYYY HH:MM or natural language like 'tomorrow'");
                text
            },
            TodoError::InvalidPriority { input } => {
                let mut text = String::from_str("❌ Invalid priority: '");
                text.append(input.as_str());
                text.append("'. Use: high, medium, low (or h, m, l)");
                text
            },
            TodoError::TodoNotFound { id } => {
                let mut text = String::from_str("❌ Todo with ID ");
                text.append(decimal_string(*id as u64).as_str());
                text.append(" not found. Use 'todo list' to see available todos");
                text
            },
            TodoError::FileError { operation, path, source: _ } => {
                let mut text = String::from_str("❌ Failed to ");
                text.append(operation.as_str());
                text.append(" file '");
                text.append(path.as_str());
                text.append("'");
                text
            },
            TodoError::EmptyTodo => {
                String::from_str("❌ Todo cannot be empty")
            },
            TodoError::SerializationError(_) => {
                String::from_str("❌ Failed to save/load todos")
            },
            TodoError::InvalidSortField { field } => {
                let mut text = String::from_str("❌ Invalid sort field: '");
                text.append(field.as_str());
                text.append("'. Available: due, priority, due+priority");
                text
            },
            TodoError::TodoTooLong { actual, max } => {
                let mut text = String::from_str("❌ Todo too long: ");
                text.append(decimal_string(*actual as u64).as_str());
                text.append(" characters (max: ");
                text.append(decimal_string(*max as u64).as_str());
                text.append(")");
                text
            },
            TodoError::InvalidId { id } => {
                let mut text = String::from_str("❌ Invalid ID: '");
                text.append(id.as_str());
                text.append("'. Please provide a valid number");
                text
            },
            TodoError::PastDate { date } => {
                let mut text = String::from_str("❌ Date is in the past: ");
                text.append(date.as_str());
                text
            },
            TodoError::InvalidDate { input, reason } => {
                let mut text = String::from_str("❌ Invalid date: ");
                text.append(input.as_str());
                text.append(". Reason: ");
                text.append(reason.as_str());
                text
            },
        }
    }
}

} // verus!

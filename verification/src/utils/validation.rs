use crate::todo::error::{result_view, text_result_view, TodoError, TodoErrorView, TodoResult};
use crate::utils::number::{parse_u32, parsed_u32};
use crate::utils::text::{byte_len, str_byte_len, str_eq, trim, trimmed};
use vstd::prelude::*;
use vstd::string::StringExecFns;

verus! {

/// The longest text, in bytes, that `validate_todo_text` accepts.
pub const MAX_TODO_LENGTH: usize = 500;

/// What checking a text gives, where `text` is without the blanks around it
/// and `len` is the most bytes it may take: `EmptyTodo` for no text,
/// `TodoTooLong` with both numbers for too long a text, else the text.
pub open spec fn checked_text(text: Seq<char>, len: nat) -> Result<Seq<char>, TodoErrorView> {
    if text.len() == 0 {
        Err(TodoErrorView::EmptyTodo)
    } else if byte_len(text) > len {
        Err(TodoErrorView::TodoTooLong { actual: byte_len(text) as usize, max: len as usize })
    } else {
        Ok(text)
    }
}

/// Checks a text that has no blanks around it: it must not be empty, nor
/// take more than `len` bytes.
pub fn check_text(text: &str, len: usize) -> (r: TodoResult<String>)
    ensures
        text_result_view(r) == checked_text(text@, len as nat),
{
    if text.unicode_len() == 0 {
        return Err(TodoError::EmptyTodo);
    }
    let actual = str_byte_len(text);
    if actual > len {
        return Err(TodoError::TodoTooLong { actual, max: len });
    }
    Ok(String::from_str(text))
}

/// Takes the blanks off both ends of a text and checks what is left: it must
/// not be empty, nor take more than `len` bytes.
pub fn validate_text(text: &str, len: usize) -> (r: TodoResult<String>)
    ensures
        text_result_view(r) == checked_text(trimmed(text@), len as nat),
{
    check_text(trim(text), len)
}

/// As `validate_text`, with the limit `MAX_TODO_LENGTH`.
pub fn validate_todo_text(text: &str) -> (r: TodoResult<String>)
    ensures
        text_result_view(r) == checked_text(trimmed(text@), MAX_TODO_LENGTH as nat),
{
    validate_text(text, MAX_TODO_LENGTH)
}

/// What checking an id gives, where `text` is the input `id_str` without the
/// blanks around it: `InvalidId` with the word "empty" for no text, with the
/// word "zero" for the text "0", and with the whole input for anything that
/// is no number below 2^32; else the number.
pub open spec fn checked_id(text: Seq<char>, id_str: Seq<char>) -> Result<u32, TodoErrorView> {
    if text.len() == 0 {
        Err(TodoErrorView::InvalidId { id: "empty"@ })
    } else if text == "0"@ {
        Err(TodoErrorView::InvalidId { id: "zero"@ })
    } else {
        match parsed_u32(text) {
            Some(n) => Ok(n),
            None => Err(TodoErrorView::InvalidId { id: id_str }),
        }
    }
}

/// Checks an id, given the input and the input without the blanks around it.
pub fn check_id(text: &str, id_str: &str) -> (r: TodoResult<u32>)
    ensures
        result_view(r) == checked_id(text@, id_str@),
{
    if text.unicode_len() == 0 {
        return Err(TodoError::InvalidId { id: String::from_str("empty") });
    }
    if str_eq(text, "0") {
        return Err(TodoError::InvalidId { id: String::from_str("zero") });
    }
    match parse_u32(text) {
        Some(n) => Ok(n),
        None => Err(TodoError::InvalidId { id: String::from_str(id_str) }),
    }
}

/// Reads an id: a number below 2^32 in decimal digits, with blanks allowed
/// around it. The text "0" is refused, as is an empty one.
pub fn validate_id(id_str: &str) -> (r: TodoResult<u32>)
    ensures
        result_view(r) == checked_id(trimmed(id_str@), id_str@),
{
    check_id(trim(id_str), id_str)
}

} // verus!

use crate::todo::error::{result_view, TodoError, TodoErrorView};
use crate::todo::rank::Ranked;
use crate::utils::text::{lowercased, str_eq, to_lowercase};
use std::cmp::Ordering;
use vstd::prelude::*;
use vstd::std_specs::cmp::PartialOrdSpecImpl;
use vstd::string::StringExecFns;

verus! {

/// How urgent a todo is. The variants are ordered `Low < Medium < High`.
#[derive(Debug, Clone, Copy, PartialEq, Eq, Structural)]
pub enum Priority {
    Low,
    Medium,
    High,
}

impl Priority {
    /// The position of the priority in the order `Low < Medium < High`.
    pub open spec fn level(self) -> int {
        match self {
            Priority::Low => 0,
            Priority::Medium => 1,
            Priority::High => 2,
        }
    }

    /// The text that shows the priority in a listing.
    pub open spec fn label(self) -> Seq<char> {
        match self {
            Priority::High => "üî¥ High"@,
            Priority::Medium => "üü° Medium"@,
            Priority::Low => "üü¢ Low"@,
        }
    }

    /// The text that shows the priority in a listing.
    pub fn to_string(&self) -> (r: String)
        ensures
            r@ == self.label(),
    {
        match self {
            Priority::High => String::from_str("üî¥ High"),
            Priority::Medium => String::from_str("üü° Medium"),
            Priority::Low => String::from_str("üü¢ Low"),
        }
    }

    /// The priority that a lower-case word names, if it names one.
    pub open spec fn named(word: Seq<char>) -> Option<Priority> {
        if word == "high"@ {
            Some(Priority::High)
        } else if word == "medium"@ {
            Some(Priority::Medium)
        } else if word == "low"@ {
            Some(Priority::Low)
        } else {
            None
        }
    }

    /// What reading `input` gives when `word` is its lower-case form: the
    /// priority that `word` names, or `InvalidPriority` with `input`.
    pub open spec fn parsed(word: Seq<char>, input: Seq<char>) -> Result<Priority, TodoErrorView> {
        match Priority::named(word) {
            Some(priority) => Ok(priority),
            None => Err(TodoErrorView::InvalidPriority { input }),
        }
    }

    /// Reads a priority from `input`, given `word`, the lower-case form of
    /// `input`: "high", "medium" or "low". Anything else is refused with
    /// `InvalidPriority`, which holds `input` as it was written.
    pub fn from_lowercase(word: &str, input: &str) -> (r: Result<Priority, TodoError>)
        ensures
            result_view(r) == Priority::parsed(word@, input@),
    {
        if str_eq(word, "high") {
            Ok(Priority::High)
        } else if str_eq(word, "medium") {
            Ok(Priority::Medium)
        } else if str_eq(word, "low") {
            Ok(Priority::Low)
        } else {
            Err(TodoError::InvalidPriority { input: String::from_str(input) })
        }
    }

    /// Reads a priority, whatever the case of its letters: "high", "medium"
    /// or "low". Anything else is refused with `InvalidPriority`, which holds
    /// the text as it was written.
    pub fn from_str(s: &str) -> (r: Result<Priority, TodoError>)
        ensures
            result_view(r) == Priority::parsed(lowercased(s@), s@),
    {
        let word = to_lowercase(s);
        Priority::from_lowercase(word.as_str(), s)
    }

    /// The position of the priority, as a machine integer.
    pub fn level_value(self) -> (r: u8)
        ensures
            r == self.level(),
    {
        match self {
            Priority::Low => 0,
            Priority::Medium => 1,
            Priority::High => 2,
        }
    }
}

impl PartialOrdSpecImpl for Priority {
    open spec fn obeys_partial_cmp_spec() -> bool {
        true
    }

    open spec fn partial_cmp_spec(&self, other: &Priority) -> Option<Ordering> {
        if self.level() < other.level() {
            Some(Ordering::Less)
        } else if self.level() == other.level() {
            Some(Ordering::Equal)
        } else {
            Some(Ordering::Greater)
        }
    }
}

impl PartialOrd for Priority {
    fn partial_cmp(&self, other: &Priority) -> (r: Option<Ordering>) {
        let a: u8 = self.level_value();
        let b: u8 = other.level_value();
        if a < b {
            Some(Ordering::Less)
        } else if a == b {
            Some(Ordering::Equal)
        } else {
            Some(Ordering::Greater)
        }
    }
}

impl Ranked for Priority {
    open spec fn rank(&self) -> int {
        self.level()
    }

    fn precedes(&self, other: &Priority) -> (r: bool) {
        self.level_value() < other.level_value()
    }
}

/// The field, or fields, by which a listing is sorted.
#[derive(Debug, Clone, Copy, PartialEq, Eq, Structural)]
pub enum SortBy {
    /// By due date.
    Due,
    /// By priority.
    Priority,
    /// By due date, and among equal due dates by priority.
    DueThenPriority,
}

impl std::str::FromStr for Priority {
    type Err = TodoError;

    /// Reads a priority as the function of the same name on the type does:
    /// the priority that the lower-case form of the text names, or
    /// `InvalidPriority` with the text as it was written.
    fn from_str(s: &str) -> (r: Result<Priority, TodoError>)
        ensures
            result_view(r) == Priority::parsed(lowercased(s@), s@),
    {
        Priority::from_str(s)
    }
}

impl SortBy {
    /// The sort field that a lower-case word names, if it names one.
    pub open spec fn named(word: Seq<char>) -> Option<SortBy> {
        if word == "due"@ {
            Some(SortBy::Due)
        } else if word == "priority"@ {
            Some(SortBy::Priority)
        } else if word == "due+priority"@ {
            Some(SortBy::DueThenPriority)
        } else {
            None
        }
    }

    /// What reading `input` gives when `word` is its lower-case form: the
    /// sort field that `word` names, or `InvalidSortField` with `input`.
    pub open spec fn parsed(word: Seq<char>, input: Seq<char>) -> Result<SortBy, TodoErrorView> {
        match SortBy::named(word) {
            Some(field) => Ok(field),
            None => Err(TodoErrorView::InvalidSortField { field: input }),
        }
    }

    /// Reads a sort field from `input`, given `word`, the lower-case form of
    /// `input`: "due", "priority" or "due+priority". Anything else is refused
    /// with `InvalidSortField`, which holds `input` as it was written.
    pub fn from_lowercase(word: &str, input: &str) -> (r: Result<SortBy, TodoError>)
        ensures
            result_view(r) == SortBy::parsed(word@, input@),
    {
        if str_eq(word, "due") {
            Ok(SortBy::Due)
        } else if str_eq(word, "priority") {
            Ok(SortBy::Priority)
        } else if str_eq(word, "due+priority") {
            Ok(SortBy::DueThenPriority)
        } else {
            Err(TodoError::InvalidSortField { field: String::from_str(input) })
        }
    }

    /// Reads a sort field, whatever the case of its letters: "due",
    /// "priority" or "due+priority". Anything else is refused with
    /// `InvalidSortField`, which holds the text as it was written.
    pub fn from_str(s: &str) -> (r: Result<SortBy, TodoError>)
        ensures
            result_view(r) == SortBy::parsed(lowercased(s@), s@),
    {
        let word = to_lowercase(s);
        SortBy::from_lowercase(word.as_str(), s)
    }
}

impl std::str::FromStr for SortBy {
    type Err = TodoError;

    /// Reads a sort field as the function of the same name on the type
    /// does: the sort field that the lower-case form of the text names, or
    /// `InvalidSortField` with the text as it was written.
    fn from_str(s: &str) -> (r: Result<SortBy, TodoError>)
        ensures
            result_view(r) == SortBy::parsed(lowercased(s@), s@),
    {
        SortBy::from_str(s)
    }
}

} // verus!

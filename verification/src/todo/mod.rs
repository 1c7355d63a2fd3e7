pub mod error;
pub mod filters;
pub mod item;
pub mod manager;
pub mod ordering;
pub mod priority;
pub mod rank;
pub mod sorting;
pub mod time;

pub use error::{TodoError, TodoErrorView, TodoResult};
pub use filters::ListQuery;
pub use item::{TodoItem, TodoItemView};
pub use manager::TodoManager;
pub use priority::{Priority, SortBy};
pub use rank::Ranked;
pub use time::Timestamp;

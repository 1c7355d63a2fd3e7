pub mod args;
pub mod commands;
pub mod handlers;

pub use args::CliError;
pub use commands::{Cli, Commands};
pub use handlers::{handle_commands, handle_list_command, resolve_ascending, Outcome};

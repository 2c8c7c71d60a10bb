//! A table-driven command-line dispatcher: an ordered list of commands, each
//! reached by a short flag or a long flag, an optional default action, and a
//! help listing rendered from the same table.

pub mod command;
pub mod entry;
pub mod help;
pub mod runtime;
pub mod select;
pub mod syntax;

pub use command::{Command, CommandSpec};
pub use entry::Step;
pub use runtime::{Runtime, RuntimeSpec};

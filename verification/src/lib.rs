//! Decision logic of a command-line installer for developer tools on Linux.

mod text;
pub mod cli;
pub mod commands;
pub mod laws;
pub mod machine;
pub mod order_laws;
pub mod program;
pub mod routine_laws;
pub mod termination;
pub mod tools;

pub use text::str_eq;
pub use tools::{is_tool_supported, SUPPORTED_TOOLS};

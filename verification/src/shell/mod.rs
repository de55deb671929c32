//! The interactive shell: line editing, command parsing and the rules for
//! running a program from disk.
pub mod command;
pub mod line;
pub mod program;

//! Single-core user tasks: the ready ring and the task table.
pub mod queue;
pub mod abi;
pub mod laws;
pub mod bootinfo;
pub mod root;
pub mod scheduler;
pub mod tick;
pub mod user;

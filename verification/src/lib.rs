//! Verified core logic of a small AArch64 microkernel and its user services:
//! the scheduler's ready ring and task table, the service manager's restart
//! policy, wire-format packing and the desktop client's input handling.
use vstd::prelude::*;

pub mod apps;
pub mod block;
pub mod boot;
pub mod console;
pub mod fs;
pub mod gpu;
pub mod gui;
pub mod init;
pub mod logging;
pub mod num;
pub mod shell;
pub mod spawn_info;
pub mod sync;
pub mod task;
pub mod text;
pub mod wire;

verus! {

} // verus!

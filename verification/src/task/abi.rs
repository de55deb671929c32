//! Task states, status codes and syscall numbers of the kernel interface.
use vstd::prelude::*;

verus! {

pub const TASK_CREATED: u64 = 0;
pub const TASK_READY: u64 = 1;
pub const TASK_RUNNING: u64 = 2;
pub const TASK_SUSPENDED: u64 = 3;
pub const TASK_SLEEPING: u64 = 4;
pub const TASK_WAITING: u64 = 5;
pub const TASK_EXITED: u64 = 6;
pub const TASK_FAULTED: u64 = 7;
pub const TASK_BLOCKED_SEND: u64 = 8;
pub const TASK_BLOCKED_RECV: u64 = 9;
pub const TASK_BLOCKED_REPLY: u64 = 10;
pub const TASK_BLOCKED_FAULT: u64 = 11;

pub const OK: u64 = 0;
pub const INVALID_ARGUMENT: u64 = 1;
pub const INVALID_STATE: u64 = 2;
pub const NOT_FOUND: u64 = 3;
pub const NO_MEMORY: u64 = 4;
pub const BUSY: u64 = 5;
pub const UNSUPPORTED: u64 = 6;

pub const SYS_YIELD: u64 = 0;
pub const SYS_DEBUG_PUTCHAR: u64 = 1;
pub const SYS_TASK_ID: u64 = 2;
pub const SYS_TASK_CREATE: u64 = 3;
pub const SYS_SUSPEND_SELF: u64 = 4;
pub const SYS_EXIT: u64 = 5;
pub const SYS_SLEEP: u64 = 6;
pub const SYS_CLOCK: u64 = 7;
pub const SYS_MEMORY_AVAILABLE: u64 = 8;
pub const SYS_TASK_START: u64 = 9;
pub const SYS_TASK_STATUS: u64 = 10;
pub const SYS_TASK_SUSPEND: u64 = 11;
pub const SYS_TASK_RESUME: u64 = 12;
pub const SYS_TASK_DESTROY: u64 = 13;
pub const SYS_WAIT: u64 = 14;
pub const SYS_MAP: u64 = 15;
pub const SYS_UNMAP: u64 = 16;
pub const SYS_PROTECT: u64 = 17;
pub const SYS_WRITE_MEMORY: u64 = 18;
pub const SYS_READ_MEMORY: u64 = 19;

} // verus!

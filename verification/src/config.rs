//! Compile-time bounds and system call numbers shared by the whole crate.

use vstd::prelude::*;

verus! {

/// Number of slots in a task's table of system call counters. A system call
/// number at or above this bound is never counted.
pub const MAX_SYSCALL_NUM: usize = 500;

/// System call number of `exit`.
pub const SYSCALL_EXIT: usize = 93;

/// System call number of `yield`.
pub const SYSCALL_YIELD: usize = 124;

/// System call number of `get_time`.
pub const SYSCALL_GET_TIME: usize = 169;

/// System call number of `task_info`.
pub const SYSCALL_TASK_INFO: usize = 410;

/// Microseconds in one second.
pub const MICRO_PER_SEC: usize = 1_000_000;

/// Microseconds in one millisecond.
pub const MICRO_PER_MSEC: usize = 1_000;

/// Status code of a system call that succeeded.
pub const SUCCESS: isize = 0;

/// Status code of `task_info` when no task is running.
pub const NO_CURRENT_TASK: isize = -1;

/// Status code of a system call whose number the dispatcher does not know.
pub const UNKNOWN_SYSCALL: isize = -2;

} // verus!

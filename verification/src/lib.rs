//! Task lifecycle and accounting for a small cooperative, single-core kernel.
//!
//! The crate tracks every task through its scheduling states, accounts the
//! time it spends running, counts the system calls it makes, and answers the
//! four system calls through which user code sees that bookkeeping.

pub mod config;
pub mod timer;
pub mod task;
pub mod scheduler;
pub mod syscall;
pub mod history;

//! Cooperative task-management core of a small teaching kernel.
//!
//! The crate models the process-control-block lifecycle (creation,
//! ready/running/zombie transitions, parent/child reparenting), a FIFO ready
//! queue, the single-processor dispatch slot, and the process-control and
//! address-space system calls (exit, yield, timing, task introspection,
//! mmap/munmap, heap-break adjustment) that operate on that state.
//!
//! The kernel state lives in an explicit [`kernel::Kernel`] value that every
//! operation takes as a parameter; there are no global singletons.  Context
//! transfer is modelled as a scheduler decision: dispatching returns the
//! selected process id instead of swapping register contexts.

use vstd::prelude::*;

pub mod kernel;
pub mod manager;
pub mod marshal;
pub mod mm;
pub mod processor;
pub mod syscall;
pub mod task;

verus! {

/// Bytes per virtual page.
pub const PAGE_SIZE: usize = 4096;

/// Number of distinct syscall ids whose invocation counts each task records
/// (largest syscall id plus one).
pub const MAX_SYSCALL_NUM: usize = 500;

/// Process id of the permanently-alive root (idle/init) task.  The root task
/// exiting is a fatal, whole-system halt.
pub const IDLE_PID: usize = 0;

/// Syscall id of `exit`.
pub const SYSCALL_EXIT: usize = 93;

/// Syscall id of `yield`.
pub const SYSCALL_YIELD: usize = 124;

/// Syscall id of `get_time`.
pub const SYSCALL_GET_TIME: usize = 169;

/// Syscall id of `sbrk`.
pub const SYSCALL_SBRK: usize = 214;

/// Syscall id of `munmap`.
pub const SYSCALL_MUNMAP: usize = 215;

/// Syscall id of `mmap`.
pub const SYSCALL_MMAP: usize = 222;

/// Syscall id of `task_info`.
pub const SYSCALL_TASK_INFO: usize = 410;

} // verus!

//! The task control block: the kernel's per-process record.

use vstd::prelude::*;

use crate::mm::MemorySet;
use crate::MAX_SYSCALL_NUM;

verus! {

/// Scheduling state of a task.  A task is `Ready` before its first and after
/// every dispatch, `Running` while it owns the processor, and `Zombie` after
/// exit until external reaping collects it.
#[derive(Clone, Copy, PartialEq, Eq, Structural, Debug)]
pub enum TaskStatus {
    /// Runnable, waiting in the ready queue.
    Ready,
    /// Currently owning the processor.
    Running,
    /// Terminated; exit code retained pending external collection.
    Zombie,
}

/// One task's control block.  Tasks live in the kernel's central task table,
/// which is keyed by process id; parent and child links are process ids into
/// that table, never owning references, so no reference cycle can arise.
pub struct TaskControlBlock {
    /// Process id; equals the task's index in the kernel task table and is
    /// stable for the task's lifetime.
    pub pid: usize,
    /// Scheduling state.
    pub task_status: TaskStatus,
    /// The task's address space.
    pub memory_set: MemorySet,
    /// Process id of the parent task, if any.
    pub parent: Option<usize>,
    /// Process ids of the task's children.
    pub children: Vec<usize>,
    /// Exit code, set once at exit.
    pub exit_code: i32,
    /// Invocation count of each syscall id, indexed by syscall id.
    pub task_sys_calls: Vec<u32>,
    /// Millisecond timestamp of the task's first dispatch.
    pub task_start: usize,
    /// Whether the task has ever been dispatched (`task_start` is only
    /// meaningful once this is set).
    pub task_begin: bool,
}

impl TaskControlBlock {
    /// Well-formedness of one block within a task table of `n` entries:
    /// the syscall-count table has its fixed size, the address space is
    /// well formed, the parent has a smaller pid, and the children have
    /// larger, pairwise-distinct pids.  Pid order makes the parent/child
    /// graph acyclic.
    pub open spec fn wf(&self, n: int) -> bool {
        &&& self.task_sys_calls@.len() == MAX_SYSCALL_NUM
        &&& self.memory_set.wf()
        &&& match self.parent {
            Some(p) => (p as int) < self.pid as int,
            None => true,
        }
        &&& forall|k: int|
            0 <= k < self.children@.len() ==> ((self.pid as int) < (
            #[trigger] self.children@[k]) as int && ((self.children@[k]) as int) < n)
        &&& forall|k1: int, k2: int|
            0 <= k1 < k2 < self.children@.len() ==> self.children@[k1] != self.children@[k2]
    }

    /// A freshly created block: ready, never dispatched, no children, an
    /// empty address space, and every syscall count zero.
    pub fn new(pid: usize, parent: Option<usize>) -> (t: TaskControlBlock)
        ensures
            t.pid == pid,
            t.task_status == TaskStatus::Ready,
            t.memory_set.pages() == Map::<usize, crate::mm::PageTableEntry>::empty(),
            t.memory_set.spec_heap_bottom() == 0,
            t.memory_set.spec_brk() == 0,
            t.parent == parent,
            t.children@.len() == 0,
            t.exit_code == 0,
            t.task_sys_calls@.len() == MAX_SYSCALL_NUM,
            forall|i: int| 0 <= i < MAX_SYSCALL_NUM ==> t.task_sys_calls@[i] == 0,
            t.task_start == 0,
            !t.task_begin,
    {
        TaskControlBlock {
            pid,
            task_status: TaskStatus::Ready,
            memory_set: MemorySet::new(0, 0),
            parent,
            children: Vec::new(),
            exit_code: 0,
            task_sys_calls: vec![0u32; MAX_SYSCALL_NUM],
            task_start: 0,
            task_begin: false,
        }
    }
}

} // verus!

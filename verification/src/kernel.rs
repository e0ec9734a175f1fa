//! The kernel's task-management state and its lifecycle operations.
//!
//! All shared state — the central task table, the ready queue, the processor
//! slot and the monotonic clock — lives in one explicit [`Kernel`] value that
//! each operation takes as a parameter.  The task table is keyed by process
//! id: a task's pid equals its index, so pids are unique by construction and
//! stable for the task's lifetime.  Tasks are never removed from the table;
//! a zombie stays in it until external reaping, which is out of scope.
//!
//! Context transfer is modelled as a scheduler decision: `run_tasks` selects
//! and dispatches the next ready task and returns its pid; yielding and
//! exiting hand the processor back by clearing the current slot.

use vstd::prelude::*;

use crate::manager::TaskManager;
use crate::mm::{mapped_region, range_unmapped, unmap_progress, vpn_ceil, vpn_floor};
use crate::mm::{first_invalid, PageTableEntry};
use crate::processor::Processor;
use crate::task::{TaskControlBlock, TaskStatus};
use crate::{IDLE_PID, MAX_SYSCALL_NUM};

verus! {

/// The whole task-management state of the machine.
pub struct Kernel {
    /// Central task table; a task's process id equals its index.
    pub tasks: Vec<TaskControlBlock>,
    /// FIFO ready queue of process ids.
    pub manager: TaskManager,
    /// The single "currently executing" slot.
    pub processor: Processor,
    /// Monotonic clock, in microseconds; it only ever advances.
    pub clock_us: usize,
}

impl Kernel {
    /// The millisecond reading of the monotonic clock.
    pub open spec fn spec_clock_ms(&self) -> int {
        self.clock_us as int / 1000
    }

    /// Per-task part of the kernel invariant: the task sits at the index
    /// equal to its pid, is internally well formed, its first-dispatch stamp
    /// never lies in the future, and a running task has been dispatched and
    /// is exactly the one in the processor slot.
    pub open spec fn task_ok(&self, i: int) -> bool {
        let t = self.tasks@[i];
        &&& t.pid == i
        &&& t.wf(self.tasks@.len() as int)
        &&& (t.task_begin ==> t.task_start <= self.spec_clock_ms())
        &&& (t.task_status == TaskStatus::Running ==> t.task_begin
            && self.processor.spec_current() == Some(t.pid))
    }

    /// Parent/child links agree: whoever a task lists as a child points back
    /// at that task as its parent.
    pub open spec fn links_ok(&self) -> bool {
        forall|i: int, k: int|
            0 <= i < self.tasks@.len() && 0 <= k < self.tasks@[i].children@.len()
                ==> self.tasks@[(#[trigger] self.tasks@[i].children@[k]) as int].parent == Some(
                i as usize,
            )
    }

    /// The ready queue holds pairwise-distinct pids of existing `Ready`
    /// tasks.
    pub open spec fn queue_ok(&self) -> bool {
        &&& forall|j: int|
            0 <= j < self.manager@.len() ==> ((#[trigger] self.manager@[j]) as int)
                < self.tasks@.len() && self.tasks@[self.manager@[j] as int].task_status
                == TaskStatus::Ready
        &&& forall|j1: int, j2: int|
            0 <= j1 < j2 < self.manager@.len() ==> self.manager@[j1] != self.manager@[j2]
    }

    /// The processor slot, when occupied, holds an existing `Running` task.
    pub open spec fn current_ok(&self) -> bool {
        match self.processor.spec_current() {
            Some(c) => (c as int) < self.tasks@.len() && self.tasks@[c as int].task_status
                == TaskStatus::Running,
            None => true,
        }
    }

    /// The kernel invariant.  Together with `queue_ok` and `current_ok`,
    /// `task_ok` makes a task reachable from at most one of the ready queue
    /// and the processor slot: a queued task is `Ready`, the current task is
    /// `Running`, and every `Running` task is the current one.
    pub open spec fn wf(&self) -> bool {
        &&& forall|i: int| 0 <= i < self.tasks@.len() ==> #[trigger] self.task_ok(i)
        &&& self.links_ok()
        &&& self.queue_ok()
        &&& self.current_ok()
    }

    /// An empty kernel: no tasks, nothing queued, nothing running, clock at
    /// zero.
    pub fn new() -> (k: Kernel)
        ensures
            k.wf(),
            k.tasks@.len() == 0,
            k.manager@.len() == 0,
            k.processor.spec_current() == None::<usize>,
            k.clock_us == 0,
    {
        Kernel {
            tasks: Vec::new(),
            manager: TaskManager::new(),
            processor: Processor::new(),
            clock_us: 0,
        }
    }

    /// Advances the monotonic clock.  This is the hook for the external
    /// timer collaborator; the clock never moves backwards.
    pub fn advance_time(&mut self, delta_us: usize)
        requires
            old(self).wf(),
            old(self).clock_us + delta_us <= usize::MAX,
        ensures
            final(self).wf(),
            final(self).clock_us == old(self).clock_us + delta_us,
            final(self).tasks@ == old(self).tasks@,
            final(self).manager@ == old(self).manager@,
            final(self).processor.spec_current() == old(self).processor.spec_current(),
    {
        self.clock_us = self.clock_us + delta_us;
        proof {
            assert forall|i: int| 0 <= i < self.tasks@.len() implies #[trigger] self.task_ok(
                i,
            ) by {
                assert(old(self).task_ok(i));
                vstd::arithmetic::div_mod::lemma_div_is_ordered(
                    old(self).clock_us as int,
                    self.clock_us as int,
                    1000,
                );
            }
        }
    }

    /// The microsecond reading of the monotonic clock.
    pub fn get_time_us(&self) -> (us: usize)
        ensures
            us == self.clock_us,
    {
        self.clock_us
    }

    /// The millisecond reading of the monotonic clock.
    pub fn get_time_ms(&self) -> (ms: usize)
        ensures
            ms == self.spec_clock_ms(),
    {
        self.clock_us / 1000
    }

    /// The pid of the task currently owning the processor, if any.
    pub fn current_task(&self) -> (r: Option<usize>)
        ensures
            r == self.processor.spec_current(),
    {
        self.processor.current()
    }

    /// Creates the root (init) task.  It receives pid [`IDLE_PID`], has no
    /// parent, and is admitted to the ready queue.
    pub fn add_initproc(&mut self)
        requires
            old(self).wf(),
            old(self).tasks@.len() == 0,
        ensures
            final(self).wf(),
            final(self).tasks@.len() == 1,
            final(self).tasks@[0].pid == IDLE_PID,
            final(self).tasks@[0].task_status == TaskStatus::Ready,
            final(self).tasks@[0].parent == None::<usize>,
            final(self).tasks@[0].children@.len() == 0,
            final(self).manager@ == old(self).manager@.push(IDLE_PID),
            final(self).processor.spec_current() == old(self).processor.spec_current(),
            final(self).clock_us == old(self).clock_us,
    {
        let root = TaskControlBlock::new(IDLE_PID, None);
        self.tasks.push(root);
        self.manager.add(IDLE_PID);
    }

    /// Creates a new task as a child of `parent`: it receives the next free
    /// pid, is linked into `parent`'s children list, and is admitted to the
    /// ready queue.  This is the model of the external loader handing a
    /// freshly built task to the kernel.  Returns the new pid.
    pub fn spawn_task(&mut self, parent: usize) -> (pid: usize)
        requires
            old(self).wf(),
            (parent as int) < old(self).tasks@.len(),
            old(self).tasks@.len() < usize::MAX,
        ensures
            final(self).wf(),
            pid == old(self).tasks@.len(),
            final(self).tasks@.len() == old(self).tasks@.len() + 1,
            forall|i: int|
                0 <= i < old(self).tasks@.len() && i != parent as int ==> final(self).tasks@[i]
                    == old(self).tasks@[i],
            // the parent gains exactly the new child, at the tail
            final(self).tasks@[parent as int].children@ == old(
                self,
            ).tasks@[parent as int].children@.push(pid),
            final(self).tasks@[parent as int].pid == old(self).tasks@[parent as int].pid,
            final(self).tasks@[parent as int].task_status == old(
                self,
            ).tasks@[parent as int].task_status,
            final(self).tasks@[parent as int].parent == old(self).tasks@[parent as int].parent,
            final(self).tasks@[parent as int].memory_set == old(
                self,
            ).tasks@[parent as int].memory_set,
            final(self).tasks@[parent as int].exit_code == old(
                self,
            ).tasks@[parent as int].exit_code,
            final(self).tasks@[parent as int].task_sys_calls == old(
                self,
            ).tasks@[parent as int].task_sys_calls,
            final(self).tasks@[parent as int].task_start == old(
                self,
            ).tasks@[parent as int].task_start,
            final(self).tasks@[parent as int].task_begin == old(
                self,
            ).tasks@[parent as int].task_begin,
            // the new task
            final(self).tasks@[pid as int].pid == pid,
            final(self).tasks@[pid as int].task_status == TaskStatus::Ready,
            final(self).tasks@[pid as int].parent == Some(parent),
            final(self).tasks@[pid as int].children@.len() == 0,
            final(self).tasks@[pid as int].task_sys_calls@ == Seq::<u32>::new(
                crate::MAX_SYSCALL_NUM as nat,
                |i: int| 0u32,
            ),
            !final(self).tasks@[pid as int].task_begin,
            final(self).tasks@[pid as int].memory_set.pages() == Map::<
                usize,
                crate::mm::PageTableEntry,
            >::empty(),
            final(self).manager@ == old(self).manager@.push(pid),
            final(self).processor.spec_current() == old(self).processor.spec_current(),
            final(self).clock_us == old(self).clock_us,
    {
        let pid = self.tasks.len();
        let child = TaskControlBlock::new(pid, Some(parent));
        self.tasks.push(child);
        let par = &mut self.tasks[parent];
        par.children.push(pid);
        self.manager.add(pid);
        proof {
            let n0 = old(self).tasks@.len() as int;
            assert(self.tasks@[pid as int].task_sys_calls@ =~= Seq::<u32>::new(
                crate::MAX_SYSCALL_NUM as nat,
                |i: int| 0u32,
            ));
            assert forall|i: int| 0 <= i < self.tasks@.len() implies #[trigger] self.task_ok(i) by {
                if i < n0 {
                    assert(old(self).task_ok(i));
                }
            }
            assert forall|i: int, k: int|
                0 <= i < self.tasks@.len() && 0 <= k < self.tasks@[i].children@.len() implies self
                .tasks@[(#[trigger] self.tasks@[i].children@[k]) as int].parent == Some(
                i as usize,
            ) by {
                if i < n0 {
                    if i == parent as int && k == self.tasks@[i].children@.len() - 1 {
                        assert(self.tasks@[i].children@[k] == pid);
                    } else {
                        let c = old(self).tasks@[i].children@[k];
                        assert(old(self).task_ok(i));
                        assert(old(self).tasks@[c as int].parent == Some(i as usize));
                    }
                }
            }
            assert forall|j: int| 0 <= j < self.manager@.len() implies ((#[trigger] self
                .manager@[j]) as int) < self.tasks@.len() && self.tasks@[self.manager@[j] as int]
                .task_status == TaskStatus::Ready by {
                if j < old(self).manager@.len() {
                    assert(old(self).task_ok(old(self).manager@[j] as int));
                }
            }
            assert forall|j1: int, j2: int|
                0 <= j1 < j2 < self.manager@.len() implies self.manager@[j1]
                != self.manager@[j2] by {
                if j2 == self.manager@.len() - 1 {
                    assert((old(self).manager@[j1] as int) < n0);
                }
            }
        }
        pid
    }

    /// One decision step of the dispatch loop: removes the next ready task
    /// from the head of the queue, marks it `Running`, stamps its
    /// first-dispatch time if it has never run, stores it in the processor
    /// slot, and returns its pid — the model of transferring the execution
    /// context into it.  Returns `None` when no task is ready; the caller
    /// (the platform's idle loop) should then wait for an external wake
    /// event rather than spin.
    pub fn run_tasks(&mut self) -> (r: Option<usize>)
        requires
            old(self).wf(),
            old(self).processor.spec_current() == None::<usize>,
        ensures
            final(self).wf(),
            old(self).manager@.len() == 0 ==> r == None::<usize> && *final(self) == *old(self),
            old(self).manager@.len() > 0 ==> ({
                let h = old(self).manager@[0];
                &&& r == Some(h)
                &&& final(self).manager@ == old(self).manager@.drop_first()
                &&& final(self).processor.spec_current() == Some(h)
                &&& final(self).tasks@ == old(self).tasks@.update(
                    h as int,
                    (TaskControlBlock {
                        task_status: TaskStatus::Running,
                        task_start: if old(self).tasks@[h as int].task_begin {
                            old(self).tasks@[h as int].task_start
                        } else {
                            (old(self).spec_clock_ms() as usize)
                        },
                        task_begin: true,
                        ..old(self).tasks@[h as int]
                    }),
                )
                &&& final(self).clock_us == old(self).clock_us
            }),
    {
        match self.manager.fetch() {
            None => None,
            Some(h) => {
                let now_ms = self.clock_us / 1000;
                let task = &mut self.tasks[h];
                task.task_status = TaskStatus::Running;
                if !task.task_begin {
                    task.task_start = now_ms;
                    task.task_begin = true;
                }
                self.processor.set_current(h);
                proof {
                    assert forall|i: int| 0 <= i < self.tasks@.len() implies #[trigger] self
                        .task_ok(i) by {
                        assert(old(self).task_ok(i));
                    }
                    assert forall|i: int, k: int|
                        0 <= i < self.tasks@.len() && 0 <= k
                            < self.tasks@[i].children@.len() implies self.tasks@[(#[trigger] self
                        .tasks@[i].children@[k]) as int].parent == Some(i as usize) by {
                        assert(old(self).task_ok(i));
                        let c = old(self).tasks@[i].children@[k];
                        assert(old(self).tasks@[c as int].parent == Some(i as usize));
                    }
                    assert forall|j: int| 0 <= j < self.manager@.len() implies ((#[trigger] self
                        .manager@[j]) as int) < self.tasks@.len() && self.tasks@[self
                        .manager@[j] as int].task_status == TaskStatus::Ready by {
                        assert(self.manager@[j] == old(self).manager@[j + 1]);
                        assert(old(self).task_ok(old(self).manager@[j + 1] as int));
                    }
                }
                Some(h)
            },
        }
    }

    /// Suspends the current `Running` task: marks it `Ready`, pushes it to
    /// the tail of the ready queue, and hands the processor back to the
    /// dispatch loop.
    pub fn suspend_current_and_run_next(&mut self)
        requires
            old(self).wf(),
            old(self).processor.spec_current().is_some(),
        ensures
            final(self).wf(),
            ({
                let c = old(self).processor.spec_current().unwrap();
                &&& final(self).tasks@ == old(self).tasks@.update(
                    c as int,
                    (TaskControlBlock {
                        task_status: TaskStatus::Ready,
                        ..old(self).tasks@[c as int]
                    }),
                )
                &&& final(self).manager@ == old(self).manager@.push(c)
                &&& final(self).processor.spec_current() == None::<usize>
                &&& final(self).clock_us == old(self).clock_us
            }),
    {
        let c = self.processor.take_current().unwrap();
        let task = &mut self.tasks[c];
        task.task_status = TaskStatus::Ready;
        self.manager.add(c);
        proof {
            assert forall|i: int| 0 <= i < self.tasks@.len() implies #[trigger] self.task_ok(
                i,
            ) by {
                assert(old(self).task_ok(i));
            }
            assert forall|i: int, k: int|
                0 <= i < self.tasks@.len() && 0 <= k < self.tasks@[i].children@.len() implies self
                .tasks@[(#[trigger] self.tasks@[i].children@[k]) as int].parent == Some(
                i as usize,
            ) by {
                assert(old(self).task_ok(i));
                let ch = old(self).tasks@[i].children@[k];
                assert(old(self).tasks@[ch as int].parent == Some(i as usize));
            }
            assert forall|j: int| 0 <= j < self.manager@.len() implies ((#[trigger] self
                .manager@[j]) as int) < self.tasks@.len() && self.tasks@[self.manager@[j] as int]
                .task_status == TaskStatus::Ready by {
                if j < old(self).manager@.len() {
                    assert(self.manager@[j] == old(self).manager@[j]);
                }
            }
            assert forall|j1: int, j2: int|
                0 <= j1 < j2 < self.manager@.len() implies self.manager@[j1]
                != self.manager@[j2] by {
                if j2 == self.manager@.len() - 1 {
                    assert(old(self).tasks@[old(self).manager@[j1] as int].task_status
                        == TaskStatus::Ready);
                }
            }
        }
    }

    /// Terminates the current `Running` task: its status becomes `Zombie`
    /// (terminal), the exit code is recorded, every child is re-parented to
    /// the permanently-alive root task and appended to the root's children
    /// list, the exiting task's own children list becomes empty, its address
    /// space is reclaimed, and the processor is handed back to the dispatch
    /// loop.  The zombie record itself persists until external reaping.
    ///
    /// If the exiting task is the root task, nothing is mutated and `true`
    /// is returned: that is the fatal whole-system halt, from which there is
    /// no recovery.
    pub fn exit_current_and_run_next(&mut self, exit_code: i32) -> (halted: bool)
        requires
            old(self).wf(),
            old(self).processor.spec_current().is_some(),
        ensures
            final(self).wf(),
            halted == (old(self).processor.spec_current() == Some(IDLE_PID)),
            halted ==> *final(self) == *old(self),
            !halted ==> ({
                let e = old(self).processor.spec_current().unwrap() as int;
                let kids = old(self).tasks@[e].children@;
                &&& final(self).tasks@.len() == old(self).tasks@.len()
                // tasks other than the exiting one, the root, and the moved
                // children are untouched
                &&& forall|i: int|
                    0 <= i < old(self).tasks@.len() && i != e && i != 0 && !kids.contains(i as usize)
                        ==> final(self).tasks@[i] == old(self).tasks@[i]
                // the exiting task: terminal state, children gone, pages reclaimed
                &&& final(self).tasks@[e].pid == old(self).tasks@[e].pid
                &&& final(self).tasks@[e].task_status == TaskStatus::Zombie
                &&& final(self).tasks@[e].exit_code == exit_code
                &&& final(self).tasks@[e].children@.len() == 0
                &&& final(self).tasks@[e].parent == old(self).tasks@[e].parent
                &&& final(self).tasks@[e].memory_set.pages() == Map::<
                    usize,
                    crate::mm::PageTableEntry,
                >::empty()
                &&& final(self).tasks@[e].task_sys_calls == old(self).tasks@[e].task_sys_calls
                &&& final(self).tasks@[e].task_start == old(self).tasks@[e].task_start
                &&& final(self).tasks@[e].task_begin == old(self).tasks@[e].task_begin
                // every child now points at the root task, all else unchanged
                &&& forall|k: int|
                    0 <= k < kids.len() ==> final(self).tasks@[(#[trigger] kids[k]) as int]
                        == (TaskControlBlock {
                        parent: Some(IDLE_PID),
                        ..old(self).tasks@[kids[k] as int]
                    })
                // the children are appended, in order, to the root's list
                &&& final(self).tasks@[0].children@ == old(self).tasks@[0].children@ + kids
                &&& final(self).tasks@[0].pid == old(self).tasks@[0].pid
                &&& final(self).tasks@[0].task_status == old(self).tasks@[0].task_status
                &&& final(self).tasks@[0].parent == old(self).tasks@[0].parent
                &&& final(self).tasks@[0].memory_set == old(self).tasks@[0].memory_set
                &&& final(self).tasks@[0].exit_code == old(self).tasks@[0].exit_code
                &&& final(self).tasks@[0].task_sys_calls == old(self).tasks@[0].task_sys_calls
                &&& final(self).tasks@[0].task_start == old(self).tasks@[0].task_start
                &&& final(self).tasks@[0].task_begin == old(self).tasks@[0].task_begin
                // exiting with no children leaves the root record untouched
                &&& (kids.len() == 0 ==> final(self).tasks@[0] == old(self).tasks@[0])
                &&& final(self).processor.spec_current() == None::<usize>
                &&& final(self).manager@ == old(self).manager@
                &&& final(self).clock_us == old(self).clock_us
            }),
    {
        let c = self.processor.current().unwrap();
        if c == IDLE_PID {
            return true;
        }
        let _taken = self.processor.take_current();
        proof {
            assert(old(self).task_ok(c as int));
        }
        let ghost kids0 = self.tasks@[c as int].children@;
        let num_kids = self.tasks[c].children.len();
        let mut i: usize = 0;
        while i < num_kids
            invariant
                old(self).wf(),
                old(self).processor.spec_current() == Some(c),
                0 < c < self.tasks@.len(),
                self.tasks@.len() == old(self).tasks@.len(),
                kids0 == old(self).tasks@[c as int].children@,
                num_kids == kids0.len(),
                i <= num_kids,
                self.processor.spec_current() == None::<usize>,
                self.manager@ == old(self).manager@,
                self.clock_us == old(self).clock_us,
                self.tasks@[c as int] == old(self).tasks@[c as int],
                forall|t: int|
                    0 <= t < self.tasks@.len() && t != 0 && !kids0.take(i as int).contains(
                        t as usize,
                    ) ==> self.tasks@[t] == old(self).tasks@[t],
                forall|k: int|
                    0 <= k < i ==> self.tasks@[(#[trigger] kids0[k]) as int]
                        == (TaskControlBlock {
                        parent: Some(IDLE_PID),
                        ..old(self).tasks@[kids0[k] as int]
                    }),
                self.tasks@[0].children@ == old(self).tasks@[0].children@ + kids0.take(i as int),
                self.tasks@[0].pid == old(self).tasks@[0].pid,
                self.tasks@[0].task_status == old(self).tasks@[0].task_status,
                self.tasks@[0].parent == old(self).tasks@[0].parent,
                self.tasks@[0].memory_set == old(self).tasks@[0].memory_set,
                self.tasks@[0].exit_code == old(self).tasks@[0].exit_code,
                self.tasks@[0].task_sys_calls == old(self).tasks@[0].task_sys_calls,
                self.tasks@[0].task_start == old(self).tasks@[0].task_start,
                self.tasks@[0].task_begin == old(self).tasks@[0].task_begin,
                i == 0 ==> self.tasks@[0] == old(self).tasks@[0],
            decreases num_kids - i,
        {
            proof {
                assert(old(self).task_ok(c as int));
                assert((c as int) < (kids0[i as int] as int) && (kids0[i as int] as int)
                    < self.tasks@.len());
                assert(kids0.take(i as int + 1) =~= kids0.take(i as int).push(kids0[i as int]));
                assert(!kids0.take(i as int).contains(kids0[i as int]));
            }
            let ch = self.tasks[c].children[i];
            let child = &mut self.tasks[ch];
            child.parent = Some(IDLE_PID);
            let root = &mut self.tasks[IDLE_PID];
            root.children.push(ch);
            proof {
                let ii = i as int;
                assert(kids0.take(ii + 1)[ii] == kids0[ii]);
                assert(kids0.take(ii + 1).contains(kids0[ii]));
                assert forall|t: int|
                    0 <= t < self.tasks@.len() && t != 0 && !kids0.take(ii + 1).contains(
                        t as usize,
                    ) implies self.tasks@[t] == old(self).tasks@[t] by {
                    if kids0.take(ii).contains(t as usize) {
                        let j = choose|j: int| 0 <= j < ii && kids0.take(ii)[j] == t as usize;
                        assert(kids0.take(ii + 1)[j] == t as usize);
                        assert(false);
                    }
                }
            }
            i = i + 1;
        }
        proof {
            assert(kids0.take(num_kids as int) =~= kids0);
        }
        let task = &mut self.tasks[c];
        task.task_status = TaskStatus::Zombie;
        task.exit_code = exit_code;
        task.children = Vec::new();
        task.memory_set.recycle_data_pages();
        proof {
            let n = self.tasks@.len() as int;
            let e = c as int;
            let oc = old(self).tasks@[0].children@;
            let rc = self.tasks@[0].children@;
            assert(rc == oc + kids0);
            // the per-task invariant holds again
            assert forall|i2: int| 0 <= i2 < n implies #[trigger] self.task_ok(i2) by {
                assert(old(self).task_ok(i2));
                if i2 == 0 {
                    // the root's grown children list stays in range and distinct
                    assert forall|k1: int, k2: int| 0 <= k1 < k2 < rc.len() implies rc[k1]
                        != rc[k2] by {
                        if k1 < oc.len() && k2 >= oc.len() {
                            let a = old(self).tasks@[0].children@[k1];
                            let b = old(self).tasks@[e].children@[k2 - oc.len()];
                            assert(old(self).tasks@[a as int].parent == Some(0usize));
                            assert(old(self).tasks@[b as int].parent == Some(c));
                        }
                    }
                    assert forall|k: int| 0 <= k < rc.len() implies 0 < ((#[trigger] rc[k]) as int)
                        < n by {
                        if k >= oc.len() {
                            assert(rc[k] == old(self).tasks@[e].children@[k - oc.len()]);
                        }
                    }
                } else if kids0.contains(i2 as usize) {
                    let j = choose|j: int| 0 <= j < kids0.len() && kids0[j] == i2 as usize;
                    assert(self.tasks@[(kids0[j]) as int] == (TaskControlBlock {
                        parent: Some(IDLE_PID),
                        ..old(self).tasks@[kids0[j] as int]
                    }));
                }
            }
            // parent/child links agree again
            assert forall|i2: int, k: int|
                0 <= i2 < n && 0 <= k < self.tasks@[i2].children@.len() implies self.tasks@[(
            #[trigger] self.tasks@[i2].children@[k]) as int].parent == Some(i2 as usize) by {
                assert(old(self).task_ok(i2));
                if i2 == 0 {
                    let ch = rc[k];
                    if k < oc.len() {
                        assert(ch == old(self).tasks@[0].children@[k]);
                        assert(old(self).tasks@[(old(self).tasks@[0].children@[k]) as int].parent
                            == Some(0usize));
                        if kids0.contains(ch) {
                            let j = choose|j: int| 0 <= j < kids0.len() && kids0[j] == ch;
                            assert(self.tasks@[(kids0[j]) as int] == (TaskControlBlock {
                                parent: Some(IDLE_PID),
                                ..old(self).tasks@[kids0[j] as int]
                            }));
                        }
                    } else {
                        let j = k - oc.len();
                        assert(ch == kids0[j]);
                        assert(self.tasks@[(kids0[j]) as int] == (TaskControlBlock {
                            parent: Some(IDLE_PID),
                            ..old(self).tasks@[kids0[j] as int]
                        }));
                    }
                } else if i2 != e {
                    if kids0.contains(i2 as usize) {
                        let j = choose|j: int| 0 <= j < kids0.len() && kids0[j] == i2 as usize;
                        assert(self.tasks@[(kids0[j]) as int] == (TaskControlBlock {
                            parent: Some(IDLE_PID),
                            ..old(self).tasks@[kids0[j] as int]
                        }));
                    }
                    assert(self.tasks@[i2].children@ == old(self).tasks@[i2].children@);
                    let ch = old(self).tasks@[i2].children@[k];
                    assert(old(self).tasks@[(old(self).tasks@[i2].children@[k]) as int].parent
                        == Some(i2 as usize));
                    if kids0.contains(ch) {
                        let j = choose|j: int| 0 <= j < kids0.len() && kids0[j] == ch;
                        assert(old(self).tasks@[(old(self).tasks@[e].children@[j]) as int].parent
                            == Some(c));
                        assert(false);
                    }
                }
            }
            // the ready queue is unchanged and its tasks are still ready
            assert forall|j: int| 0 <= j < self.manager@.len() implies ((#[trigger] self
                .manager@[j]) as int) < n && self.tasks@[self.manager@[j] as int].task_status
                == TaskStatus::Ready by {
                let q = old(self).manager@[j];
                assert(old(self).tasks@[q as int].task_status == TaskStatus::Ready);
                if q as int != 0 && kids0.contains(q) {
                    let j2 = choose|j2: int| 0 <= j2 < kids0.len() && kids0[j2] == q;
                    assert(self.tasks@[(kids0[j2]) as int] == (TaskControlBlock {
                        parent: Some(IDLE_PID),
                        ..old(self).tasks@[kids0[j2] as int]
                    }));
                }
            }
        }
        false
    }

    /// Restores the kernel invariant after an update that touched only the
    /// current task's address space or syscall counters.
    proof fn lemma_wf_after_current_change(pre: Kernel, post: Kernel, c: usize)
        requires
            pre.wf(),
            pre.processor.spec_current() == Some(c),
            post.tasks@.len() == pre.tasks@.len(),
            post.tasks@ == pre.tasks@.update(c as int, post.tasks@[c as int]),
            ({
                let t = post.tasks@[c as int];
                let o = pre.tasks@[c as int];
                &&& t.pid == o.pid
                &&& t.task_status == o.task_status
                &&& t.parent == o.parent
                &&& t.children == o.children
                &&& t.task_start == o.task_start
                &&& t.task_begin == o.task_begin
                &&& t.memory_set.wf()
                &&& t.task_sys_calls@.len() == MAX_SYSCALL_NUM
            }),
            post.manager@ == pre.manager@,
            post.processor.spec_current() == pre.processor.spec_current(),
            post.clock_us == pre.clock_us,
        ensures
            post.wf(),
    {
        assert forall|i: int| 0 <= i < post.tasks@.len() implies #[trigger] post.task_ok(i) by {
            assert(pre.task_ok(i));
        }
        assert forall|i: int, k: int|
            0 <= i < post.tasks@.len() && 0 <= k < post.tasks@[i].children@.len() implies post
            .tasks@[(#[trigger] post.tasks@[i].children@[k]) as int].parent == Some(
            i as usize,
        ) by {
            assert(pre.task_ok(i));
            let ch = pre.tasks@[i].children@[k];
            assert(pre.tasks@[ch as int].parent == Some(i as usize));
        }
        assert forall|j: int| 0 <= j < post.manager@.len() implies ((#[trigger] post
            .manager@[j]) as int) < post.tasks@.len() && post.tasks@[post.manager@[j] as int]
            .task_status == TaskStatus::Ready by {
            assert(pre.manager@[j] == post.manager@[j]);
        }
    }

    /// Status of the task currently owning the processor.
    pub fn get_current_task_status(&self) -> (s: TaskStatus)
        requires
            self.wf(),
            self.processor.spec_current().is_some(),
        ensures
            s == self.tasks@[self.processor.spec_current().unwrap() as int].task_status,
    {
        let c = self.processor.current().unwrap();
        self.tasks[c].task_status
    }

    /// Adds one to the current task's invocation count for `syscall_id`.
    pub fn inc_sys_call_time(&mut self, syscall_id: usize)
        requires
            old(self).wf(),
            old(self).processor.spec_current().is_some(),
            syscall_id < MAX_SYSCALL_NUM,
            ({
                let c = old(self).processor.spec_current().unwrap() as int;
                old(self).tasks@[c].task_sys_calls@[syscall_id as int] < u32::MAX
            }),
        ensures
            final(self).wf(),
            ({
                let c = old(self).processor.spec_current().unwrap() as int;
                let o = old(self).tasks@[c];
                let t = final(self).tasks@[c];
                &&& final(self).tasks@.len() == old(self).tasks@.len()
                &&& forall|i: int|
                    0 <= i < old(self).tasks@.len() && i != c ==> final(self).tasks@[i] == old(
                        self,
                    ).tasks@[i]
                &&& t.task_sys_calls@ == o.task_sys_calls@.update(
                    syscall_id as int,
                    (o.task_sys_calls@[syscall_id as int] + 1) as u32,
                )
                &&& t.pid == o.pid
                &&& t.task_status == o.task_status
                &&& t.parent == o.parent
                &&& t.children == o.children
                &&& t.exit_code == o.exit_code
                &&& t.memory_set == o.memory_set
                &&& t.task_start == o.task_start
                &&& t.task_begin == o.task_begin
                &&& final(self).manager@ == old(self).manager@
                &&& final(self).processor.spec_current() == old(self).processor.spec_current()
                &&& final(self).clock_us == old(self).clock_us
            }),
    {
        let c = self.processor.current().unwrap();
        proof {
            assert(old(self).task_ok(c as int));
        }
        let task = &mut self.tasks[c];
        let counter = &mut task.task_sys_calls[syscall_id];
        *counter = *counter + 1;
        proof {
            Self::lemma_wf_after_current_change(*old(self), *self, c);
        }
    }

    /// A copy of the current task's per-syscall invocation counts.
    pub fn get_current_task_sys_calls(&self) -> (v: Vec<u32>)
        requires
            self.wf(),
            self.processor.spec_current().is_some(),
        ensures
            v@ == self.tasks@[self.processor.spec_current().unwrap() as int].task_sys_calls@,
    {
        let c = self.processor.current().unwrap();
        let n = self.tasks[c].task_sys_calls.len();
        let mut v: Vec<u32> = Vec::new();
        let mut i: usize = 0;
        while i < n
            invariant
                (c as int) < self.tasks@.len(),
                n == self.tasks@[c as int].task_sys_calls@.len(),
                i <= n,
                v@ == self.tasks@[c as int].task_sys_calls@.take(i as int),
            decreases n - i,
        {
            let x = self.tasks[c].task_sys_calls[i];
            v.push(x);
            proof {
                assert(self.tasks@[c as int].task_sys_calls@.take(i as int + 1) =~= self
                    .tasks@[c as int].task_sys_calls@.take(i as int).push(x));
            }
            i = i + 1;
        }
        proof {
            assert(self.tasks@[c as int].task_sys_calls@.take(n as int) =~= self
                .tasks@[c as int].task_sys_calls@);
        }
        v
    }

    /// Millisecond timestamp of the current task's first dispatch.
    pub fn get_current_task_start(&self) -> (t: usize)
        requires
            self.wf(),
            self.processor.spec_current().is_some(),
        ensures
            t == self.tasks@[self.processor.spec_current().unwrap() as int].task_start,
    {
        let c = self.processor.current().unwrap();
        self.tasks[c].task_start
    }

    /// Page-table lookup in the current task's address space.
    pub fn get_page_table_entry(&self, vpn: usize) -> (r: Option<PageTableEntry>)
        requires
            self.wf(),
            self.processor.spec_current().is_some(),
        ensures
            ({
                let m = self.tasks@[self.processor.spec_current().unwrap() as int].memory_set;
                r == if m.pages().contains_key(vpn) {
                    Some(m.pages()[vpn])
                } else {
                    None::<PageTableEntry>
                }
            }),
    {
        let c = self.processor.current().unwrap();
        self.tasks[c].memory_set.translate(vpn)
    }

    /// Maps `[start_va, end_va)` in the current task's address space.  The
    /// caller guarantees that no page of the range is currently mapped.
    pub fn add_new_mem_area(&mut self, start_va: usize, end_va: usize, perm: u8)
        requires
            old(self).wf(),
            old(self).processor.spec_current().is_some(),
            start_va <= end_va,
            range_unmapped(
                old(self).tasks@[old(self).processor.spec_current().unwrap() as int]
                    .memory_set.pages(),
                vpn_floor(start_va as int),
                vpn_ceil(end_va as int),
            ),
        ensures
            final(self).wf(),
            ({
                let c = old(self).processor.spec_current().unwrap() as int;
                let o = old(self).tasks@[c];
                let t = final(self).tasks@[c];
                &&& final(self).tasks@.len() == old(self).tasks@.len()
                &&& forall|i: int|
                    0 <= i < old(self).tasks@.len() && i != c ==> final(self).tasks@[i] == old(
                        self,
                    ).tasks@[i]
                &&& mapped_region(
                    o.memory_set.pages(),
                    t.memory_set.pages(),
                    vpn_floor(start_va as int),
                    vpn_ceil(end_va as int),
                    perm,
                )
                &&& t.memory_set.spec_heap_bottom() == o.memory_set.spec_heap_bottom()
                &&& t.memory_set.spec_brk() == o.memory_set.spec_brk()
                &&& t.pid == o.pid
                &&& t.task_status == o.task_status
                &&& t.parent == o.parent
                &&& t.children == o.children
                &&& t.exit_code == o.exit_code
                &&& t.task_sys_calls == o.task_sys_calls
                &&& t.task_start == o.task_start
                &&& t.task_begin == o.task_begin
                &&& final(self).manager@ == old(self).manager@
                &&& final(self).processor.spec_current() == old(self).processor.spec_current()
                &&& final(self).clock_us == old(self).clock_us
            }),
    {
        let c = self.processor.current().unwrap();
        proof {
            assert(old(self).task_ok(c as int));
        }
        let task = &mut self.tasks[c];
        task.memory_set.insert_framed_area(start_va, end_va, perm);
        proof {
            Self::lemma_wf_after_current_change(*old(self), *self, c);
        }
    }

    /// Removes the mappings of `[start, start + len)` from the current
    /// task's address space, in ascending page order, stopping with `-1` at
    /// the first page whose entry exists but is invalid.
    pub fn unmap_mem_area(&mut self, start: usize, len: usize) -> (r: isize)
        requires
            old(self).wf(),
            old(self).processor.spec_current().is_some(),
            start + len <= usize::MAX,
        ensures
            final(self).wf(),
            ({
                let c = old(self).processor.spec_current().unwrap() as int;
                let o = old(self).tasks@[c];
                let t = final(self).tasks@[c];
                let vs = vpn_floor(start as int);
                let ve = vpn_ceil((start + len) as int);
                let fi = first_invalid(o.memory_set.pages(), vs, ve);
                &&& r == if fi == ve {
                    0isize
                } else {
                    -1isize
                }
                &&& final(self).tasks@.len() == old(self).tasks@.len()
                &&& forall|i: int|
                    0 <= i < old(self).tasks@.len() && i != c ==> final(self).tasks@[i] == old(
                        self,
                    ).tasks@[i]
                &&& unmap_progress(o.memory_set.pages(), t.memory_set.pages(), vs, fi)
                &&& t.memory_set.spec_heap_bottom() == o.memory_set.spec_heap_bottom()
                &&& t.memory_set.spec_brk() == o.memory_set.spec_brk()
                &&& t.pid == o.pid
                &&& t.task_status == o.task_status
                &&& t.parent == o.parent
                &&& t.children == o.children
                &&& t.exit_code == o.exit_code
                &&& t.task_sys_calls == o.task_sys_calls
                &&& t.task_start == o.task_start
                &&& t.task_begin == o.task_begin
                &&& final(self).manager@ == old(self).manager@
                &&& final(self).processor.spec_current() == old(self).processor.spec_current()
                &&& final(self).clock_us == old(self).clock_us
            }),
    {
        let c = self.processor.current().unwrap();
        proof {
            assert(old(self).task_ok(c as int));
        }
        let task = &mut self.tasks[c];
        let r = task.memory_set.unmap_area(start, start + len);
        proof {
            Self::lemma_wf_after_current_change(*old(self), *self, c);
        }
        r
    }

    /// Adjusts the current task's heap break by `size` bytes, returning the
    /// previous break on success and `None` when the adjustment is rejected.
    pub fn change_program_brk(&mut self, size: i32) -> (r: Option<usize>)
        requires
            old(self).wf(),
            old(self).processor.spec_current().is_some(),
        ensures
            final(self).wf(),
            ({
                let c = old(self).processor.spec_current().unwrap() as int;
                let o = old(self).tasks@[c];
                let t = final(self).tasks@[c];
                &&& final(self).tasks@.len() == old(self).tasks@.len()
                &&& forall|i: int|
                    0 <= i < old(self).tasks@.len() && i != c ==> final(self).tasks@[i] == old(
                        self,
                    ).tasks@[i]
                &&& (o.memory_set.brk_accepts(size as int) ==> r == Some(o.memory_set.spec_brk())
                    && t.memory_set.spec_brk() == o.memory_set.spec_brk() + size)
                &&& (!o.memory_set.brk_accepts(size as int) ==> r == None::<usize>
                    && t.memory_set.spec_brk() == o.memory_set.spec_brk())
                &&& t.memory_set.pages() == o.memory_set.pages()
                &&& t.memory_set.spec_heap_bottom() == o.memory_set.spec_heap_bottom()
                &&& t.pid == o.pid
                &&& t.task_status == o.task_status
                &&& t.parent == o.parent
                &&& t.children == o.children
                &&& t.exit_code == o.exit_code
                &&& t.task_sys_calls == o.task_sys_calls
                &&& t.task_start == o.task_start
                &&& t.task_begin == o.task_begin
                &&& final(self).manager@ == old(self).manager@
                &&& final(self).processor.spec_current() == old(self).processor.spec_current()
                &&& final(self).clock_us == old(self).clock_us
            }),
    {
        let c = self.processor.current().unwrap();
        proof {
            assert(old(self).task_ok(c as int));
        }
        let task = &mut self.tasks[c];
        let r = task.memory_set.change_program_brk(size);
        proof {
            Self::lemma_wf_after_current_change(*old(self), *self, c);
        }
        r
    }
}

/// Process ids are pairwise distinct: the task table is keyed by pid, so two
/// different entries always carry two different ids.
pub proof fn lemma_pids_pairwise_distinct(k: Kernel)
    requires
        k.wf(),
    ensures
        forall|i: int, j: int|
            0 <= i < j < k.tasks@.len() ==> (#[trigger] k.tasks@[i]).pid != (
            #[trigger] k.tasks@[j]).pid,
{
    assert forall|i: int, j: int|
        0 <= i < j < k.tasks@.len() implies (#[trigger] k.tasks@[i]).pid != (
    #[trigger] k.tasks@[j]).pid by {
        assert(k.task_ok(i));
        assert(k.task_ok(j));
    }
}

/// A child appears in its parent's children list exactly once: two list
/// positions holding the same child coincide.
pub proof fn lemma_child_listed_once(k: Kernel, t: int, j1: int, j2: int)
    requires
        k.wf(),
        0 <= t < k.tasks@.len(),
        0 <= j1 < k.tasks@[t].children@.len(),
        0 <= j2 < k.tasks@[t].children@.len(),
        k.tasks@[t].children@[j1] == k.tasks@[t].children@[j2],
    ensures
        j1 == j2,
{
    assert(k.task_ok(t));
}

/// A task is listed as a child by at most one parent: its parent link points
/// back at whoever lists it, so two listing tasks coincide.
pub proof fn lemma_child_single_parent(k: Kernel, t1: int, t2: int, j1: int, j2: int)
    requires
        k.wf(),
        0 <= t1 < k.tasks@.len(),
        0 <= t2 < k.tasks@.len(),
        0 <= j1 < k.tasks@[t1].children@.len(),
        0 <= j2 < k.tasks@[t2].children@.len(),
        k.tasks@[t1].children@[j1] == k.tasks@[t2].children@[j2],
    ensures
        t1 == t2,
{
    assert(k.task_ok(t1));
    assert(k.task_ok(t2));
    assert(k.tasks@[(k.tasks@[t1].children@[j1]) as int].parent == Some(t1 as usize));
    assert(k.tasks@[(k.tasks@[t2].children@[j2]) as int].parent == Some(t2 as usize));
}

} // verus!

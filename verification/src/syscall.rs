//! Process-control and address-space system calls.
//!
//! Every call returns a signed word: `0` (or, for `sbrk`, the previous break
//! address) on success, `-1` on failure; there are no distinguishable error
//! codes beyond that.  Each call operates on the task that currently owns the
//! processor of the [`Kernel`] value passed in.

use vstd::prelude::*;

use crate::kernel::Kernel;
use crate::mm::{
    first_invalid, mapped_region, range_unmapped, unmap_progress, vpn_ceil, vpn_floor,
    PageTableEntry,
};
use crate::task::{TaskControlBlock, TaskStatus};
use crate::{IDLE_PID, PAGE_SIZE};

verus! {

/// A point in time as the `get_time` syscall reports it.
#[derive(Clone, Copy, PartialEq, Eq, Structural, Debug)]
pub struct TimeVal {
    /// Whole seconds.
    pub sec: usize,
    /// Microseconds within the current second.
    pub usec: usize,
}

/// What the `task_info` syscall reports about the current task.
pub struct TaskInfo {
    /// Task status in its life cycle.
    pub status: TaskStatus,
    /// Invocation count of each syscall id, indexed by syscall id.
    pub syscall_times: Vec<u32>,
    /// Milliseconds elapsed since the task's first dispatch.
    pub time: usize,
}

/// The page-table permission bits that an mmap `port` request translates to:
/// the three permission bits shifted up one place, plus the user-accessible
/// bit.
pub open spec fn mmap_perm(port: int) -> u8 {
    (port * 2 + 16) as u8
}

/// Whether an mmap request is accepted: `start` page-aligned, at least one
/// permission bit and no bit outside read/write/execute, and no page of the
/// requested range already mapped.
pub open spec fn mmap_accepts(
    m0: Map<usize, PageTableEntry>,
    start: int,
    len: int,
    port: int,
) -> bool {
    &&& start % (PAGE_SIZE as int) == 0
    &&& 0 < port <= 7
    &&& range_unmapped(m0, vpn_floor(start), vpn_ceil(start + len))
}

/// Current task exits with `exit_code` and never runs again: it becomes a
/// `Zombie`, its children are re-parented to the root task, its pages are
/// reclaimed, and the processor is handed back to the dispatch loop.  If the
/// exiting task is the root task the whole system halts: `true` is returned
/// and nothing is mutated.  (The original never returns to the caller; here
/// the halt condition is the return value.)
pub fn sys_exit(kernel: &mut Kernel, exit_code: i32) -> (halted: bool)
    requires
        old(kernel).wf(),
        old(kernel).processor.spec_current().is_some(),
    ensures
        final(kernel).wf(),
        halted == (old(kernel).processor.spec_current() == Some(IDLE_PID)),
        halted ==> *final(kernel) == *old(kernel),
        !halted ==> ({
            let e = old(kernel).processor.spec_current().unwrap() as int;
            let kids = old(kernel).tasks@[e].children@;
            &&& final(kernel).tasks@.len() == old(kernel).tasks@.len()
            &&& final(kernel).tasks@[e].task_status == TaskStatus::Zombie
            &&& final(kernel).tasks@[e].exit_code == exit_code
            &&& final(kernel).tasks@[e].children@.len() == 0
            &&& final(kernel).tasks@[e].memory_set.pages() == Map::<
                usize,
                PageTableEntry,
            >::empty()
            &&& forall|k: int|
                0 <= k < kids.len() ==> final(kernel).tasks@[(#[trigger] kids[k]) as int].parent
                    == Some(IDLE_PID)
            &&& final(kernel).tasks@[0].children@ == old(kernel).tasks@[0].children@ + kids
            &&& (kids.len() == 0 ==> final(kernel).tasks@[0] == old(kernel).tasks@[0])
            &&& final(kernel).processor.spec_current() == None::<usize>
            &&& final(kernel).manager@ == old(kernel).manager@
            &&& final(kernel).clock_us == old(kernel).clock_us
        }),
{
    kernel.exit_current_and_run_next(exit_code)
}

/// Current task gives up the processor for other tasks: it is marked
/// `Ready`, re-admitted at the tail of the ready queue, and control is
/// handed back to the dispatch loop.
pub fn sys_yield(kernel: &mut Kernel) -> (r: isize)
    requires
        old(kernel).wf(),
        old(kernel).processor.spec_current().is_some(),
    ensures
        final(kernel).wf(),
        r == 0,
        ({
            let c = old(kernel).processor.spec_current().unwrap();
            &&& final(kernel).tasks@ == old(kernel).tasks@.update(
                c as int,
                (TaskControlBlock {
                    task_status: TaskStatus::Ready,
                    ..old(kernel).tasks@[c as int]
                }),
            )
            &&& final(kernel).manager@ == old(kernel).manager@.push(c)
            &&& final(kernel).processor.spec_current() == None::<usize>
            &&& final(kernel).clock_us == old(kernel).clock_us
        }),
{
    kernel.suspend_current_and_run_next();
    0
}

/// Reads the monotonic microsecond clock, splits it into whole seconds and
/// the microseconds within the second, and writes the pair into the caller's
/// time record.  The zone argument is unused.
pub fn sys_get_time(kernel: &Kernel, ts: &mut TimeVal, _tz: usize) -> (r: isize)
    ensures
        r == 0,
        final(ts).sec == kernel.clock_us / 1_000_000,
        final(ts).usec == kernel.clock_us % 1_000_000,
        final(ts).usec < 1_000_000,
        final(ts).sec * 1_000_000 + final(ts).usec == kernel.clock_us,
{
    let us = kernel.get_time_us();
    ts.sec = us / 1_000_000;
    ts.usec = us % 1_000_000;
    proof {
        vstd::arithmetic::div_mod::lemma_fundamental_div_mod(us as int, 1_000_000);
    }
    0
}

/// Fills the caller's task-info record with the current task's status, its
/// per-syscall invocation counts, and the milliseconds elapsed since its
/// first dispatch.
pub fn sys_task_info(kernel: &Kernel, ti: &mut TaskInfo) -> (r: isize)
    requires
        kernel.wf(),
        kernel.processor.spec_current().is_some(),
    ensures
        r == 0,
        ({
            let c = kernel.processor.spec_current().unwrap() as int;
            &&& final(ti).status == kernel.tasks@[c].task_status
            &&& final(ti).syscall_times@ == kernel.tasks@[c].task_sys_calls@
            &&& final(ti).time == kernel.spec_clock_ms() - kernel.tasks@[c].task_start
        }),
{
    proof {
        let c = kernel.processor.spec_current().unwrap() as int;
        assert(kernel.task_ok(c));
    }
    let status = kernel.get_current_task_status();
    let times = kernel.get_current_task_sys_calls();
    let start = kernel.get_current_task_start();
    let now = kernel.get_time_ms();
    ti.status = status;
    ti.syscall_times = times;
    ti.time = now - start;
    0
}

/// Maps `[start, start + len)` in the current task's address space with the
/// permissions encoded in `port` (bit 0 read, bit 1 write, bit 2 execute)
/// plus the implicit user-accessible bit.  Fails with `-1`, mutating
/// nothing, when `start` is not page-aligned, when `port` has no permission
/// bit or a bit outside the three, or when any page of the range is already
/// mapped; returns `0` after mapping the whole range otherwise.
pub fn sys_mmap(kernel: &mut Kernel, start: usize, len: usize, port: usize) -> (r: isize)
    requires
        old(kernel).wf(),
        old(kernel).processor.spec_current().is_some(),
        start + len <= usize::MAX,
    ensures
        final(kernel).wf(),
        ({
            let c = old(kernel).processor.spec_current().unwrap() as int;
            let o = old(kernel).tasks@[c];
            let t = final(kernel).tasks@[c];
            let ok = mmap_accepts(o.memory_set.pages(), start as int, len as int, port as int);
            &&& r == if ok {
                0isize
            } else {
                -1isize
            }
            &&& (!ok ==> *final(kernel) == *old(kernel))
            &&& (ok ==> {
                &&& final(kernel).tasks@.len() == old(kernel).tasks@.len()
                &&& forall|i: int|
                    0 <= i < old(kernel).tasks@.len() && i != c ==> final(kernel).tasks@[i] == old(
                        kernel,
                    ).tasks@[i]
                &&& mapped_region(
                    o.memory_set.pages(),
                    t.memory_set.pages(),
                    vpn_floor(start as int),
                    vpn_ceil((start + len) as int),
                    mmap_perm(port as int),
                )
                &&& t.memory_set.spec_brk() == o.memory_set.spec_brk()
                &&& t.memory_set.spec_heap_bottom() == o.memory_set.spec_heap_bottom()
                &&& t.pid == o.pid
                &&& t.task_status == o.task_status
                &&& t.children == o.children
                &&& t.parent == o.parent
                &&& t.exit_code == o.exit_code
                &&& t.task_sys_calls == o.task_sys_calls
                &&& t.task_start == o.task_start
                &&& t.task_begin == o.task_begin
                &&& final(kernel).manager@ == old(kernel).manager@
                &&& final(kernel).processor.spec_current() == old(kernel).processor.spec_current()
                &&& final(kernel).clock_us == old(kernel).clock_us
            })
        }),
{
    if start % PAGE_SIZE != 0 || port == 0 || port > 7 {
        return -1;
    }
    let c = kernel.current_task().unwrap();
    let ghost m0 = kernel.tasks@[c as int].memory_set.pages();
    proof {
        vstd::arithmetic::div_mod::lemma_div_is_ordered(
            (start + len) as int,
            usize::MAX as int,
            PAGE_SIZE as int,
        );
    }
    let end = start + len;
    let vs = start / PAGE_SIZE;
    let ve = if end % PAGE_SIZE != 0 {
        end / PAGE_SIZE + 1
    } else {
        end / PAGE_SIZE
    };
    let mut v = vs;
    while v < ve
        invariant
            *kernel == *old(kernel),
            kernel.wf(),
            kernel.processor.spec_current() == Some(c),
            (c as int) < kernel.tasks@.len(),
            m0 == kernel.tasks@[c as int].memory_set.pages(),
            end == start + len,
            vs == vpn_floor(start as int),
            ve as int == vpn_ceil(end as int),
            vs <= v <= ve,
            forall|u: usize| vs <= u < v ==> !((#[trigger] m0.contains_key(u)) && m0[u].valid),
        decreases ve - v,
    {
        match kernel.get_page_table_entry(v) {
            Some(pte) => {
                if pte.is_valid() {
                    proof {
                        assert(m0.contains_key(v) && m0[v].valid);
                        assert(!range_unmapped(m0, vs as int, ve as int));
                    }
                    return -1;
                }
            },
            None => {},
        }
        v = v + 1;
    }
    proof {
        crate::mm::lemma_range_unmapped(m0, vs as int, ve as int);
    }
    let perm = (port * 2 + 16) as u8;
    kernel.add_new_mem_area(start, end, perm);
    0
}

/// Removes the mappings of `[start, start + len)` from the current task's
/// address space.  Fails with `-1`, mutating nothing, when `start` is not
/// page-aligned; otherwise scans the range in ascending page order, skipping
/// pages with no entry, clearing mapped pages, and stopping at once with
/// `-1` at the first page whose entry exists but is invalid (the pages
/// before it stay cleared).  Returns `0` when the whole range was processed.
pub fn sys_munmap(kernel: &mut Kernel, start: usize, len: usize) -> (r: isize)
    requires
        old(kernel).wf(),
        old(kernel).processor.spec_current().is_some(),
        start + len <= usize::MAX,
    ensures
        final(kernel).wf(),
        start % PAGE_SIZE != 0 ==> r == -1 && *final(kernel) == *old(kernel),
        start % PAGE_SIZE == 0 ==> ({
            let c = old(kernel).processor.spec_current().unwrap() as int;
            let o = old(kernel).tasks@[c];
            let t = final(kernel).tasks@[c];
            let vs = vpn_floor(start as int);
            let ve = vpn_ceil((start + len) as int);
            let fi = first_invalid(o.memory_set.pages(), vs, ve);
            &&& r == if fi == ve {
                0isize
            } else {
                -1isize
            }
            &&& final(kernel).tasks@.len() == old(kernel).tasks@.len()
            &&& forall|i: int|
                0 <= i < old(kernel).tasks@.len() && i != c ==> final(kernel).tasks@[i] == old(
                    kernel,
                ).tasks@[i]
            &&& unmap_progress(o.memory_set.pages(), t.memory_set.pages(), vs, fi)
            &&& t.memory_set.spec_brk() == o.memory_set.spec_brk()
            &&& t.memory_set.spec_heap_bottom() == o.memory_set.spec_heap_bottom()
            &&& t.pid == o.pid
            &&& t.task_status == o.task_status
            &&& t.children == o.children
            &&& t.parent == o.parent
            &&& t.exit_code == o.exit_code
            &&& t.task_sys_calls == o.task_sys_calls
            &&& t.task_start == o.task_start
            &&& t.task_begin == o.task_begin
            &&& final(kernel).manager@ == old(kernel).manager@
            &&& final(kernel).processor.spec_current() == old(kernel).processor.spec_current()
            &&& final(kernel).clock_us == old(kernel).clock_us
        }),
{
    if start % PAGE_SIZE != 0 {
        return -1;
    }
    kernel.unmap_mem_area(start, len)
}

/// Adjusts the current task's heap break by `size` bytes.  Returns the
/// previous break address on success and `-1` when the adjustment is
/// rejected (it would fall below the heap bottom or overflow the word the
/// break is reported in).
pub fn sys_sbrk(kernel: &mut Kernel, size: i32) -> (r: isize)
    requires
        old(kernel).wf(),
        old(kernel).processor.spec_current().is_some(),
    ensures
        final(kernel).wf(),
        ({
            let c = old(kernel).processor.spec_current().unwrap() as int;
            let o = old(kernel).tasks@[c];
            let t = final(kernel).tasks@[c];
            &&& final(kernel).tasks@.len() == old(kernel).tasks@.len()
            &&& forall|i: int|
                0 <= i < old(kernel).tasks@.len() && i != c ==> final(kernel).tasks@[i] == old(
                    kernel,
                ).tasks@[i]
            &&& (o.memory_set.brk_accepts(size as int) ==> {
                &&& r == o.memory_set.spec_brk() as isize
                &&& r >= 0
                &&& t.memory_set.spec_brk() == o.memory_set.spec_brk() + size
            })
            &&& (!o.memory_set.brk_accepts(size as int) ==> r == -1 && t.memory_set.spec_brk()
                == o.memory_set.spec_brk())
            &&& t.memory_set.pages() == o.memory_set.pages()
            &&& t.memory_set.spec_heap_bottom() == o.memory_set.spec_heap_bottom()
            &&& t.pid == o.pid
            &&& t.task_status == o.task_status
            &&& t.children == o.children
            &&& t.parent == o.parent
            &&& t.exit_code == o.exit_code
            &&& t.task_sys_calls == o.task_sys_calls
            &&& t.task_start == o.task_start
            &&& t.task_begin == o.task_begin
            &&& final(kernel).manager@ == old(kernel).manager@
            &&& final(kernel).processor.spec_current() == old(kernel).processor.spec_current()
            &&& final(kernel).clock_us == old(kernel).clock_us
        }),
{
    proof {
        let c = old(kernel).processor.spec_current().unwrap() as int;
        assert(old(kernel).task_ok(c));
    }
    match kernel.change_program_brk(size) {
        Some(old_brk) => old_brk as isize,
        None => -1,
    }
}

/// Timing monotonicity: the clock only ever advances, and a later
/// microsecond reading never splits into a smaller (seconds, microseconds)
/// pair, so successive `get_time` calls never report a decreasing timestamp.
pub proof fn lemma_timestamp_monotonic(us1: usize, us2: usize)
    requires
        us1 <= us2,
    ensures
        us1 / 1_000_000 < us2 / 1_000_000 || (us1 / 1_000_000 == us2 / 1_000_000 && us1 % 1_000_000
            <= us2 % 1_000_000),
{
    vstd::arithmetic::div_mod::lemma_div_is_ordered(us1 as int, us2 as int, 1_000_000);
    if us1 / 1_000_000 == us2 / 1_000_000 {
        vstd::arithmetic::div_mod::lemma_fundamental_div_mod(us1 as int, 1_000_000);
        vstd::arithmetic::div_mod::lemma_fundamental_div_mod(us2 as int, 1_000_000);
    }
}

} // verus!

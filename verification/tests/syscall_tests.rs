//! The memory-mapping, timing and accounting system calls.

use task_core::kernel::Kernel;
use task_core::mm::{MAP_PERM_R, MAP_PERM_U, MAP_PERM_W};
use task_core::syscall::{
    sys_get_time, sys_mmap, sys_munmap, sys_sbrk, sys_task_info, sys_yield, TaskInfo, TimeVal,
};
use task_core::task::TaskStatus;
use task_core::{IDLE_PID, MAX_SYSCALL_NUM, PAGE_SIZE, SYSCALL_YIELD};

/// A kernel whose root task is running, ready to make syscalls.
fn running_kernel() -> Kernel {
    let mut k = Kernel::new();
    k.add_initproc();
    assert_eq!(k.run_tasks(), Some(IDLE_PID));
    k
}

#[test]
fn mmap_maps_two_pages_and_rejects_overlap() {
    let mut k = running_kernel();
    assert_eq!(sys_mmap(&mut k, 0x1000, 0x2000, 0b011), 0);
    // two pages, readable + writable + user-accessible
    let expected = MAP_PERM_R | MAP_PERM_W | MAP_PERM_U;
    for vpn in [1usize, 2] {
        let pte = k.get_page_table_entry(vpn).expect("page must be mapped");
        assert!(pte.is_valid());
        assert_eq!(pte.perm, expected);
    }
    assert!(k.get_page_table_entry(0).is_none());
    assert!(k.get_page_table_entry(3).is_none());
    // an immediate second identical call overlaps and fails
    assert_eq!(sys_mmap(&mut k, 0x1000, 0x2000, 0b011), -1);
    // a partial overlap fails too
    assert_eq!(sys_mmap(&mut k, 0x2000, 0x1000, 0b001), -1);
}

#[test]
fn mmap_rejects_bad_permissions() {
    let mut k = running_kernel();
    assert_eq!(sys_mmap(&mut k, 0x1000, 0x1000, 0), -1);
    assert_eq!(sys_mmap(&mut k, 0x1000, 0x1000, 0b1000), -1);
    // nothing was mapped by the failed calls
    assert!(k.get_page_table_entry(1).is_none());
}

#[test]
fn mmap_rejects_misaligned_start() {
    let mut k = running_kernel();
    assert_eq!(sys_mmap(&mut k, 0x1001, 0x1000, 0b001), -1);
}

#[test]
fn munmap_clears_and_repeats_fail() {
    let mut k = running_kernel();
    assert_eq!(sys_mmap(&mut k, 0x1000, 0x2000, 0b011), 0);
    assert_eq!(sys_munmap(&mut k, 0x1000, 0x2000), 0);
    // the cleared entries survive with their valid bit clear
    for vpn in [1usize, 2] {
        let pte = k.get_page_table_entry(vpn).expect("cleared entry remains");
        assert!(!pte.is_valid());
    }
    // the pinned policy: unmapping the same range again finds the cleared
    // entries and fails
    assert_eq!(sys_munmap(&mut k, 0x1000, 0x2000), -1);
    // and the range can be mapped afresh over the cleared entries
    assert_eq!(sys_mmap(&mut k, 0x1000, 0x2000, 0b001), 0);
}

#[test]
fn munmap_skips_never_mapped_pages() {
    let mut k = running_kernel();
    // no page of the range has ever had an entry: the scan is a no-op
    assert_eq!(sys_munmap(&mut k, 0x5000, 0x2000), 0);
    assert!(k.get_page_table_entry(5).is_none());
}

#[test]
fn munmap_rejects_misaligned_start() {
    let mut k = running_kernel();
    assert_eq!(sys_munmap(&mut k, 0x1001, 0x1000), -1);
}

#[test]
fn get_time_splits_microseconds() {
    let mut k = running_kernel();
    k.advance_time(3_250_000);
    let mut ts = TimeVal { sec: 0, usec: 0 };
    assert_eq!(sys_get_time(&k, &mut ts, 0), 0);
    assert_eq!(ts.sec, 3);
    assert_eq!(ts.usec, 250_000);
}

#[test]
fn get_time_never_decreases() {
    let mut k = running_kernel();
    let mut prev = TimeVal { sec: 0, usec: 0 };
    assert_eq!(sys_get_time(&k, &mut prev, 0), 0);
    for step in [0usize, 1, 999_999, 1, 0, 2_000_001] {
        k.advance_time(step);
        let mut now = TimeVal { sec: 0, usec: 0 };
        assert_eq!(sys_get_time(&k, &mut now, 0), 0);
        assert!((now.sec, now.usec) >= (prev.sec, prev.usec));
        prev = now;
    }
}

#[test]
fn task_info_reports_status_counts_and_elapsed() {
    let mut k = running_kernel();
    // the root was first dispatched at time zero; 12 ms pass
    k.advance_time(12_000);
    // the task invokes yield three times before asking for task_info
    for _ in 0..3 {
        k.inc_sys_call_time(SYSCALL_YIELD);
        assert_eq!(sys_yield(&mut k), 0);
        assert_eq!(k.run_tasks(), Some(IDLE_PID));
    }
    let mut ti = TaskInfo {
        status: TaskStatus::Ready,
        syscall_times: Vec::new(),
        time: 0,
    };
    assert_eq!(sys_task_info(&k, &mut ti), 0);
    assert_eq!(ti.status, TaskStatus::Running);
    assert_eq!(ti.syscall_times.len(), MAX_SYSCALL_NUM);
    assert_eq!(ti.syscall_times[SYSCALL_YIELD], 3);
    for (id, &count) in ti.syscall_times.iter().enumerate() {
        if id != SYSCALL_YIELD {
            assert_eq!(count, 0);
        }
    }
    assert_eq!(ti.time, 12);
}

#[test]
fn sbrk_returns_previous_break() {
    let mut k = running_kernel();
    // the root task's heap starts empty at break zero
    assert_eq!(sys_sbrk(&mut k, PAGE_SIZE as i32), 0);
    assert_eq!(
        k.tasks[IDLE_PID].memory_set.program_brk(),
        PAGE_SIZE
    );
    assert_eq!(sys_sbrk(&mut k, PAGE_SIZE as i32), PAGE_SIZE as isize);
    // shrinking below the heap bottom is rejected and changes nothing
    assert_eq!(sys_sbrk(&mut k, -3 * PAGE_SIZE as i32), -1);
    assert_eq!(
        k.tasks[IDLE_PID].memory_set.program_brk(),
        2 * PAGE_SIZE
    );
    // shrinking within the heap succeeds
    assert_eq!(sys_sbrk(&mut k, -(PAGE_SIZE as i32)), (2 * PAGE_SIZE) as isize);
    assert_eq!(k.tasks[IDLE_PID].memory_set.program_brk(), PAGE_SIZE);
}

#[test]
fn exit_reclaims_address_space() {
    let mut k = running_kernel();
    assert_eq!(sys_mmap(&mut k, 0x1000, 0x1000, 0b011), 0);
    // hand the processor around: spawn a child, let it map and exit
    k.spawn_task(IDLE_PID);
    assert_eq!(sys_yield(&mut k), 0);
    assert_eq!(k.run_tasks(), Some(1));
    assert_eq!(sys_mmap(&mut k, 0x4000, 0x1000, 0b111), 0);
    assert!(!task_core::syscall::sys_exit(&mut k, 0));
    // the zombie's pages are gone entirely, the root's are untouched
    assert!(k.tasks[1].memory_set.translate(4).is_none());
    assert_eq!(k.run_tasks(), Some(IDLE_PID));
    assert!(k.get_page_table_entry(1).is_some());
}

//! Scheduling, lifecycle and reparenting behaviour of the task core.

use task_core::kernel::Kernel;
use task_core::syscall::{sys_exit, sys_yield};
use task_core::task::TaskStatus;
use task_core::IDLE_PID;

/// A kernel with the root task and `extra` further tasks, all children of
/// the root, admitted in pid order.
fn kernel_with_tasks(extra: usize) -> Kernel {
    let mut k = Kernel::new();
    k.add_initproc();
    for _ in 0..extra {
        k.spawn_task(IDLE_PID);
    }
    k
}

#[test]
fn pids_are_pairwise_distinct() {
    let k = kernel_with_tasks(4);
    for i in 0..k.tasks.len() {
        for j in 0..k.tasks.len() {
            if i != j {
                assert_ne!(k.tasks[i].pid, k.tasks[j].pid);
            }
        }
    }
}

#[test]
fn spawned_task_links_to_parent() {
    let k = kernel_with_tasks(2);
    assert_eq!(k.tasks[1].parent, Some(IDLE_PID));
    assert_eq!(k.tasks[2].parent, Some(IDLE_PID));
    assert_eq!(k.tasks[0].children, vec![1, 2]);
    assert_eq!(k.tasks[0].parent, None);
}

#[test]
fn dispatch_order_equals_admission_order() {
    let mut k = kernel_with_tasks(2);
    // admission order: 0, 1, 2
    let mut dispatched = Vec::new();
    for _ in 0..3 {
        let pid = k.run_tasks().unwrap();
        dispatched.push(pid);
        assert_eq!(k.tasks[pid].task_status, TaskStatus::Running);
        assert_eq!(sys_yield(&mut k), 0);
        assert_eq!(k.tasks[pid].task_status, TaskStatus::Ready);
    }
    assert_eq!(dispatched, vec![0, 1, 2]);
    // each yielded once: a second full round repeats the same order
    let mut second = Vec::new();
    for _ in 0..3 {
        let pid = k.run_tasks().unwrap();
        second.push(pid);
        assert_eq!(sys_yield(&mut k), 0);
    }
    assert_eq!(second, vec![0, 1, 2]);
}

#[test]
fn empty_queue_dispatches_nothing() {
    let mut k = Kernel::new();
    assert_eq!(k.run_tasks(), None);
}

#[test]
fn exit_reparents_children_to_root() {
    let mut k = kernel_with_tasks(1);
    // tasks 2 and 3 are children of task 1
    k.spawn_task(1);
    k.spawn_task(1);
    assert_eq!(k.tasks[1].children, vec![2, 3]);
    // dispatch root, let it yield, then dispatch task 1 and let it exit
    assert_eq!(k.run_tasks(), Some(0));
    assert_eq!(sys_yield(&mut k), 0);
    assert_eq!(k.run_tasks(), Some(1));
    let halted = sys_exit(&mut k, 7);
    assert!(!halted);
    assert_eq!(k.tasks[1].task_status, TaskStatus::Zombie);
    assert_eq!(k.tasks[1].exit_code, 7);
    assert!(k.tasks[1].children.is_empty());
    // every child now points at the root and appears exactly once in its list
    assert_eq!(k.tasks[2].parent, Some(IDLE_PID));
    assert_eq!(k.tasks[3].parent, Some(IDLE_PID));
    assert_eq!(k.tasks[0].children, vec![1, 2, 3]);
    assert_eq!(k.tasks[0].children.iter().filter(|&&c| c == 2).count(), 1);
    assert_eq!(k.tasks[0].children.iter().filter(|&&c| c == 3).count(), 1);
}

#[test]
fn exit_of_childless_task_keeps_root_children() {
    let mut k = kernel_with_tasks(2);
    let before = k.tasks[0].children.clone();
    assert_eq!(k.run_tasks(), Some(0));
    assert_eq!(sys_yield(&mut k), 0);
    assert_eq!(k.run_tasks(), Some(1));
    let halted = sys_exit(&mut k, 0);
    assert!(!halted);
    assert_eq!(k.tasks[0].children, before);
    assert_eq!(k.tasks[1].task_status, TaskStatus::Zombie);
}

#[test]
fn root_exit_halts_the_system() {
    let mut k = kernel_with_tasks(1);
    assert_eq!(k.run_tasks(), Some(0));
    let halted = sys_exit(&mut k, 0);
    assert!(halted);
    // nothing was mutated: the root still runs
    assert_eq!(k.tasks[0].task_status, TaskStatus::Running);
    assert_eq!(k.current_task(), Some(0));
}

#[test]
fn zombie_is_not_rescheduled() {
    let mut k = kernel_with_tasks(1);
    assert_eq!(k.run_tasks(), Some(0));
    assert_eq!(sys_yield(&mut k), 0);
    assert_eq!(k.run_tasks(), Some(1));
    assert!(!sys_exit(&mut k, 0));
    // only the root is ever dispatched from now on
    assert_eq!(k.run_tasks(), Some(0));
    assert_eq!(sys_yield(&mut k), 0);
    assert_eq!(k.run_tasks(), Some(0));
}

#[test]
fn first_dispatch_stamps_start_time() {
    let mut k = kernel_with_tasks(0);
    k.advance_time(5_000);
    assert!(!k.tasks[0].task_begin);
    assert_eq!(k.run_tasks(), Some(0));
    assert!(k.tasks[0].task_begin);
    assert_eq!(k.tasks[0].task_start, 5);
    // a later dispatch keeps the first stamp
    assert_eq!(sys_yield(&mut k), 0);
    k.advance_time(10_000);
    assert_eq!(k.run_tasks(), Some(0));
    assert_eq!(k.tasks[0].task_start, 5);
}

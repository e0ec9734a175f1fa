//! The ready queue: FIFO admission and selection of runnable tasks.
//!
//! Round-robin fairness emerges purely from the FIFO discipline plus
//! voluntary yields; the rotation lemmas at the bottom state that.

use vstd::prelude::*;

verus! {

/// FIFO queue of runnable process ids.  `add` appends at the tail,
/// `fetch` removes from the head; there is no priority and no aging.
pub struct TaskManager {
    ready_queue: Vec<usize>,
}

impl TaskManager {
    /// The queue contents, head first.
    pub closed spec fn view(&self) -> Seq<usize> {
        self.ready_queue@
    }

    /// An empty ready queue.
    pub fn new() -> (m: TaskManager)
        ensures
            m@.len() == 0,
    {
        TaskManager { ready_queue: Vec::new() }
    }

    /// Number of queued tasks.
    pub fn len(&self) -> (n: usize)
        ensures
            n == self@.len(),
    {
        self.ready_queue.len()
    }

    /// Appends a task at the tail of the queue.
    pub fn add(&mut self, task: usize)
        ensures
            final(self)@ == old(self)@.push(task),
    {
        self.ready_queue.push(task);
    }

    /// Removes and returns the head of the queue, or `None` if it is empty.
    pub fn fetch(&mut self) -> (r: Option<usize>)
        ensures
            old(self)@.len() == 0 ==> r == None::<usize> && *final(self) == *old(self),
            old(self)@.len() > 0 ==> r == Some(old(self)@[0]) && final(self)@ == old(
                self,
            )@.drop_first(),
    {
        if self.ready_queue.len() == 0 {
            None
        } else {
            Some(self.ready_queue.remove(0))
        }
    }
}

/// One round-robin step on queue contents: the head is dispatched and, after
/// yielding once, re-admitted at the tail.
pub open spec fn rotate(q: Seq<usize>) -> Seq<usize>
    recommends
        q.len() > 0,
{
    q.drop_first().push(q[0])
}

/// `n` round-robin steps in sequence.
pub open spec fn rotate_n(q: Seq<usize>, n: nat) -> Seq<usize>
    decreases n,
{
    if n == 0 {
        q
    } else {
        rotate(rotate_n(q, (n - 1) as nat))
    }
}

/// Closed form of repeated rotation: after `n` steps the queue is the
/// original with its first `n` entries moved to the tail in order.
pub proof fn lemma_rotate_n_closed(q: Seq<usize>, n: nat)
    requires
        n <= q.len(),
    ensures
        rotate_n(q, n) =~= q.subrange(n as int, q.len() as int) + q.subrange(0, n as int),
    decreases n,
{
    if n == 0 {
        assert(rotate_n(q, 0) =~= q.subrange(0, q.len() as int) + q.subrange(0, 0));
    } else {
        lemma_rotate_n_closed(q, (n - 1) as nat);
        let prev = rotate_n(q, (n - 1) as nat);
        assert(prev =~= q.subrange(n - 1, q.len() as int) + q.subrange(0, n - 1));
        assert(prev.len() == q.len());
        assert(prev[0] == q[n - 1]);
        assert(rotate_n(q, n) == rotate(prev));
        assert(rotate(prev) =~= q.subrange(n as int, q.len() as int) + q.subrange(0, n as int));
    }
}

/// FIFO fairness: for a queue of ready tasks that each yield once after
/// running, the task dispatched at step `i` is exactly the `i`-th admitted
/// one — dispatch order equals admission order.
pub proof fn lemma_round_robin_order(q: Seq<usize>, i: nat)
    requires
        i < q.len(),
    ensures
        rotate_n(q, i).len() == q.len(),
        rotate_n(q, i)[0] == q[i as int],
{
    lemma_rotate_n_closed(q, i);
}

/// FIFO fairness, repeated indefinitely: one full round of dispatches and
/// yields returns the queue to its original order, so the round-robin
/// pattern recurs forever.
pub proof fn lemma_round_robin_cycle(q: Seq<usize>)
    ensures
        rotate_n(q, q.len()) =~= q,
{
    lemma_rotate_n_closed(q, q.len());
    assert(q.subrange(q.len() as int, q.len() as int) + q.subrange(0, q.len() as int) =~= q);
}

} // verus!

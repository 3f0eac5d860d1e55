//! The ready queue: process IDs in first-come, first-served order.

use vstd::prelude::*;
use std::collections::VecDeque;

verus! {

/// The run queue of ready processes.
pub struct Scheduler {
    ready_queue: VecDeque<i32>,
}

impl Scheduler {
    /// The ready PIDs, front first.
    pub closed spec fn view(&self) -> Seq<i32> {
        self.ready_queue@
    }

    /// An empty run queue.
    pub fn new() -> (r: Self)
        ensures
            r@ == Seq::<i32>::empty(),
    {
        Scheduler { ready_queue: VecDeque::new() }
    }

    /// Queues `pid` at the back.
    pub fn add_task(&mut self, pid: i32)
        ensures
            final(self)@ == old(self)@.push(pid),
    {
        self.ready_queue.push_back(pid);
    }

    /// Takes the PID at the front, if any.
    pub fn pick_next(&mut self) -> (r: Option<i32>)
        ensures
            old(self)@.len() == 0 ==> r is None && final(self)@ == old(self)@,
            old(self)@.len() > 0 ==> r == Some(old(self)@[0]) && final(self)@ == old(self)@.drop_first(),
    {
        let r = self.ready_queue.pop_front();
        proof {
            if old(self)@.len() > 0 {
                assert(old(self)@.subrange(1, old(self)@.len() as int) =~= old(self)@.drop_first());
            }
        }
        r
    }
}

/// Tasks leave the run queue in the order they entered it: adding a PID
/// to a queue and taking from it yields the old front, or the PID itself
/// when the queue was empty.
pub proof fn lemma_fifo(q: Seq<i32>, pid: i32)
    ensures
        q.push(pid)[0] == if q.len() == 0 { pid } else { q[0] },
        q.len() > 0 ==> q.push(pid).drop_first() == q.drop_first().push(pid),
{
    if q.len() > 0 {
        assert(q.push(pid).drop_first() =~= q.drop_first().push(pid));
    }
}

} // verus!

//! Processes waiting on a resource, in arrival order, each at most once.

use vstd::prelude::*;
use std::collections::VecDeque;

verus! {

broadcast use vstd::seq_lib::group_filter_ensures;

/// A queue of waiting PIDs.
pub struct WaitQueue {
    waiters: VecDeque<i32>,
}

impl WaitQueue {
    /// The waiting PIDs, first arrival first.
    pub closed spec fn view(&self) -> Seq<i32> {
        self.waiters@
    }

    /// No PID waits twice.
    pub open spec fn wf(&self) -> bool {
        self@.no_duplicates()
    }

    /// An empty queue.
    pub fn new() -> (r: Self)
        ensures
            r@ == Seq::<i32>::empty(),
            r.wf(),
    {
        WaitQueue { waiters: VecDeque::new() }
    }

    fn contains(&self, pid: i32) -> (r: bool)
        ensures
            r == self@.contains(pid),
    {
        let mut i: usize = 0;
        while i < self.waiters.len()
            invariant
                i <= self@.len(),
                forall|j: int| 0 <= j < i ==> self@[j] != pid,
            decreases self@.len() - i,
        {
            if self.waiters[i] == pid {
                return true;
            }
            i += 1;
        }
        false
    }

    /// Queues `pid` unless it already waits.
    pub fn add_waiter(&mut self, pid: i32)
        requires
            old(self).wf(),
        ensures
            final(self).wf(),
            final(self)@ == if old(self)@.contains(pid) { old(self)@ } else { old(self)@.push(pid) },
    {
        if !self.contains(pid) {
            self.waiters.push_back(pid);
        }
    }

    /// Removes `pid` from the queue, keeping the others in order.
    pub fn remove_waiter(&mut self, pid: i32)
        requires
            old(self).wf(),
        ensures
            final(self).wf(),
            final(self)@ == old(self)@.filter(|p: i32| p != pid),
    {
        let ghost orig = self.waiters@;
        let mut i: usize = 0;
        let ghost mut k: int = 0;
        while i < self.waiters.len()
            invariant
                orig.no_duplicates(),
                0 <= k <= orig.len(),
                i <= self@.len(),
                self@ == orig.take(k).filter(|p: i32| p != pid).add(orig.skip(k)),
                i == orig.take(k).filter(|p: i32| p != pid).len(),
            decreases orig.len() - k,
        {
            proof {
                assert(orig.take(k + 1).drop_last() =~= orig.take(k));
                reveal(Seq::filter);
                assert(orig.skip(k)[0] == orig[k]);
            }
            if self.waiters[i] == pid {
                let _ = self.waiters.remove(i);
                proof {
                    assert(orig.take(k + 1).filter(|p: i32| p != pid) =~= orig.take(k).filter(|p: i32| p != pid));
                    assert(self@ =~= orig.take(k + 1).filter(|p: i32| p != pid).add(orig.skip(k + 1)));
                }
            } else {
                i += 1;
                proof {
                    assert(orig.take(k + 1).filter(|p: i32| p != pid) =~= orig.take(k).filter(|p: i32| p != pid).push(orig[k]));
                    assert(self@ =~= orig.take(k + 1).filter(|p: i32| p != pid).add(orig.skip(k + 1)));
                }
            }
            proof {
                k = k + 1;
            }
        }
        proof {
            assert(orig.take(orig.len() as int) =~= orig);
            assert(self@ =~= orig.filter(|p: i32| p != pid));
            lemma_filter_no_duplicates(orig, pid);
        }
    }

    /// Takes the first waiter, if any.
    pub fn drain_one(&mut self) -> (r: Option<i32>)
        requires
            old(self).wf(),
        ensures
            final(self).wf(),
            old(self)@.len() == 0 ==> r is None && final(self)@ == old(self)@,
            old(self)@.len() > 0 ==> r == Some(old(self)@[0]) && final(self)@ == old(self)@.drop_first(),
    {
        let r = self.waiters.pop_front();
        proof {
            if old(self)@.len() > 0 {
                assert(old(self)@.subrange(1, old(self)@.len() as int) =~= old(self)@.drop_first());
            }
        }
        r
    }

    /// Takes every waiter, in arrival order, leaving the queue empty.
    pub fn drain_all(&mut self) -> (r: Vec<i32>)
        requires
            old(self).wf(),
        ensures
            final(self).wf(),
            r@ == old(self)@,
            final(self)@ == Seq::<i32>::empty(),
    {
        let mut out: Vec<i32> = Vec::new();
        while self.waiters.len() > 0
            invariant
                out@ + self@ == old(self)@,
            decreases self@.len(),
        {
            let p = self.waiters.pop_front();
            match p {
                Some(x) => {
                    out.push(x);
                },
                None => {},
            }
            proof {
                assert(out@ + self@ =~= old(self)@);
            }
        }
        proof {
            assert(out@ =~= out@ + self@);
        }
        out
    }

    /// Whether nobody waits.
    pub fn is_empty(&self) -> (r: bool)
        ensures
            r == (self@.len() == 0),
    {
        self.waiters.len() == 0
    }

    /// Number of waiters.
    pub fn len(&self) -> (r: usize)
        ensures
            r == self@.len(),
    {
        self.waiters.len()
    }
}

proof fn lemma_filter_no_duplicates(s: Seq<i32>, pid: i32)
    requires
        s.no_duplicates(),
    ensures
        s.filter(|p: i32| p != pid).no_duplicates(),
    decreases s.len(),
{
    reveal(Seq::filter);
    if s.len() > 0 {
        let t = s.drop_last();
        assert(t.no_duplicates());
        lemma_filter_no_duplicates(t, pid);
        let ft = t.filter(|p: i32| p != pid);
        if s.last() != pid {
            assert forall|i: int, j: int| 0 <= i < j < ft.push(s.last()).len()
                implies ft.push(s.last())[i] != ft.push(s.last())[j] by {
                if j == ft.len() {
                    assert(ft.contains(ft[i]));
                    t.lemma_filter_contains_rev(|p: i32| p != pid, ft[i]);
                    assert(t.contains(ft[i]));
                    let k = choose|k: int| 0 <= k < t.len() && t[k] == ft[i];
                    assert(s[k] == t[k]);
                    assert(s[s.len() - 1] == s.last());
                }
            }
        }
    }
}

} // verus!

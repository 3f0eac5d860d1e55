//! Anonymous pipes: a 4 KiB ring of bytes with open-end counts and the
//! queues of readers and writers waiting on it.
//!
//! A read or write attempt either moves bytes, fails, or registers the
//! caller to wait; the caller then sleeps and tries again when woken.

use vstd::prelude::*;
use crate::abi::{EAGAIN, EPIPE, O_NONBLOCK, S_IFIFO};
use crate::vfs::ramfs::Stat;
use crate::vfs::wait_queue::WaitQueue;

verus! {

/// Capacity of a pipe.
pub const PIPE_BUFFER_SIZE: usize = 4096;

/// Readiness of a file for `poll`/`epoll`.
#[derive(Debug, Clone, Copy, PartialEq, Eq, Structural)]
pub struct InodePollFlags {
    pub readable: bool,
    pub writable: bool,
    pub hangup: bool,
    pub error: bool,
}

/// The outcome of one read or write attempt on a pipe.
#[derive(Debug, Clone, Copy, PartialEq, Eq, Structural)]
pub enum PipeStep {
    /// This many bytes moved (0 at end of file).
    Transferred(usize),
    /// The caller was queued and must sleep, then try again.
    Block,
    /// The attempt fails with this errno.
    Error(i32),
}

/// The shared state of a pipe.
pub struct PipeBuffer {
    data: Vec<u8>,
    read_pos: usize,
    write_pos: usize,
    len: usize,
    readers_open: usize,
    writers_open: usize,
    read_waiters: WaitQueue,
    write_waiters: WaitQueue,
}

impl PipeBuffer {
    /// The unread bytes, oldest first.
    pub closed spec fn view(&self) -> Seq<u8> {
        Seq::new(self.len as nat, |i: int| self.data@[(self.read_pos + i) % (PIPE_BUFFER_SIZE as int)])
    }

    /// Open read ends.
    pub closed spec fn readers(&self) -> nat {
        self.readers_open as nat
    }

    /// Open write ends.
    pub closed spec fn writers(&self) -> nat {
        self.writers_open as nat
    }

    /// Readers waiting for data.
    pub closed spec fn read_queue(&self) -> Seq<i32> {
        self.read_waiters@
    }

    /// Writers waiting for room.
    pub closed spec fn write_queue(&self) -> Seq<i32> {
        self.write_waiters@
    }

    /// The ring is consistent and no waiter is queued twice.
    pub closed spec fn wf(&self) -> bool {
        &&& self.data@.len() == PIPE_BUFFER_SIZE
        &&& self.read_pos < PIPE_BUFFER_SIZE
        &&& self.write_pos < PIPE_BUFFER_SIZE
        &&& self.len <= PIPE_BUFFER_SIZE
        &&& self.write_pos == (self.read_pos + self.len) % (PIPE_BUFFER_SIZE as int)
        &&& self.read_waiters.wf()
        &&& self.write_waiters.wf()
    }

    /// A fresh pipe: empty, one reader, one writer, nobody waiting.
    pub fn new() -> (r: Self)
        ensures
            r.wf(),
            r@ == Seq::<u8>::empty(),
            r.readers() == 1,
            r.writers() == 1,
            r.read_queue() == Seq::<i32>::empty(),
            r.write_queue() == Seq::<i32>::empty(),
    {
        let mut data: Vec<u8> = Vec::new();
        let mut i: usize = 0;
        while i < PIPE_BUFFER_SIZE
            invariant
                i <= PIPE_BUFFER_SIZE,
                data@.len() == i,
            decreases PIPE_BUFFER_SIZE - i,
        {
            data.push(0u8);
            i += 1;
        }
        let r = PipeBuffer {
            data,
            read_pos: 0,
            write_pos: 0,
            len: 0,
            readers_open: 1,
            writers_open: 1,
            read_waiters: WaitQueue::new(),
            write_waiters: WaitQueue::new(),
        };
        proof {
            assert(r@ =~= Seq::<u8>::empty());
        }
        r
    }

    /// One read attempt by `caller` into `buf` with open flags `flags`.
    /// With data: moves `min(buf.len(), unread)` bytes, oldest first, and if
    /// the pipe was full wakes the first waiting writer (returned). Empty
    /// with no writer left: end of file. Empty otherwise: `EAGAIN` for a
    /// non-blocking reader, else the caller is queued to wait.
    pub fn try_read(&mut self, buf: &mut Vec<u8>, flags: i32, caller: i32) -> (r: (PipeStep, Option<i32>))
        requires
            old(self).wf(),
        ensures
            final(self).wf(),
            final(self).readers() == old(self).readers(),
            final(self).writers() == old(self).writers(),
            final(buf)@.len() == old(buf)@.len(),
            old(self)@.len() == 0 && old(self).writers() == 0 ==> r == (PipeStep::Transferred(0), None::<i32>)
                && final(self)@ == old(self)@ && final(self).read_queue() == old(self).read_queue()
                && final(self).write_queue() == old(self).write_queue() && final(buf)@ == old(buf)@,
            old(self)@.len() == 0 && old(self).writers() > 0 && flags & O_NONBLOCK != 0
                ==> r == (PipeStep::Error(EAGAIN), None::<i32>) && final(self)@ == old(self)@
                && final(self).read_queue() == old(self).read_queue()
                && final(self).write_queue() == old(self).write_queue() && final(buf)@ == old(buf)@,
            old(self)@.len() == 0 && old(self).writers() > 0 && flags & O_NONBLOCK == 0
                ==> r == (PipeStep::Block, None::<i32>) && final(self)@ == old(self)@
                && final(self).read_queue() == (if old(self).read_queue().contains(caller) {
                    old(self).read_queue()
                } else {
                    old(self).read_queue().push(caller)
                })
                && final(self).write_queue() == old(self).write_queue() && final(buf)@ == old(buf)@,
            old(self)@.len() > 0 ==> {
                let n = if old(buf)@.len() < old(self)@.len() { old(buf)@.len() } else { old(self)@.len() };
                let woke = old(self)@.len() == PIPE_BUFFER_SIZE && n > 0 && old(self).write_queue().len() > 0;
                &&& r.0 == PipeStep::Transferred(n as usize)
                &&& final(buf)@ == old(self)@.subrange(0, n as int) + old(buf)@.subrange(n as int, old(buf)@.len() as int)
                &&& final(self)@ == old(self)@.subrange(n as int, old(self)@.len() as int)
                &&& final(self).read_queue() == old(self).read_queue()
                &&& r.1 == if woke { Some(old(self).write_queue()[0]) } else { None }
                &&& final(self).write_queue() == if woke { old(self).write_queue().drop_first() } else { old(self).write_queue() }
            },
    {
        if self.len == 0 {
            if self.writers_open == 0 {
                return (PipeStep::Transferred(0), None);
            }
            if flags & O_NONBLOCK != 0 {
                return (PipeStep::Error(EAGAIN), None);
            }
            self.read_waiters.add_waiter(caller);
            if self.len > 0 || self.writers_open == 0 {
                self.read_waiters.remove_waiter(caller);
                return (PipeStep::Transferred(0), None);
            }
            return (PipeStep::Block, None);
        }
        let was_full = self.len == PIPE_BUFFER_SIZE;
        let to_read = if buf.len() < self.len { buf.len() } else { self.len };
        let ghost content = self@;
        let ghost buf0 = buf@;
        let mut k: usize = 0;
        while k < to_read
            invariant
                self.wf(),
                k <= to_read,
                to_read <= self.len + k,
                to_read <= buf0.len(),
                content.len() == old(self).len,
                self.len == content.len() - k,
                self@ == content.subrange(k as int, content.len() as int),
                buf@.len() == buf0.len(),
                buf@ == content.subrange(0, k as int) + buf0.subrange(k as int, buf0.len() as int),
                self.readers_open == old(self).readers_open,
                self.writers_open == old(self).writers_open,
                self.read_waiters@ == old(self).read_waiters@,
                self.write_waiters@ == old(self).write_waiters@,
            decreases to_read - k,
        {
            let b = self.data[self.read_pos];
            let ghost rp = self.read_pos as int;
            let ghost prev = self@;
            proof {
                assert(self@[0] == b);
            }
            buf.set(k, b);
            self.read_pos = (self.read_pos + 1) % PIPE_BUFFER_SIZE;
            self.len = self.len - 1;
            proof {
                lemma_ring_shift(rp, self.len as int);
                assert(self@ =~= content.subrange(k as int + 1, content.len() as int)) by {
                    assert forall|i: int| 0 <= i < self.len implies #[trigger] self@[i] == content.subrange(k as int + 1, content.len() as int)[i] by {
                        lemma_ring_shift(rp, i);
                        assert(prev[i + 1] == content.subrange(k as int, content.len() as int)[i + 1]);
                    }
                }
                assert(buf@ =~= content.subrange(0, k as int + 1) + buf0.subrange(k as int + 1, buf0.len() as int));
            }
            k += 1;
        }
        let mut woke: Option<i32> = None;
        if was_full && self.len < PIPE_BUFFER_SIZE {
            woke = self.write_waiters.drain_one();
        }
        (PipeStep::Transferred(to_read), woke)
    }

    /// One write attempt by `caller` of `buf` with open flags `flags`. No
    /// reader left: `EPIPE`. Full: `EAGAIN` for a non-blocking writer, else
    /// the caller is queued to wait. Otherwise `min(buf.len(), room)` bytes
    /// are appended, and if the pipe was empty every waiting reader is
    /// woken (returned in queue order).
    pub fn try_write(&mut self, buf: &[u8], flags: i32, caller: i32) -> (r: (PipeStep, Vec<i32>))
        requires
            old(self).wf(),
        ensures
            final(self).wf(),
            final(self).readers() == old(self).readers(),
            final(self).writers() == old(self).writers(),
            old(self).readers() == 0 ==> r.0 == PipeStep::Error(EPIPE) && r.1@ == Seq::<i32>::empty()
                && final(self)@ == old(self)@ && final(self).read_queue() == old(self).read_queue()
                && final(self).write_queue() == old(self).write_queue(),
            old(self).readers() > 0 && old(self)@.len() == PIPE_BUFFER_SIZE && flags & O_NONBLOCK != 0
                ==> r.0 == PipeStep::Error(EAGAIN) && r.1@ == Seq::<i32>::empty() && final(self)@ == old(self)@
                && final(self).read_queue() == old(self).read_queue()
                && final(self).write_queue() == old(self).write_queue(),
            old(self).readers() > 0 && old(self)@.len() == PIPE_BUFFER_SIZE && flags & O_NONBLOCK == 0
                ==> r.0 == PipeStep::Block && r.1@ == Seq::<i32>::empty() && final(self)@ == old(self)@
                && final(self).read_queue() == old(self).read_queue()
                && final(self).write_queue() == (if old(self).write_queue().contains(caller) {
                    old(self).write_queue()
                } else {
                    old(self).write_queue().push(caller)
                }),
            old(self).readers() > 0 && old(self)@.len() < PIPE_BUFFER_SIZE ==> {
                let room = PIPE_BUFFER_SIZE - old(self)@.len();
                let n: int = if buf@.len() < room { buf@.len() as int } else { room };
                let woke = old(self)@.len() == 0 && n > 0;
                &&& r.0 == PipeStep::Transferred(n as usize)
                &&& final(self)@ == old(self)@ + buf@.subrange(0, n as int)
                &&& final(self).write_queue() == old(self).write_queue()
                &&& r.1@ == if woke { old(self).read_queue() } else { Seq::<i32>::empty() }
                &&& final(self).read_queue() == if woke { Seq::<i32>::empty() } else { old(self).read_queue() }
            },
    {
        if self.readers_open == 0 {
            return (PipeStep::Error(EPIPE), Vec::new());
        }
        let space = PIPE_BUFFER_SIZE - self.len;
        if space == 0 {
            if flags & O_NONBLOCK != 0 {
                return (PipeStep::Error(EAGAIN), Vec::new());
            }
            self.write_waiters.add_waiter(caller);
            if self.len < PIPE_BUFFER_SIZE || self.readers_open == 0 {
                self.write_waiters.remove_waiter(caller);
                return (PipeStep::Transferred(0), Vec::new());
            }
            return (PipeStep::Block, Vec::new());
        }
        let was_empty = self.len == 0;
        let to_write = if buf.len() < space { buf.len() } else { space };
        let ghost content = self@;
        let mut k: usize = 0;
        while k < to_write
            invariant
                self.wf(),
                k <= to_write,
                to_write <= buf@.len(),
                content.len() + to_write <= PIPE_BUFFER_SIZE,
                self.len == content.len() + k,
                self@ == content + buf@.subrange(0, k as int),
                self.readers_open == old(self).readers_open,
                self.writers_open == old(self).writers_open,
                self.read_waiters@ == old(self).read_waiters@,
                self.write_waiters@ == old(self).write_waiters@,
            decreases to_write - k,
        {
            let pos = self.write_pos;
            let ghost prev = self@;
            let ghost rp = self.read_pos as int;
            let ghost l = self.len as int;
            self.data.set(pos, buf[k]);
            self.write_pos = (pos + 1) % PIPE_BUFFER_SIZE;
            self.len = self.len + 1;
            proof {
                lemma_ring_pos(rp + l);
                lemma_ring_pos(rp + l + 1);
                assert(self@ =~= content + buf@.subrange(0, k as int + 1)) by {
                    assert forall|i: int| 0 <= i < self.len implies #[trigger] self@[i] == (content + buf@.subrange(0, k as int + 1))[i] by {
                        lemma_ring_pos(rp + i);
                        if i < l {
                            assert(self@[i] == prev[i]);
                        }
                    }
                }
            }
            k += 1;
        }
        let mut woken: Vec<i32> = Vec::new();
        if was_empty && self.len > 0 {
            woken = self.read_waiters.drain_all();
        }
        (PipeStep::Transferred(to_write), woken)
    }

    /// A woken reader gives up waiting (interrupted by a signal).
    pub fn cancel_read_wait(&mut self, pid: i32)
        requires
            old(self).wf(),
        ensures
            final(self).wf(),
            final(self)@ == old(self)@,
            final(self).readers() == old(self).readers(),
            final(self).writers() == old(self).writers(),
            final(self).read_queue() == old(self).read_queue().filter(|p: i32| p != pid),
            final(self).write_queue() == old(self).write_queue(),
    {
        self.read_waiters.remove_waiter(pid);
    }

    /// A woken writer gives up waiting (interrupted by a signal).
    pub fn cancel_write_wait(&mut self, pid: i32)
        requires
            old(self).wf(),
        ensures
            final(self).wf(),
            final(self)@ == old(self)@,
            final(self).readers() == old(self).readers(),
            final(self).writers() == old(self).writers(),
            final(self).write_queue() == old(self).write_queue().filter(|p: i32| p != pid),
            final(self).read_queue() == old(self).read_queue(),
    {
        self.write_waiters.remove_waiter(pid);
    }

    /// A read end is closed: one reader fewer (not below zero); when none is
    /// left, every waiting writer is woken (returned).
    pub fn close_read_end(&mut self) -> (woken: Vec<i32>)
        requires
            old(self).wf(),
        ensures
            final(self).wf(),
            final(self)@ == old(self)@,
            final(self).writers() == old(self).writers(),
            final(self).readers() == if old(self).readers() > 0 { old(self).readers() - 1 } else { 0 },
            final(self).read_queue() == old(self).read_queue(),
            final(self).readers() == 0 ==> woken@ == old(self).write_queue() && final(self).write_queue() == Seq::<i32>::empty(),
            final(self).readers() > 0 ==> woken@ == Seq::<i32>::empty() && final(self).write_queue() == old(self).write_queue(),
    {
        self.readers_open = self.readers_open.saturating_sub(1);
        if self.readers_open == 0 {
            self.write_waiters.drain_all()
        } else {
            Vec::new()
        }
    }

    /// A write end is closed: one writer fewer (not below zero); when none
    /// is left, every waiting reader is woken (returned).
    pub fn close_write_end(&mut self) -> (woken: Vec<i32>)
        requires
            old(self).wf(),
        ensures
            final(self).wf(),
            final(self)@ == old(self)@,
            final(self).readers() == old(self).readers(),
            final(self).writers() == if old(self).writers() > 0 { old(self).writers() - 1 } else { 0 },
            final(self).write_queue() == old(self).write_queue(),
            final(self).writers() == 0 ==> woken@ == old(self).read_queue() && final(self).read_queue() == Seq::<i32>::empty(),
            final(self).writers() > 0 ==> woken@ == Seq::<i32>::empty() && final(self).read_queue() == old(self).read_queue(),
    {
        self.writers_open = self.writers_open.saturating_sub(1);
        if self.writers_open == 0 {
            self.read_waiters.drain_all()
        } else {
            Vec::new()
        }
    }

    /// Readiness of the read end: readable with data, hung up without writers.
    pub fn poll_read(&self) -> (r: InodePollFlags)
        ensures
            r == (InodePollFlags { readable: self@.len() > 0, writable: false, hangup: self.writers() == 0, error: false }),
    {
        InodePollFlags { readable: self.len > 0, writable: false, hangup: self.writers_open == 0, error: false }
    }

    /// Readiness of the write end: writable with room, in error without readers.
    pub fn poll_write(&self) -> (r: InodePollFlags)
        ensures
            r == (InodePollFlags { readable: false, writable: self@.len() < PIPE_BUFFER_SIZE, hangup: false, error: self.readers() == 0 }),
    {
        InodePollFlags { readable: false, writable: self.len < PIPE_BUFFER_SIZE, hangup: false, error: self.readers_open == 0 }
    }
}

/// What `fstat` reports for either end of a pipe: a FIFO, mode 0600.
pub fn pipe_stat() -> (r: Stat)
    ensures
        r == (Stat { st_mode: S_IFIFO | 0o600, st_uid: 0, st_gid: 0, st_size: 0 }),
{
    Stat { st_mode: S_IFIFO | 0o600, st_uid: 0, st_gid: 0, st_size: 0 }
}

proof fn lemma_ring_pos(x: int)
    requires
        0 <= x < 2 * PIPE_BUFFER_SIZE,
    ensures
        x % (PIPE_BUFFER_SIZE as int) == if x < PIPE_BUFFER_SIZE { x } else { x - PIPE_BUFFER_SIZE },
{
    if x < PIPE_BUFFER_SIZE {
        vstd::arithmetic::div_mod::lemma_small_mod(x as nat, PIPE_BUFFER_SIZE as nat);
    } else {
        vstd::arithmetic::div_mod::lemma_mod_add_multiples_vanish(x - PIPE_BUFFER_SIZE, PIPE_BUFFER_SIZE as int);
        vstd::arithmetic::div_mod::lemma_small_mod((x - PIPE_BUFFER_SIZE) as nat, PIPE_BUFFER_SIZE as nat);
    }
}

proof fn lemma_ring_shift(a: int, i: int)
    requires
        0 <= a,
        0 <= i < PIPE_BUFFER_SIZE,
    ensures
        ((a + 1) % (PIPE_BUFFER_SIZE as int) + i) % (PIPE_BUFFER_SIZE as int) == (a + 1 + i) % (PIPE_BUFFER_SIZE as int),
{
    vstd::arithmetic::div_mod::lemma_add_mod_noop(a + 1, i, PIPE_BUFFER_SIZE as int);
    vstd::arithmetic::div_mod::lemma_small_mod(i as nat, PIPE_BUFFER_SIZE as nat);
}

} // verus!

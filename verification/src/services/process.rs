//! Processes: identity, credentials, the file descriptor table, life cycle
//! and the choice `wait4` makes among children.

use vstd::prelude::*;
use crate::abi::{EBADF, WNOHANG};
use crate::mm::vmm::VmSpace;

verus! {

/// Where anonymous mappings start in a fresh address space (1.5 GiB).
pub const DEFAULT_MMAP_BASE: usize = 0x6000_0000;
/// The `setres*id` argument that leaves an ID as it is.
pub const UNCHANGED: u32 = 0xFFFF_FFFF;
/// Permission bits a umask can hold.
pub const UMASK_BITS: u32 = 0o777;

/// Scheduling state of a process.
#[derive(Debug, Clone, Copy, PartialEq, Eq, Structural)]
pub enum ProcessState {
    Ready,
    Running,
    Blocked,
    /// Exited, waiting for its parent to reap it.
    Zombie,
}

/// Hands out process IDs: a counter that starts at 1; each request takes
/// the first ID from the counter on that no live process holds, wrapping
/// from the largest ID back to 2.
pub struct PidAllocator {
    next: i32,
}

impl PidAllocator {
    /// The counter never drops below 1.
    #[verifier::type_invariant]
    spec fn positive(&self) -> bool {
        self.next >= 1
    }

    /// Where the next search starts.
    pub closed spec fn next(&self) -> i32 {
        self.next
    }

    /// A counter whose first PID is 1.
    pub fn new() -> (r: Self)
        ensures
            r.next() == 1,
    {
        PidAllocator { next: 1 }
    }
}

/// The first ID in `[lo, hi]` that `live` does not hold.
pub open spec fn first_free_pid(live: Seq<i32>, lo: int, hi: int) -> Option<int>
    decreases hi - lo + 1,
{
    if lo > hi {
        None
    } else if !live.contains(lo as i32) {
        Some(lo)
    } else {
        first_free_pid(live, lo + 1, hi)
    }
}

/// The ID `alloc_pid` picks with counter `next`: the first free one from
/// `next` up to the largest ID, else the first free one from 2 below `next`.
pub open spec fn pid_choice(live: Seq<i32>, next: i32) -> Option<int> {
    match first_free_pid(live, next as int, i32::MAX as int) {
        Some(p) => Some(p),
        None => first_free_pid(live, 2, next - 1),
    }
}

proof fn lemma_first_free_pid(live: Seq<i32>, lo: int, hi: int)
    ensures
        first_free_pid(live, lo, hi) matches Some(p) ==> lo <= p <= hi && !live.contains(p as i32),
    decreases hi - lo + 1,
{
    if lo <= hi && live.contains(lo as i32) {
        lemma_first_free_pid(live, lo + 1, hi);
    }
}

/// Whether `live` holds `pid`.
fn holds_pid(live: &Vec<i32>, pid: i32) -> (r: bool)
    ensures
        r == live@.contains(pid),
{
    let mut i: usize = 0;
    while i < live.len()
        invariant
            i <= live@.len(),
            forall|j: int| 0 <= j < i ==> live@[j] != pid,
        decreases live@.len() - i,
    {
        if live[i] == pid {
            return true;
        }
        i += 1;
    }
    false
}

/// The first ID in `[lo, hi]` that `live` does not hold.
fn find_free_pid(live: &Vec<i32>, lo: i32, hi: i32) -> (r: Option<i32>)
    requires
        lo >= 1,
        lo <= hi + 1,
    ensures
        r == (match first_free_pid(live@, lo as int, hi as int) { Some(p) => Some(p as i32), None => None }),
{
    let mut p: i64 = lo as i64;
    while p <= hi as i64
        invariant
            lo <= p <= hi as i64 + 1,
            first_free_pid(live@, lo as int, hi as int) == first_free_pid(live@, p as int, hi as int),
        decreases hi as i64 + 1 - p,
    {
        if !holds_pid(live, p as i32) {
            return Some(p as i32);
        }
        p += 1;
    }
    None
}

/// Allocates a process ID that no process in `live` holds: the first free
/// one from the counter on, else, wrapping, the first free one from 2 on;
/// the counter moves past it (to 2 after the largest ID). `None` when every
/// ID is taken, and then the counter stays.
pub fn alloc_pid(pids: &mut PidAllocator, live: &Vec<i32>) -> (r: Option<i32>)
    ensures
        r == (match pid_choice(live@, old(pids).next()) { Some(p) => Some(p as i32), None => None }),
        r matches Some(p) ==> p > 0 && !live@.contains(p)
            && final(pids).next() == (if p == i32::MAX { 2 } else { p + 1 }),
        r is None ==> final(pids).next() == old(pids).next(),
        pid_choice(live@, old(pids).next()) matches Some(c) ==> 1 <= c <= i32::MAX,
{
    proof {
        use_type_invariant(&*pids);
        lemma_first_free_pid(live@, pids.next as int, i32::MAX as int);
        lemma_first_free_pid(live@, 2, pids.next - 1);
    }
    let found = match find_free_pid(live, pids.next, i32::MAX) {
        Some(p) => Some(p),
        None => if pids.next > 2 { find_free_pid(live, 2, pids.next - 1) } else { None },
    };
    match found {
        Some(p) => {
            pids.next = if p == i32::MAX { 2 } else { p + 1 };
            Some(p)
        },
        None => None,
    }
}

/// A process control block: what the kernel's logic reads and changes of
/// a process. File descriptors hold the IDs of open file descriptions.
pub struct Process {
    pub pid: i32,
    pub ppid: i32,
    /// Real, effective and saved user IDs.
    pub uid: u32,
    pub euid: u32,
    pub suid: u32,
    /// Real, effective and saved group IDs.
    pub gid: u32,
    pub egid: u32,
    pub sgid: u32,
    /// File mode creation mask.
    pub umask: u32,
    pub state: ProcessState,
    /// Current working directory, an absolute path.
    pub cwd: Vec<u8>,
    /// Descriptor table: slot `fd` holds an open file description or nothing.
    pub fds: Vec<Option<usize>>,
    pub exit_code: i32,
    /// The signal that killed the process, if one did.
    pub killed_by_sig: Option<i32>,
    pub vm_space: Option<VmSpace>,
    /// User entry point.
    pub entry_point: usize,
    /// Initial user stack pointer.
    pub user_stack_top: usize,
    /// Next address for anonymous mappings.
    pub mmap_next_vaddr: usize,
    /// The process has been set up and entered user mode.
    pub has_started: bool,
    /// Where the program break starts (the page after the loaded image).
    pub brk_start: usize,
    /// The program break.
    pub brk: usize,
}

/// The lowest free descriptor slot of `fds`, or its length when all are used.
pub open spec fn lowest_free_fd(fds: Seq<Option<usize>>) -> int
    decreases fds.len(),
{
    if fds.len() == 0 {
        0
    } else if lowest_free_fd(fds.drop_last()) < fds.len() - 1 {
        lowest_free_fd(fds.drop_last())
    } else if fds.last() is None {
        fds.len() - 1
    } else {
        fds.len() as int
    }
}

pub proof fn lemma_lowest_free_fd(fds: Seq<Option<usize>>)
    ensures
        0 <= lowest_free_fd(fds) <= fds.len(),
        lowest_free_fd(fds) < fds.len() ==> fds[lowest_free_fd(fds)] is None,
        forall|i: int| 0 <= i < lowest_free_fd(fds) ==> #[trigger] fds[i] is Some,
    decreases fds.len(),
{
    if fds.len() > 0 {
        let t = fds.drop_last();
        lemma_lowest_free_fd(t);
        assert forall|i: int| 0 <= i < lowest_free_fd(fds) implies #[trigger] fds[i] is Some by {
            if i < fds.len() - 1 {
                assert(fds[i] == t[i]);
            }
        }
    }
}

impl Process {
    /// `self` equals `other` in every field but the descriptor table.
    pub open spec fn same_but_fds(&self, other: &Process) -> bool {
        &&& self.pid == other.pid && self.ppid == other.ppid
        &&& self.uid == other.uid && self.euid == other.euid && self.suid == other.suid
        &&& self.gid == other.gid && self.egid == other.egid && self.sgid == other.sgid
        &&& self.umask == other.umask && self.state == other.state && self.cwd@ == other.cwd@
        &&& self.exit_code == other.exit_code && self.killed_by_sig == other.killed_by_sig
        &&& self.vm_space == other.vm_space && self.entry_point == other.entry_point
        &&& self.user_stack_top == other.user_stack_top && self.mmap_next_vaddr == other.mmap_next_vaddr
        &&& self.has_started == other.has_started
        &&& self.brk_start == other.brk_start && self.brk == other.brk
    }
}

impl Process {
    /// A fresh process: root credentials, umask 022, ready, no descriptors,
    /// no address space, anonymous mappings from `DEFAULT_MMAP_BASE`.
    pub fn new(pid: i32, ppid: i32, cwd: Vec<u8>) -> (r: Self)
        ensures
            r.pid == pid,
            r.ppid == ppid,
            r.uid == 0 && r.euid == 0 && r.suid == 0,
            r.gid == 0 && r.egid == 0 && r.sgid == 0,
            r.umask == 0o022,
            r.state == ProcessState::Ready,
            r.cwd@ == cwd@,
            r.fds@ == Seq::<Option<usize>>::empty(),
            r.exit_code == 0,
            r.killed_by_sig is None,
            r.vm_space is None,
            r.entry_point == 0,
            r.user_stack_top == 0,
            r.mmap_next_vaddr == DEFAULT_MMAP_BASE,
            !r.has_started,
            r.brk_start == 0 && r.brk == 0,
    {
        Process {
            pid,
            ppid,
            uid: 0,
            euid: 0,
            suid: 0,
            gid: 0,
            egid: 0,
            sgid: 0,
            umask: 0o022,
            state: ProcessState::Ready,
            cwd,
            fds: Vec::new(),
            exit_code: 0,
            killed_by_sig: None,
            vm_space: None,
            entry_point: 0,
            user_stack_top: 0,
            mmap_next_vaddr: DEFAULT_MMAP_BASE,
            has_started: false,
            brk_start: 0,
            brk: 0,
        }
    }

    /// Installs `handle` in the lowest free descriptor slot, growing the
    /// table when none is free, and returns the descriptor.
    pub fn alloc_fd(&mut self, handle: usize) -> (r: Result<i32, i32>)
        requires
            old(self).fds@.len() < i32::MAX,
        ensures
            r == Ok::<i32, i32>(lowest_free_fd(old(self).fds@) as i32),
            lowest_free_fd(old(self).fds@) < old(self).fds@.len() ==>
                final(self).fds@ == old(self).fds@.update(lowest_free_fd(old(self).fds@), Some(handle)),
            lowest_free_fd(old(self).fds@) == old(self).fds@.len() ==>
                final(self).fds@ == old(self).fds@.push(Some(handle)),
            final(self).pid == old(self).pid,
            final(self).same_but_fds(old(self)),
    {
        proof {
            lemma_lowest_free_fd(self.fds@);
        }
        let mut i: usize = 0;
        while i < self.fds.len()
            invariant
                i <= self.fds@.len(),
                self.fds@ == old(self).fds@,
                self.pid == old(self).pid,
                self.same_but_fds(old(self)),
                forall|j: int| 0 <= j < i ==> #[trigger] self.fds@[j] is Some,
                0 <= lowest_free_fd(self.fds@) <= self.fds@.len(),
                lowest_free_fd(self.fds@) < self.fds@.len() ==> self.fds@[lowest_free_fd(self.fds@)] is None,
                forall|j: int| 0 <= j < lowest_free_fd(self.fds@) ==> #[trigger] self.fds@[j] is Some,
                self.fds@.len() < i32::MAX,
            decreases self.fds@.len() - i,
        {
            if self.fds[i].is_none() {
                proof {
                    assert(lowest_free_fd(self.fds@) == i);
                }
                self.fds.set(i, Some(handle));
                return Ok(i as i32);
            }
            i += 1;
        }
        self.fds.push(Some(handle));
        Ok((self.fds.len() - 1) as i32)
    }

    /// The open file description at descriptor `fd`, if any.
    pub fn get_fd(&self, fd: i32) -> (r: Option<usize>)
        ensures
            r == if 0 <= fd < self.fds@.len() { self.fds@[fd as int] } else { None },
    {
        if fd < 0 {
            return None;
        }
        let i = fd as usize;
        if i < self.fds.len() {
            self.fds[i]
        } else {
            None
        }
    }

    /// Closes descriptor `fd`: `EBADF` when it is out of range or not open.
    pub fn close_fd(&mut self, fd: i32) -> (r: Result<(), i32>)
        ensures
            (0 <= fd < old(self).fds@.len() && old(self).fds@[fd as int] is Some) ==> {
                &&& r is Ok
                &&& final(self).fds@ == old(self).fds@.update(fd as int, None)
            },
            !(0 <= fd < old(self).fds@.len() && old(self).fds@[fd as int] is Some) ==> {
                &&& r == Err::<(), i32>(EBADF)
                &&& final(self).fds@ == old(self).fds@
            },
            final(self).same_but_fds(old(self)),
    {
        if fd < 0 || fd as usize >= self.fds.len() {
            return Err(EBADF);
        }
        let i = fd as usize;
        if self.fds[i].is_some() {
            self.fds.set(i, None);
            Ok(())
        } else {
            Err(EBADF)
        }
    }

    /// The child of a `fork` with PID `child_pid`: same credentials, umask,
    /// working directory, descriptors, entry point, stack and mapping
    /// cursor; parent is this process; started; its address space is
    /// `vm` (the copy of this one).
    pub fn fork_child(&self, child_pid: i32, vm: Option<VmSpace>) -> (c: Process)
        ensures
            c.pid == child_pid,
            c.ppid == self.pid,
            c.uid == self.uid && c.euid == self.euid && c.suid == self.suid,
            c.gid == self.gid && c.egid == self.egid && c.sgid == self.sgid,
            c.umask == self.umask,
            c.cwd@ == self.cwd@,
            c.fds@ == self.fds@,
            c.state == ProcessState::Ready,
            c.exit_code == 0,
            c.killed_by_sig is None,
            c.vm_space == vm,
            c.entry_point == self.entry_point,
            c.user_stack_top == self.user_stack_top,
            c.mmap_next_vaddr == self.mmap_next_vaddr,
            c.has_started,
            c.brk_start == self.brk_start && c.brk == self.brk,
    {
        let mut c = Process::new(child_pid, self.pid, self.cwd.clone());
        c.uid = self.uid;
        c.gid = self.gid;
        c.euid = self.euid;
        c.egid = self.egid;
        c.suid = self.suid;
        c.sgid = self.sgid;
        c.umask = self.umask;
        c.vm_space = vm;
        c.entry_point = self.entry_point;
        c.user_stack_top = self.user_stack_top;
        c.mmap_next_vaddr = self.mmap_next_vaddr;
        c.has_started = true;
        c.brk_start = self.brk_start;
        c.brk = self.brk;
        c.fds = self.fds.clone();
        c
    }

    /// After a successful `exec`: the new image's entry point and stack,
    /// mappings from `DEFAULT_MMAP_BASE` again, the program break at
    /// `brk_start` (the page after the image), started.
    pub fn exec_image(&mut self, vm: VmSpace, entry_point: usize, user_stack_top: usize, brk_start: usize)
        ensures
            final(self).brk_start == brk_start && final(self).brk == brk_start,
            final(self).vm_space == Some(vm),
            final(self).entry_point == entry_point,
            final(self).user_stack_top == user_stack_top,
            final(self).mmap_next_vaddr == DEFAULT_MMAP_BASE,
            final(self).has_started,
            final(self).pid == old(self).pid,
            final(self).fds@ == old(self).fds@,
    {
        self.vm_space = Some(vm);
        self.entry_point = entry_point;
        self.user_stack_top = user_stack_top;
        self.mmap_next_vaddr = DEFAULT_MMAP_BASE;
        self.has_started = true;
        self.brk_start = brk_start;
        self.brk = brk_start;
    }

}

/// A `setres*id` target is allowed for an unprivileged caller.
pub open spec fn id_allowed(target: u32, r_id: u32, e_id: u32, s_id: u32) -> bool {
    target == UNCHANGED || target == r_id || target == e_id || target == s_id
}

/// The ID after a `setres*id` argument: kept when `UNCHANGED`.
pub open spec fn keep_or(target: u32, cur: u32) -> u32 {
    if target == UNCHANGED { cur } else { target }
}

/// Each of `n`'s three user IDs is one of the three `o` held.
pub open spec fn uids_held_before(o: Process, n: Process) -> bool {
    let held = |x: u32| x == o.uid || x == o.euid || x == o.suid;
    held(n.uid) && held(n.euid) && held(n.suid)
}

/// What `wait4` needs of a process table entry.
#[derive(Debug, Clone, Copy, PartialEq, Eq, Structural)]
pub struct ChildInfo {
    pub pid: i32,
    pub ppid: i32,
    pub zombie: bool,
    pub exit_code: i32,
    pub killed_by_sig: Option<i32>,
}

/// What `wait4` does now.
#[derive(Debug, Clone, Copy, PartialEq, Eq, Structural)]
pub enum WaitDecision {
    /// Reap this zombie child, reporting this status word.
    Reap { pid: i32, status: i32 },
    /// Children exist but none has exited, and `WNOHANG` asks not to wait: return 0.
    NoHang,
    /// Children exist but none has exited: block until one does.
    Block,
    /// No child matches: `ECHILD`.
    NoChild,
}

/// The status word of an exited or killed child.
pub open spec fn wait_status(c: ChildInfo) -> i32 {
    match c.killed_by_sig {
        Some(sig) => sig & 0x7f,
        None => ((c.exit_code & 0xff) * 256) as i32,
    }
}

/// The first zombie child of `caller` in `table` from index `i` on.
pub open spec fn first_zombie_child(table: Seq<ChildInfo>, caller: i32, i: int) -> Option<int>
    decreases table.len() - i,
{
    if i < 0 || i >= table.len() {
        None
    } else if table[i].ppid == caller && table[i].zombie {
        Some(i)
    } else {
        first_zombie_child(table, caller, i + 1)
    }
}

/// The entry of `pid` in `table` from index `i` on.
pub open spec fn entry_of(table: Seq<ChildInfo>, pid: i32, i: int) -> Option<int>
    decreases table.len() - i,
{
    if i < 0 || i >= table.len() {
        None
    } else if table[i].pid == pid {
        Some(i)
    } else {
        entry_of(table, pid, i + 1)
    }
}

/// What `wait4` does while matching children are still running.
pub open spec fn not_yet(options: i32) -> WaitDecision {
    if options & WNOHANG != 0 { WaitDecision::NoHang } else { WaitDecision::Block }
}

/// The `wait4` decision of `caller` for target `pid` over the process
/// table in PID order: `pid` of -1, 0 or below -1 means any child (the
/// first zombie in PID order); a positive `pid` must name a child.
pub open spec fn spec_wait_decision(table: Seq<ChildInfo>, caller: i32, pid: i32, options: i32) -> WaitDecision {
    if pid <= 0 {
        match first_zombie_child(table, caller, 0) {
            Some(i) => WaitDecision::Reap { pid: table[i].pid, status: wait_status(table[i]) },
            None => if exists|i: int| 0 <= i < table.len() && #[trigger] table[i].ppid == caller {
                not_yet(options)
            } else {
                WaitDecision::NoChild
            },
        }
    } else {
        match entry_of(table, pid, 0) {
            Some(i) => if table[i].ppid != caller {
                WaitDecision::NoChild
            } else if table[i].zombie {
                WaitDecision::Reap { pid, status: wait_status(table[i]) }
            } else {
                not_yet(options)
            },
            None => WaitDecision::NoChild,
        }
    }
}

/// Entries listed by ascending PID, each PID once: the order in which the
/// process table keeps them.
pub open spec fn children_pid_ordered(table: Seq<ChildInfo>) -> bool {
    forall|i: int, j: int| 0 <= i < j < table.len() ==> #[trigger] table[i].pid < #[trigger] table[j].pid
}

proof fn lemma_first_zombie_before(table: Seq<ChildInfo>, caller: i32, k: int, j: int)
    requires
        0 <= k <= j < table.len(),
        table[j].ppid == caller && table[j].zombie,
    ensures
        first_zombie_child(table, caller, k) matches Some(i) && k <= i <= j,
    decreases j - k,
{
    if !(table[k].ppid == caller && table[k].zombie) {
        lemma_first_zombie_before(table, caller, k + 1, j);
    }
}

/// Waiting for any child reaps the zombie child of lowest PID.
proof fn lemma_wait_reaps_lowest_pid(table: Seq<ChildInfo>, caller: i32, pid: i32, options: i32)
    requires
        children_pid_ordered(table),
        pid <= 0,
    ensures
        spec_wait_decision(table, caller, pid, options) matches WaitDecision::Reap { pid: c, .. } ==>
            forall|j: int| 0 <= j < table.len() && #[trigger] table[j].ppid == caller && table[j].zombie ==> c <= table[j].pid,
{
    if let Some(i) = first_zombie_child(table, caller, 0) {
        assert forall|j: int| 0 <= j < table.len() && #[trigger] table[j].ppid == caller && table[j].zombie
            implies table[i].pid <= table[j].pid by {
            lemma_first_zombie_before(table, caller, 0, j);
            if i < j {
                assert(table[i].pid < table[j].pid);
            }
        }
    }
}

proof fn lemma_first_zombie_child_is_one(table: Seq<ChildInfo>, caller: i32, k: int)
    ensures
        first_zombie_child(table, caller, k) matches Some(i) ==>
            0 <= i < table.len() && table[i].ppid == caller && table[i].zombie,
    decreases table.len() - k,
{
    if 0 <= k < table.len() && !(table[k].ppid == caller && table[k].zombie) {
        lemma_first_zombie_child_is_one(table, caller, k + 1);
    }
}

proof fn lemma_entry_of_is_entry(table: Seq<ChildInfo>, pid: i32, k: int)
    ensures
        entry_of(table, pid, k) matches Some(i) ==> 0 <= i < table.len() && table[i].pid == pid,
    decreases table.len() - k,
{
    if 0 <= k < table.len() && table[k].pid != pid {
        lemma_entry_of_is_entry(table, pid, k + 1);
    }
}

proof fn lemma_first_zombie_child_none(table: Seq<ChildInfo>, caller: i32, k: int)
    requires
        0 <= k,
    ensures
        first_zombie_child(table, caller, k) is None ==>
            forall|j: int| k <= j < table.len() ==> !(#[trigger] table[j].ppid == caller && table[j].zombie),
    decreases table.len() - k,
{
    if k < table.len() {
        lemma_first_zombie_child_none(table, caller, k + 1);
    }
}

proof fn lemma_entry_of_none(table: Seq<ChildInfo>, pid: i32, k: int)
    requires
        0 <= k,
    ensures
        entry_of(table, pid, k) is None ==> forall|j: int| k <= j < table.len() ==> #[trigger] table[j].pid != pid,
    decreases table.len() - k,
{
    if k < table.len() {
        lemma_entry_of_none(table, pid, k + 1);
    }
}

/// Waiting for any child (`pid` of zero or below): a zombie child is
/// reaped if there is one; with children but none exited, `WNOHANG`
/// returns at once and otherwise the caller blocks; with no child at all
/// the answer is `ECHILD`.
pub proof fn lemma_wait_any_child(table: Seq<ChildInfo>, caller: i32, pid: i32, options: i32)
    requires
        pid <= 0,
    ensures
        ({
            let d = spec_wait_decision(table, caller, pid, options);
            let has_child = exists|i: int| 0 <= i < table.len() && #[trigger] table[i].ppid == caller;
            let has_zombie = exists|i: int| 0 <= i < table.len() && #[trigger] table[i].ppid == caller && table[i].zombie;
            &&& (d is Reap) == has_zombie
            &&& (d == WaitDecision::NoChild) == !has_child
            &&& has_child && !has_zombie ==>
                d == (if options & WNOHANG != 0 { WaitDecision::NoHang } else { WaitDecision::Block })
        }),
{
    lemma_first_zombie_child_is_one(table, caller, 0);
    lemma_first_zombie_child_none(table, caller, 0);
}

/// Waiting for child `pid` (positive) in a table by ascending PID: `ECHILD`
/// unless `pid` is a child of the caller; that child is reaped when it is a
/// zombie, and otherwise `WNOHANG` returns at once and the caller blocks
/// without it.
pub proof fn lemma_wait_one_child(table: Seq<ChildInfo>, caller: i32, pid: i32, options: i32)
    requires
        pid > 0,
        children_pid_ordered(table),
    ensures
        ({
            let d = spec_wait_decision(table, caller, pid, options);
            let is_child = exists|i: int| 0 <= i < table.len() && #[trigger] table[i].pid == pid && table[i].ppid == caller;
            &&& (d == WaitDecision::NoChild) == !is_child
            &&& forall|i: int| 0 <= i < table.len() && #[trigger] table[i].pid == pid && table[i].ppid == caller ==> {
                if table[i].zombie {
                    d is Reap && d->Reap_pid == pid
                } else {
                    d == (if options & WNOHANG != 0 { WaitDecision::NoHang } else { WaitDecision::Block })
                }
            }
        }),
{
    lemma_entry_of_is_entry(table, pid, 0);
    lemma_entry_of_none(table, pid, 0);
    assert forall|i: int, j: int| 0 <= i < table.len() && 0 <= j < table.len() && table[i].pid == pid
        && table[j].pid == pid implies i == j by {
        if i < j {
            assert(table[i].pid < table[j].pid);
        } else if j < i {
            assert(table[j].pid < table[i].pid);
        }
    }
}

proof fn lemma_low_byte(x: i32)
    ensures
        0 <= x & 0xff <= 0xff,
{
    assert(0 <= x & 0xff <= 0xff) by (bit_vector);
}

/// What `wait4` reaps is a zombie child of the caller (the one asked for
/// when `pid` is positive), and the status word reports how it ended: the
/// signal number (low seven bits) for a child killed by a signal, the low
/// byte of its exit code shifted up by eight for a child that exited.
pub proof fn lemma_reaped_child_status(table: Seq<ChildInfo>, caller: i32, pid: i32, options: i32)
    ensures
        spec_wait_decision(table, caller, pid, options) matches WaitDecision::Reap { pid: c, status } ==>
            exists|i: int| 0 <= i < table.len() && #[trigger] table[i].pid == c && {
                let e = table[i];
                &&& e.ppid == caller
                &&& e.zombie
                &&& pid > 0 ==> c == pid
                &&& match e.killed_by_sig {
                    Some(s) => status == s & 0x7f,
                    None => status == (e.exit_code & 0xff) * 256,
                }
            },
{
    if pid <= 0 {
        lemma_first_zombie_child_is_one(table, caller, 0);
        if let Some(i) = first_zombie_child(table, caller, 0) {
            lemma_low_byte(table[i].exit_code);
        }
    } else {
        lemma_entry_of_is_entry(table, pid, 0);
        if let Some(i) = entry_of(table, pid, 0) {
            lemma_low_byte(table[i].exit_code);
            assert(table[i].pid == pid);
        }
    }
}

/// Decides what `wait4(pid)` by `caller` does given the process table by
/// ascending PID: waiting for any child reaps the zombie child of lowest
/// PID.
pub fn wait_decision(table: &Vec<ChildInfo>, caller: i32, pid: i32, options: i32) -> (r: WaitDecision)
    requires
        children_pid_ordered(table@),
    ensures
        r == spec_wait_decision(table@, caller, pid, options),
        pid <= 0 ==> (r matches WaitDecision::Reap { pid: c, .. } ==>
            forall|j: int| 0 <= j < table@.len() && #[trigger] table@[j].ppid == caller && table@[j].zombie
                ==> c <= table@[j].pid),
{
    proof {
        if pid <= 0 {
            lemma_wait_reaps_lowest_pid(table@, caller, pid, options);
        }
    }
    let n = table.len();
    if pid <= 0 {
        let mut has_children = false;
        let mut i: usize = 0;
        while i < n
            invariant
                n == table@.len(),
                i <= n,
                pid <= 0,
                children_pid_ordered(table@),
                first_zombie_child(table@, caller, 0) == first_zombie_child(table@, caller, i as int),
                has_children == exists|j: int| 0 <= j < i && #[trigger] table@[j].ppid == caller,
            decreases n - i,
        {
            let c = table[i];
            if c.ppid == caller {
                has_children = true;
                if c.zombie {
                    proof {
                        assert(first_zombie_child(table@, caller, i as int) == Some(i as int));
                        lemma_wait_reaps_lowest_pid(table@, caller, pid, options);
                    }
                    let status = crate::services::signal::encode_wait_status(c.exit_code, c.killed_by_sig);
                    return WaitDecision::Reap { pid: c.pid, status };
                }
            }
            i += 1;
        }
        if !has_children {
            return WaitDecision::NoChild;
        }
        if options & WNOHANG != 0 { WaitDecision::NoHang } else { WaitDecision::Block }
    } else {
        let mut i: usize = 0;
        while i < n
            invariant
                n == table@.len(),
                i <= n,
                pid > 0,
                entry_of(table@, pid, 0) == entry_of(table@, pid, i as int),
            decreases n - i,
        {
            let c = table[i];
            if c.pid == pid {
                proof {
                    assert(entry_of(table@, pid, i as int) == Some(i as int));
                }
                if c.ppid != caller {
                    return WaitDecision::NoChild;
                }
                if c.zombie {
                    let status = crate::services::signal::encode_wait_status(c.exit_code, c.killed_by_sig);
                    return WaitDecision::Reap { pid, status };
                }
                return if options & WNOHANG != 0 { WaitDecision::NoHang } else { WaitDecision::Block };
            }
            i += 1;
        }
        WaitDecision::NoChild
    }
}

} // verus!

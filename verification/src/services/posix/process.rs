//! Process and signal system calls: their argument checks and what they do
//! to the signal tables and the calling process.

use vstd::prelude::*;
use crate::abi::{EAGAIN, EINVAL, EPERM, SIGKILL, SIGSTOP};
use crate::services::ipc::{SigAction, SigSet, SignalManager, valid_sig};
use crate::services::process::{
    PidAllocator, Process, ProcessState, UMASK_BITS, UNCHANGED, alloc_pid, id_allowed, keep_or, pid_choice, uids_held_before,
};
use crate::mm::vmm::VmSpace;

verus! {

/// Size in bytes of a signal set as user space passes it.
pub const SIGSET_SIZE: usize = 8;

/// `kill(pid, sig)`: `EINVAL` for a PID below 1 or a signal outside 1 to
/// 31, `ESRCH` when no process `pid` exists (`target_exists`), else the
/// signal is made pending for `pid`.
pub fn sys_kill(signals: &mut SignalManager, pid: i32, sig: i32, target_exists: bool) -> (r: isize)
    requires
        old(signals).wf(),
    ensures
        final(signals).wf(),
        (pid <= 0 || !valid_sig(sig)) ==> r == -(EINVAL as isize) && *final(signals) == *old(signals),
        (pid > 0 && valid_sig(sig) && !target_exists) ==> r == -(crate::abi::ESRCH as isize) && *final(signals) == *old(signals),
        (pid > 0 && valid_sig(sig) && target_exists) ==> r == 0
            && final(signals).pending() == old(signals).pending().insert(pid, crate::services::ipc::lookup_or_zero(old(signals).pending(), pid) | crate::services::ipc::sig_bit(sig)),
{
    if pid <= 0 || sig < crate::abi::SIG_MIN || sig > crate::abi::SIG_MAX {
        return -(EINVAL as isize);
    }
    match signals.send_signal(pid, sig, target_exists) {
        Ok(()) => 0,
        Err(e) => -(e as isize),
    }
}

/// The checks `rt_sigaction` makes before anything else: the set size must
/// be `SIGSET_SIZE` and the signal one that may be caught (1 to 31, not
/// `SIGKILL` or `SIGSTOP`); `EINVAL` otherwise.
pub open spec fn sigaction_args_ok(sig: i32, sigsetsize: usize) -> bool {
    sigsetsize == SIGSET_SIZE && valid_sig(sig) && sig != SIGKILL && sig != SIGSTOP
}

/// The dispositions of `SIGKILL` and `SIGSTOP` can never be changed.
pub proof fn lemma_kill_stop_uncatchable(sig: i32, sigsetsize: usize)
    requires
        sig == SIGKILL || sig == SIGSTOP,
    ensures
        !sigaction_args_ok(sig, sigsetsize),
{
}

/// Whether `rt_sigaction` accepts `sig` and `sigsetsize` (else `EINVAL`).
pub fn rt_sigaction_check(sig: i32, sigsetsize: usize) -> (r: Result<(), i32>)
    ensures
        r is Ok <==> sigaction_args_ok(sig, sigsetsize),
        r is Err ==> r == Err::<(), i32>(EINVAL),
{
    if sigsetsize != SIGSET_SIZE {
        return Err(EINVAL);
    }
    if sig < crate::abi::SIG_MIN || sig > crate::abi::SIG_MAX {
        return Err(EINVAL);
    }
    if sig == SIGKILL || sig == SIGSTOP {
        return Err(EINVAL);
    }
    Ok(())
}

/// `rt_sigaction(sig, act, sigsetsize)` for process `pid`: after the
/// checks of `rt_sigaction_check`, installs `act` when one is given. The
/// previous disposition (which the caller copies out first) is
/// `signals.action_of(pid, sig)`.
pub fn sys_rt_sigaction(signals: &mut SignalManager, pid: i32, sig: i32, act: Option<SigAction>, sigsetsize: usize) -> (r: isize)
    requires
        old(signals).wf(),
    ensures
        final(signals).wf(),
        final(signals).pending() == old(signals).pending(),
        final(signals).masks() == old(signals).masks(),
        !sigaction_args_ok(sig, sigsetsize) ==> r == -(EINVAL as isize) && *final(signals) == *old(signals),
        sigaction_args_ok(sig, sigsetsize) ==> r == 0 && match act {
            None => *final(signals) == *old(signals),
            Some(a) => forall|s: i32| #![trigger final(signals).action_of(pid, s)] final(signals).action_of(pid, s)
                == if s == sig { a } else { old(signals).action_of(pid, s) },
        },
{
    if rt_sigaction_check(sig, sigsetsize).is_err() {
        return -(EINVAL as isize);
    }
    match act {
        Some(a) => {
            match signals.set_action(pid, sig, a) {
                Ok(_) => 0,
                Err(e) => -(e as isize),
            }
        },
        None => 0,
    }
}

/// `rt_sigprocmask(how, set, sigsetsize)` for process `pid`: `EINVAL` for
/// a set size other than `SIGSET_SIZE`; otherwise, when a set is given,
/// changes the mask as `SignalManager::set_procmask` does (which may also
/// fail with `EINVAL` for an unknown `how`). The previous mask (which the
/// caller copies out first) is `signals.get_procmask(pid)`.
pub fn sys_rt_sigprocmask(signals: &mut SignalManager, pid: i32, how: i32, set: Option<SigSet>, sigsetsize: usize) -> (r: isize)
    requires
        old(signals).wf(),
    ensures
        final(signals).wf(),
        final(signals).pending() == old(signals).pending(),
        final(signals).actions() == old(signals).actions(),
        sigsetsize != SIGSET_SIZE ==> r == -(EINVAL as isize) && *final(signals) == *old(signals),
        sigsetsize == SIGSET_SIZE && set is None ==> r == 0 && *final(signals) == *old(signals),
        sigsetsize == SIGSET_SIZE && set is Some ==> {
            let cur = crate::services::ipc::lookup_or_zero(old(signals).masks(), pid);
            let eff = set.unwrap() & !crate::services::ipc::UNBLOCKABLE;
            if how == crate::abi::SIG_BLOCK {
                r == 0 && final(signals).masks() == old(signals).masks().insert(pid, cur | eff)
            } else if how == crate::abi::SIG_UNBLOCK {
                r == 0 && final(signals).masks() == old(signals).masks().insert(pid, cur & !eff)
            } else if how == crate::abi::SIG_SETMASK {
                r == 0 && final(signals).masks() == old(signals).masks().insert(pid, eff)
            } else {
                r == -(EINVAL as isize) && final(signals).masks() == old(signals).masks().insert(pid, cur)
            }
        },
{
    if sigsetsize != SIGSET_SIZE {
        return -(EINVAL as isize);
    }
    match set {
        Some(s) => match signals.set_procmask(pid, how, s) {
            Ok(_) => 0,
            Err(_) => -(EINVAL as isize),
        },
        None => 0,
    }
}

/// `umask(mask)`: the mask becomes `mask`'s permission bits; returns the
/// previous one.
pub fn sys_umask(proc: &mut Process, mask: u32) -> (r: isize)
    ensures
        r == old(proc).umask as isize,
        final(proc).umask == mask & UMASK_BITS,
{
    let old_mask = proc.umask;
    proc.umask = mask & UMASK_BITS;
    old_mask as isize
}

/// Marks the process exited with `code`; returns the parent to wake.
pub fn sys_exit(proc: &mut Process, code: i32) -> (ppid: i32)
    ensures
        final(proc).state == ProcessState::Zombie,
        final(proc).exit_code == code,
        final(proc).killed_by_sig is None,
        ppid == old(proc).ppid,
        final(proc).ppid == old(proc).ppid,
        final(proc).pid == old(proc).pid,
{
    proc.state = ProcessState::Zombie;
    proc.exit_code = code;
    proc.killed_by_sig = None;
    proc.ppid
}

/// Marks the process killed by `sig`; returns the parent to wake.
pub fn sys_exit_signal(proc: &mut Process, sig: i32) -> (ppid: i32)
    ensures
        final(proc).state == ProcessState::Zombie,
        final(proc).exit_code == sig & 0x7f,
        final(proc).killed_by_sig == Some(sig),
        ppid == old(proc).ppid,
        final(proc).ppid == old(proc).ppid,
        final(proc).pid == old(proc).pid,
{
    proc.state = ProcessState::Zombie;
    proc.exit_code = sig & 0x7f;
    proc.killed_by_sig = Some(sig);
    proc.ppid
}

/// `getppid()`: the parent's PID.
pub fn sys_getppid(proc: &Process) -> (r: isize)
    ensures
        r == proc.ppid as isize,
{
    proc.ppid as isize
}

/// `getuid()`: the real user ID.
pub fn sys_getuid(proc: &Process) -> (r: isize)
    ensures
        r == proc.uid as isize,
{
    proc.uid as isize
}

/// `geteuid()`: the effective user ID.
pub fn sys_geteuid(proc: &Process) -> (r: isize)
    ensures
        r == proc.euid as isize,
{
    proc.euid as isize
}

/// `getgid()`: the real group ID.
pub fn sys_getgid(proc: &Process) -> (r: isize)
    ensures
        r == proc.gid as isize,
{
    proc.gid as isize
}

/// `getegid()`: the effective group ID.
pub fn sys_getegid(proc: &Process) -> (r: isize)
    ensures
        r == proc.egid as isize,
{
    proc.egid as isize
}

/// `getresuid()`: the real, effective and saved user IDs, in that order,
/// for the caller to store at the addresses it was given.
pub fn sys_getresuid(proc: &Process) -> (r: (u32, u32, u32))
    ensures
        r == (proc.uid, proc.euid, proc.suid),
{
    (proc.uid, proc.euid, proc.suid)
}

/// `getresgid()`: the real, effective and saved group IDs, in that order.
pub fn sys_getresgid(proc: &Process) -> (r: (u32, u32, u32))
    ensures
        r == (proc.gid, proc.egid, proc.sgid),
{
    (proc.gid, proc.egid, proc.sgid)
}

/// `setuid`: with effective root, sets all three user IDs; otherwise may
/// set only the effective ID, and only to the real or saved one.
/// Returns 0 or `-EPERM`. An unprivileged caller ends with no user ID
/// it did not hold.
pub fn sys_setuid(proc: &mut Process, uid: u32) -> (r: isize)
    ensures
        old(proc).euid != 0 ==> uids_held_before(*old(proc), *final(proc)),
        old(proc).euid == 0 ==> r == 0 && final(proc).uid == uid && final(proc).euid == uid && final(proc).suid == uid,
        old(proc).euid != 0 && (uid == old(proc).uid || uid == old(proc).suid) ==> r == 0
            && final(proc).uid == old(proc).uid && final(proc).euid == uid && final(proc).suid == old(proc).suid,
        old(proc).euid != 0 && uid != old(proc).uid && uid != old(proc).suid ==> r == -(EPERM as isize)
            && final(proc).uid == old(proc).uid && final(proc).euid == old(proc).euid && final(proc).suid == old(proc).suid,
        final(proc).gid == old(proc).gid && final(proc).egid == old(proc).egid && final(proc).sgid == old(proc).sgid,
{
    if proc.euid == 0 {
        proc.uid = uid;
        proc.euid = uid;
        proc.suid = uid;
        0
    } else if uid == proc.uid || uid == proc.suid {
        proc.euid = uid;
        0
    } else {
        -(EPERM as isize)
    }
}

/// `setgid`: with effective root, sets all three group IDs; otherwise
/// may set only the effective group ID, to the real or saved one.
pub fn sys_setgid(proc: &mut Process, gid: u32) -> (r: isize)
    ensures
        old(proc).euid == 0 ==> r == 0 && final(proc).gid == gid && final(proc).egid == gid && final(proc).sgid == gid,
        old(proc).euid != 0 && (gid == old(proc).gid || gid == old(proc).sgid) ==> r == 0
            && final(proc).gid == old(proc).gid && final(proc).egid == gid && final(proc).sgid == old(proc).sgid,
        old(proc).euid != 0 && gid != old(proc).gid && gid != old(proc).sgid ==> r == -(EPERM as isize)
            && final(proc).gid == old(proc).gid && final(proc).egid == old(proc).egid && final(proc).sgid == old(proc).sgid,
        final(proc).uid == old(proc).uid && final(proc).euid == old(proc).euid && final(proc).suid == old(proc).suid,
{
    if proc.euid == 0 {
        proc.gid = gid;
        proc.egid = gid;
        proc.sgid = gid;
        0
    } else if gid == proc.gid || gid == proc.sgid {
        proc.egid = gid;
        0
    } else {
        -(EPERM as isize)
    }
}

/// `seteuid`: root, or a target equal to the real, effective or saved
/// user ID, may set the effective user ID (so an unprivileged caller
/// gains no user ID it did not hold).
pub fn sys_seteuid(proc: &mut Process, euid: u32) -> (r: isize)
    ensures
        old(proc).euid != 0 ==> uids_held_before(*old(proc), *final(proc)),
        ({
            let ok = old(proc).euid == 0 || euid == old(proc).uid || euid == old(proc).euid || euid == old(proc).suid;
            &&& ok ==> r == 0 && final(proc).euid == euid
            &&& !ok ==> r == -(EPERM as isize) && final(proc).euid == old(proc).euid
        }),
        final(proc).uid == old(proc).uid && final(proc).suid == old(proc).suid,
        final(proc).gid == old(proc).gid && final(proc).egid == old(proc).egid && final(proc).sgid == old(proc).sgid,
{
    if proc.euid == 0 || euid == proc.uid || euid == proc.euid || euid == proc.suid {
        proc.euid = euid;
        0
    } else {
        -(EPERM as isize)
    }
}

/// `setegid`: root, or a target equal to the real, effective or saved
/// group ID, may set the effective group ID.
pub fn sys_setegid(proc: &mut Process, egid: u32) -> (r: isize)
    ensures
        ({
            let ok = old(proc).euid == 0 || egid == old(proc).gid || egid == old(proc).egid || egid == old(proc).sgid;
            &&& ok ==> r == 0 && final(proc).egid == egid
            &&& !ok ==> r == -(EPERM as isize) && final(proc).egid == old(proc).egid
        }),
        final(proc).gid == old(proc).gid && final(proc).sgid == old(proc).sgid,
        final(proc).uid == old(proc).uid && final(proc).euid == old(proc).euid && final(proc).suid == old(proc).suid,
{
    if proc.euid == 0 || egid == proc.gid || egid == proc.egid || egid == proc.sgid {
        proc.egid = egid;
        0
    } else {
        -(EPERM as isize)
    }
}

/// `setresuid`: each ID not `UNCHANGED` is set; without effective root
/// every such target must already be one of the three user IDs, else
/// nothing changes and the result is `-EPERM`. An unprivileged caller
/// ends with no user ID it did not hold.
pub fn sys_setresuid(proc: &mut Process, ruid: u32, euid: u32, suid: u32) -> (r: isize)
    ensures
        old(proc).euid != 0 ==> uids_held_before(*old(proc), *final(proc)),
        ({
            let o = *old(proc);
            let ok = o.euid == 0 || (id_allowed(ruid, o.uid, o.euid, o.suid)
                && id_allowed(euid, o.uid, o.euid, o.suid) && id_allowed(suid, o.uid, o.euid, o.suid));
            &&& ok ==> r == 0
                && final(proc).uid == keep_or(ruid, o.uid)
                && final(proc).euid == keep_or(euid, o.euid)
                && final(proc).suid == keep_or(suid, o.suid)
            &&& !ok ==> r == -(EPERM as isize)
                && final(proc).uid == o.uid && final(proc).euid == o.euid && final(proc).suid == o.suid
        }),
        final(proc).gid == old(proc).gid && final(proc).egid == old(proc).egid && final(proc).sgid == old(proc).sgid,
{
    let ok = proc.euid == 0 || (
        (ruid == UNCHANGED || ruid == proc.uid || ruid == proc.euid || ruid == proc.suid)
        && (euid == UNCHANGED || euid == proc.uid || euid == proc.euid || euid == proc.suid)
        && (suid == UNCHANGED || suid == proc.uid || suid == proc.euid || suid == proc.suid));
    if !ok {
        return -(EPERM as isize);
    }
    if ruid != UNCHANGED {
        proc.uid = ruid;
    }
    if euid != UNCHANGED {
        proc.euid = euid;
    }
    if suid != UNCHANGED {
        proc.suid = suid;
    }
    0
}

/// `setresgid`: as `setresuid` for the group IDs; the privilege test is
/// on the effective user ID.
pub fn sys_setresgid(proc: &mut Process, rgid: u32, egid: u32, sgid: u32) -> (r: isize)
    ensures
        ({
            let o = *old(proc);
            let ok = o.euid == 0 || (id_allowed(rgid, o.gid, o.egid, o.sgid)
                && id_allowed(egid, o.gid, o.egid, o.sgid) && id_allowed(sgid, o.gid, o.egid, o.sgid));
            &&& ok ==> r == 0
                && final(proc).gid == keep_or(rgid, o.gid)
                && final(proc).egid == keep_or(egid, o.egid)
                && final(proc).sgid == keep_or(sgid, o.sgid)
            &&& !ok ==> r == -(EPERM as isize)
                && final(proc).gid == o.gid && final(proc).egid == o.egid && final(proc).sgid == o.sgid
        }),
        final(proc).uid == old(proc).uid && final(proc).euid == old(proc).euid && final(proc).suid == old(proc).suid,
{
    let ok = proc.euid == 0 || (
        (rgid == UNCHANGED || rgid == proc.gid || rgid == proc.egid || rgid == proc.sgid)
        && (egid == UNCHANGED || egid == proc.gid || egid == proc.egid || egid == proc.sgid)
        && (sgid == UNCHANGED || sgid == proc.gid || sgid == proc.egid || sgid == proc.sgid));
    if !ok {
        return -(EPERM as isize);
    }
    if rgid != UNCHANGED {
        proc.gid = rgid;
    }
    if egid != UNCHANGED {
        proc.egid = egid;
    }
    if sgid != UNCHANGED {
        proc.sgid = sgid;
    }
    0
}

/// A forked child `child` takes over `parent`'s signal mask and the
/// dispositions of every signal that may be caught (those of `SIGKILL` and
/// `SIGSTOP` cannot be set and stay as they were).
pub fn inherit_signal_state(signals: &mut SignalManager, parent: i32, child: i32)
    requires
        old(signals).wf(),
    ensures
        final(signals).wf(),
        final(signals).pending() == old(signals).pending(),
        final(signals).masks() == old(signals).masks().insert(child,
            crate::services::ipc::lookup_or_zero(old(signals).masks(), parent) & !crate::services::ipc::UNBLOCKABLE),
        forall|s: i32| #![trigger final(signals).action_of(child, s)]
            valid_sig(s) && s != SIGKILL && s != SIGSTOP ==> final(signals).action_of(child, s) == old(signals).action_of(parent, s),
        forall|s: i32| #![trigger final(signals).action_of(parent, s)] final(signals).action_of(parent, s) == old(signals).action_of(parent, s),
{
    let mask = signals.get_procmask(parent);
    let _ = signals.set_procmask(child, crate::abi::SIG_SETMASK, mask);
    let ghost s1 = *signals;
    let mut sig: i32 = crate::abi::SIG_MIN;
    while sig <= crate::abi::SIG_MAX
        invariant
            crate::abi::SIG_MIN <= sig <= crate::abi::SIG_MAX + 1,
            signals.wf(),
            signals.pending() == old(signals).pending(),
            signals.masks() == s1.masks(),
            forall|s: i32| #![trigger signals.action_of(parent, s)] signals.action_of(parent, s) == old(signals).action_of(parent, s),
            forall|s: i32| #![trigger signals.action_of(child, s)]
                valid_sig(s) && s != SIGKILL && s != SIGSTOP && s < sig ==> signals.action_of(child, s) == old(signals).action_of(parent, s),
        decreases crate::abi::SIG_MAX + 1 - sig,
    {
        let act = signals.get_action(parent, sig);
        let ghost before = *signals;
        let _ = signals.set_action(child, sig, act);
        proof {
            assert forall|s: i32| #![trigger signals.action_of(parent, s)] signals.action_of(parent, s) == old(signals).action_of(parent, s) by {
                assert(before.action_of(parent, s) == old(signals).action_of(parent, s));
                if parent == child {
                    assert(act == before.action_of(parent, sig));
                    if valid_sig(sig) && sig != SIGKILL && sig != SIGSTOP {
                        assert(signals.action_of(child, s) == if s == sig { act } else { before.action_of(child, s) });
                    } else {
                        assert(signals.actions() == before.actions());
                    }
                } else if valid_sig(s) {
                    if before.actions().contains_key(parent) {
                        assert(signals.actions().contains_key(parent));
                        assert(signals.actions()[parent] == before.actions()[parent]);
                    } else {
                        assert(!signals.actions().contains_key(parent));
                    }
                }
            }
            assert forall|s: i32| #![trigger signals.action_of(child, s)]
                valid_sig(s) && s != SIGKILL && s != SIGSTOP && s < sig + 1 implies signals.action_of(child, s) == old(signals).action_of(parent, s) by {
                if s < sig {
                    assert(before.action_of(child, s) == old(signals).action_of(parent, s));
                }
            }
        }
        sig += 1;
    }
}

/// `fork()` once the address space is copied, with `live` the PIDs of the
/// existing processes (the parent's among them): the child gets the PID
/// `alloc_pid` picks, so none of theirs, is `parent.fork_child` of it with
/// address space `child_vm`, and inherits the parent's signal mask and
/// dispositions. Returns the child's PID (the parent's return value) and
/// the child, or `EAGAIN` when no PID is free (nothing then changes).
pub fn sys_fork(
    parent: &Process,
    pids: &mut PidAllocator,
    live: &Vec<i32>,
    signals: &mut SignalManager,
    child_vm: Option<VmSpace>,
) -> (r: Result<(i32, Process), i32>)
    requires
        old(signals).wf(),
        live@.contains(parent.pid),
    ensures
        final(signals).wf(),
        match pid_choice(live@, old(pids).next()) {
            None => r == Err::<(i32, Process), i32>(EAGAIN) && *final(signals) == *old(signals)
                && final(pids).next() == old(pids).next(),
            Some(c) => r matches Ok((pid, child)) && {
                &&& pid == c && pid > 0 && pid != parent.pid && !live@.contains(pid)
                &&& child.pid == pid && child.ppid == parent.pid
                &&& child.uid == parent.uid && child.euid == parent.euid && child.suid == parent.suid
                &&& child.gid == parent.gid && child.egid == parent.egid && child.sgid == parent.sgid
                &&& child.umask == parent.umask && child.cwd@ == parent.cwd@ && child.fds@ == parent.fds@
                &&& child.state == crate::services::process::ProcessState::Ready && child.has_started
                &&& child.vm_space == child_vm
                &&& child.entry_point == parent.entry_point && child.user_stack_top == parent.user_stack_top
                &&& child.mmap_next_vaddr == parent.mmap_next_vaddr
                &&& child.brk_start == parent.brk_start && child.brk == parent.brk
                &&& final(signals).pending() == old(signals).pending()
                &&& final(signals).masks() == old(signals).masks().insert(pid,
                    crate::services::ipc::lookup_or_zero(old(signals).masks(), parent.pid) & !crate::services::ipc::UNBLOCKABLE)
                &&& forall|s: i32| #![trigger final(signals).action_of(pid, s)]
                    valid_sig(s) && s != SIGKILL && s != SIGSTOP ==> final(signals).action_of(pid, s) == old(signals).action_of(parent.pid, s)
            },
        },
{
    let child_pid = match alloc_pid(pids, live) {
        Some(p) => p,
        None => return Err(EAGAIN),
    };
    let child = parent.fork_child(child_pid, child_vm);
    inherit_signal_state(signals, parent.pid, child_pid);
    Ok((child_pid, child))
}

} // verus!

use kernel::abi::{
    EAGAIN, EBADF, EEXIST, EINVAL, ENOENT, EPERM, EPIPE, EPOLLHUP, EPOLLIN, EPOLLOUT, EPOLL_CTL_ADD,
    EPOLL_CTL_DEL, EPOLL_CTL_MOD, ESRCH, O_NONBLOCK, SIGCHLD, SIGINT, SIGKILL, SIGSTOP, SIGTERM,
    SIG_BLOCK, SIG_IGN, SIG_SETMASK, SIG_UNBLOCK, WNOHANG,
};
use kernel::arch::frames::SyscallRegisters;
use kernel::services::audit::{sys_audit_log, sys_audit_snapshot, AuditJournal, AuditState, MAX_JOURNAL_ENTRIES};
use kernel::services::ipc::{SigAction, SignalManager};
use kernel::services::monitor::{update_system_metrics, SystemMetricsSnapshot};
use kernel::services::process::{
    alloc_pid, wait_decision, ChildInfo, PidAllocator, Process, ProcessState, WaitDecision, DEFAULT_MMAP_BASE,
    UNCHANGED,
};
use kernel::services::posix::process::{
    sys_exit, sys_exit_signal, sys_getegid, sys_geteuid, sys_getgid, sys_getppid, sys_getresgid, sys_getresuid,
    sys_getuid, sys_setegid, sys_seteuid, sys_setgid, sys_setresgid, sys_setresuid, sys_setuid, sys_umask,
};
use kernel::services::scheduler::Scheduler;
use kernel::services::signal::{
    build_signal_frame, encode_wait_status, enter_signal_handler, select_signal, sys_rt_sigreturn, SignalDecision,
};
use kernel::services::text::{push_decimal, push_signed_decimal};
use kernel::services::tty::LineDiscipline;
use kernel::vfs::epoll::{EpollEvent, EpollInstance};
use kernel::vfs::pipe::{InodePollFlags, PipeBuffer, PipeStep, PIPE_BUFFER_SIZE};
use kernel::vfs::wait_queue::WaitQueue;

fn regs() -> SyscallRegisters {
    SyscallRegisters {
        r15: 15, r14: 14, r13: 13, r12: 12, rbp: 0x7000, rbx: 11, r9: 9, r8: 8, r10: 10, rdx: 3, rsi: 2,
        rdi: 1, rax: 0, rcx: 0x40_1000, r11: 0x202, rsp: 0x7fff_f000,
    }
}

#[test]
fn pid_allocation_counts_up_and_skips_live_ids() {
    let mut p = PidAllocator::new();
    let mut live: Vec<i32> = Vec::new();
    assert_eq!(alloc_pid(&mut p, &live), Some(1));
    assert_eq!(alloc_pid(&mut p, &live), Some(2));
    live.extend([3, 4, 6]);
    assert_eq!(alloc_pid(&mut p, &live), Some(5));
    assert_eq!(alloc_pid(&mut p, &live), Some(7));
    // Every ID handed out while the earlier ones stay live is new.
    let mut got: Vec<i32> = Vec::new();
    for _ in 0..20 {
        let id = alloc_pid(&mut p, &live).unwrap();
        assert!(id > 0 && !live.contains(&id) && !got.contains(&id));
        got.push(id);
        live.push(id);
    }
}

#[test]
fn scheduler_is_fifo() {
    let mut s = Scheduler::new();
    assert_eq!(s.pick_next(), None);
    s.add_task(3);
    s.add_task(1);
    s.add_task(2);
    assert_eq!(s.pick_next(), Some(3));
    assert_eq!(s.pick_next(), Some(1));
    assert_eq!(s.pick_next(), Some(2));
    assert_eq!(s.pick_next(), None);
}

#[test]
fn wait_queue_keeps_each_pid_once() {
    let mut q = WaitQueue::new();
    assert!(q.is_empty());
    q.add_waiter(5);
    q.add_waiter(7);
    q.add_waiter(5);
    assert_eq!(q.len(), 2);
    q.add_waiter(9);
    q.remove_waiter(7);
    assert_eq!(q.drain_one(), Some(5));
    q.add_waiter(1);
    assert_eq!(q.drain_all(), vec![9, 1]);
    assert!(q.is_empty());
    assert_eq!(q.drain_one(), None);
}

#[test]
fn process_new_defaults() {
    let p = Process::new(4, 1, b"/".to_vec());
    assert_eq!((p.pid, p.ppid, p.umask), (4, 1, 0o022));
    assert_eq!(p.state, ProcessState::Ready);
    assert_eq!(p.mmap_next_vaddr, DEFAULT_MMAP_BASE);
    assert!(!p.has_started);
    assert!(p.fds.is_empty());
}

#[test]
fn fd_table_lowest_free_slot() {
    let mut p = Process::new(4, 1, b"/".to_vec());
    assert_eq!(p.alloc_fd(100), Ok(0));
    assert_eq!(p.alloc_fd(101), Ok(1));
    assert_eq!(p.alloc_fd(102), Ok(2));
    assert_eq!(p.close_fd(1), Ok(()));
    assert_eq!(p.get_fd(1), None);
    assert_eq!(p.alloc_fd(103), Ok(1));
    assert_eq!(p.get_fd(1), Some(103));
    assert_eq!(p.close_fd(7), Err(EBADF));
    assert_eq!(p.close_fd(-1), Err(EBADF));
    assert_eq!(p.get_fd(-1), None);
    assert_eq!(p.close_fd(2), Ok(()));
    assert_eq!(p.close_fd(2), Err(EBADF));
}

#[test]
fn credentials_root_and_unprivileged() {
    let mut p = Process::new(4, 1, b"/".to_vec());
    assert_eq!(sys_setuid(&mut p, 1000), 0);
    assert_eq!((p.uid, p.euid, p.suid), (1000, 1000, 1000));
    assert_eq!(sys_setuid(&mut p, 0), -(EPERM as isize));
    assert_eq!(sys_seteuid(&mut p, 1000), 0);
    assert_eq!(sys_seteuid(&mut p, 5), -(EPERM as isize));
    assert_eq!(sys_setgid(&mut p, 7), -(EPERM as isize));
    assert_eq!(sys_setegid(&mut p, 0), 0); // equal to the real group ID
}

#[test]
fn setresuid_rules() {
    let mut p = Process::new(4, 1, b"/".to_vec());
    assert_eq!(sys_setresuid(&mut p, 10, 20, 30), 0);
    assert_eq!((p.uid, p.euid, p.suid), (10, 20, 30));
    assert_eq!(sys_setresuid(&mut p, UNCHANGED, 10, UNCHANGED), 0);
    assert_eq!((p.uid, p.euid, p.suid), (10, 10, 30));
    assert_eq!(sys_setresuid(&mut p, 40, UNCHANGED, UNCHANGED), -(EPERM as isize));
    assert_eq!((p.uid, p.euid, p.suid), (10, 10, 30));
    assert_eq!(sys_setresuid(&mut p, 30, 30, 10), 0);
    assert_eq!((p.uid, p.euid, p.suid), (30, 30, 10));
    assert_eq!(sys_setresgid(&mut p, 1, 2, 3), -(EPERM as isize));
    assert_eq!(sys_getresuid(&p), (30, 30, 10));
    assert_eq!(sys_getresgid(&p), (0, 0, 0));
}

#[test]
fn credential_getters() {
    let mut p = Process::new(4, 1, b"/".to_vec());
    p.uid = 1;
    p.euid = 2;
    p.gid = 3;
    p.egid = 4;
    assert_eq!((sys_getuid(&p), sys_geteuid(&p), sys_getgid(&p), sys_getegid(&p)), (1, 2, 3, 4));
    assert_eq!(sys_getppid(&p), 1);
}

#[test]
fn unprivileged_setuid_gains_nothing() {
    for target in [0u32, 5, 10, 20, 30, 40] {
        let mut q = Process::new(4, 1, b"/".to_vec());
        assert_eq!(sys_setresuid(&mut q, 10, 20, 30), 0);
        sys_setuid(&mut q, target);
        for id in [q.uid, q.euid, q.suid] {
            assert!(id == 10 || id == 20 || id == 30);
        }
    }
}

#[test]
fn umask_keeps_permission_bits() {
    let mut p = Process::new(4, 1, b"/".to_vec());
    assert_eq!(sys_umask(&mut p, 0o7777), 0o022);
    assert_eq!(p.umask, 0o777);
}

#[test]
fn exit_and_fork() {
    let mut p = Process::new(4, 1, b"/tmp".to_vec());
    p.uid = 5;
    p.alloc_fd(9).unwrap();
    let c = p.fork_child(8, None);
    assert_eq!((c.pid, c.ppid, c.uid), (8, 4, 5));
    assert_eq!(c.cwd, b"/tmp".to_vec());
    assert_eq!(c.fds, vec![Some(9)]);
    assert!(c.has_started);
    assert_eq!(sys_exit(&mut p, 3), 1);
    assert_eq!(p.state, ProcessState::Zombie);
    assert_eq!(encode_wait_status(p.exit_code, p.killed_by_sig), 0x300);
    let mut q = Process::new(5, 1, b"/".to_vec());
    assert_eq!(sys_exit_signal(&mut q, SIGKILL), 1);
    assert_eq!(encode_wait_status(q.exit_code, q.killed_by_sig), 9);
}

fn child(pid: i32, ppid: i32, zombie: bool) -> ChildInfo {
    ChildInfo { pid, ppid, zombie, exit_code: 2, killed_by_sig: None }
}

#[test]
fn wait4_decisions() {
    let table = vec![child(2, 1, false), child(3, 1, true), child(4, 2, true), child(5, 1, true)];
    assert_eq!(wait_decision(&table, 1, -1, 0), WaitDecision::Reap { pid: 3, status: 0x200 });
    assert_eq!(wait_decision(&table, 1, 5, 0), WaitDecision::Reap { pid: 5, status: 0x200 });
    assert_eq!(wait_decision(&table, 1, 2, 0), WaitDecision::Block);
    assert_eq!(wait_decision(&table, 1, 2, WNOHANG), WaitDecision::NoHang);
    assert_eq!(wait_decision(&table, 1, 4, 0), WaitDecision::NoChild);
    assert_eq!(wait_decision(&table, 1, 42, 0), WaitDecision::NoChild);
    assert_eq!(wait_decision(&table, 9, -1, 0), WaitDecision::NoChild);
    let running = vec![child(2, 1, false)];
    assert_eq!(wait_decision(&running, 1, 0, WNOHANG), WaitDecision::NoHang);
}

#[test]
fn signals_send_block_and_clear() {
    let mut sm = SignalManager::new();
    assert_eq!(sm.send_signal(0, SIGINT, true), Err(EINVAL));
    assert_eq!(sm.send_signal(3, 0, true), Err(EINVAL));
    assert_eq!(sm.send_signal(3, SIGINT, false), Err(ESRCH));
    assert_eq!(sm.send_signal(3, SIGINT, true), Ok(()));
    assert_eq!(sm.get_pending(3), 1 << (SIGINT - 1));
    assert!(sm.has_unblocked_signals(3));
    assert_eq!(sm.set_procmask(3, SIG_BLOCK, 1 << (SIGINT - 1)), Ok(0));
    assert!(!sm.has_unblocked_signals(3));
    assert_eq!(sm.set_procmask(3, SIG_UNBLOCK, 1 << (SIGINT - 1)), Ok(1 << (SIGINT - 1)));
    assert!(sm.has_unblocked_signals(3));
    sm.clear_pending(3, SIGINT);
    assert_eq!(sm.get_pending(3), 0);
    assert_eq!(sm.set_procmask(3, 77, 0), Err(EINVAL));
}

#[test]
fn sigkill_and_sigstop_cannot_be_blocked() {
    let mut sm = SignalManager::new();
    sm.set_procmask(3, SIG_SETMASK, u64::MAX).unwrap();
    let mask = sm.get_procmask(3);
    assert_eq!(mask & (1 << (SIGKILL - 1)), 0);
    assert_eq!(mask & (1 << (SIGSTOP - 1)), 0);
    assert_ne!(mask & (1 << (SIGTERM - 1)), 0);
}

#[test]
fn sigaction_rules() {
    let mut sm = SignalManager::new();
    let act = SigAction { sa_handler: 0x40_2000, sa_flags: 0, sa_restorer: 0x40_3000, sa_mask: 0 };
    assert_eq!(sm.set_action(3, SIGKILL, act), Err(EINVAL));
    assert_eq!(sm.set_action(3, 0, act), Err(EINVAL));
    assert_eq!(sm.set_action(3, SIGTERM, act), Ok(SigAction::default_action()));
    assert_eq!(sm.get_action(3, SIGTERM), act);
    sm.cleanup_process(3);
    assert_eq!(sm.get_action(3, SIGTERM), SigAction::default_action());
}

#[test]
fn select_signal_terminates_on_default_and_discards_ignored() {
    let mut sm = SignalManager::new();
    sm.send_signal(3, SIGCHLD, true).unwrap();
    sm.send_signal(3, SIGTERM, true).unwrap();
    // SIGCHLD is ignored by default and discarded; SIGTERM terminates.
    // SIGTERM (15) comes before SIGCHLD (17), so SIGCHLD stays pending.
    assert_eq!(select_signal(&mut sm, 3), SignalDecision::Terminate(SIGTERM));
    assert_eq!(sm.get_pending(3), 1 << (SIGCHLD - 1));
    // SIGCHLD is ignored by default: it is discarded and nothing is delivered.
    assert_eq!(select_signal(&mut sm, 3), SignalDecision::Nothing);
    assert_eq!(sm.get_pending(3), 0);
}

#[test]
fn select_signal_leaves_stop_pending_and_runs_handlers() {
    let mut sm = SignalManager::new();
    let act = SigAction { sa_handler: 0x40_2000, sa_flags: 0, sa_restorer: 0x40_3000, sa_mask: 0 };
    sm.set_action(3, SIGINT, act).unwrap();
    sm.set_action(3, SIGTERM, SigAction { sa_handler: SIG_IGN, ..act }).unwrap();
    sm.send_signal(3, SIGSTOP, true).unwrap();
    sm.send_signal(3, SIGTERM, true).unwrap();
    sm.send_signal(3, SIGINT, true).unwrap();
    assert_eq!(
        select_signal(&mut sm, 3),
        SignalDecision::Handle { sig: SIGINT, action: act, blocked: 0 }
    );
    assert_eq!(sm.get_pending(3), 1 << (SIGSTOP - 1) | 1 << (SIGTERM - 1));
}

#[test]
fn signal_handler_entry_and_return() {
    let mut sm = SignalManager::new();
    let act = SigAction { sa_handler: 0x40_2000, sa_flags: 0, sa_restorer: 0x40_3000, sa_mask: 1 << 9 };
    let mut r = regs();
    let (addr, frame) = build_signal_frame(SIGINT, &act, 0, &r);
    assert_eq!(addr, (0x7fff_f000 - 128 - 152) & !0xF);
    assert_eq!(frame.rcx, 0x40_1000);
    assert_eq!(frame.restorer, 0x40_3000);
    enter_signal_handler(&mut sm, 3, &mut r, SIGINT, &act, 0, addr);
    assert_eq!((r.rsp, r.rcx, r.rdi, r.rsi, r.rdx), (addr, 0x40_2000, SIGINT as usize, 0, addr));
    assert_eq!(sm.get_procmask(3), 1 << 9 | 1 << (SIGINT - 1));
    let ret = sys_rt_sigreturn(&mut sm, 3, &mut r, &frame);
    assert_eq!(r, regs());
    assert_eq!(ret, 0);
    assert_eq!(sm.get_procmask(3), 0);
}

#[test]
fn pipe_fifo_and_eof() {
    let mut p = PipeBuffer::new();
    let (step, woken) = p.try_write(b"hello", 0, 7);
    assert_eq!(step, PipeStep::Transferred(5));
    assert!(woken.is_empty());
    let mut buf = vec![0u8; 3];
    assert_eq!(p.try_read(&mut buf, 0, 8), (PipeStep::Transferred(3), None));
    assert_eq!(buf, b"hel".to_vec());
    let mut buf = vec![0u8; 8];
    assert_eq!(p.try_read(&mut buf, 0, 8), (PipeStep::Transferred(2), None));
    assert_eq!(&buf[..2], b"lo");
    assert_eq!(p.try_read(&mut buf, O_NONBLOCK, 8), (PipeStep::Error(EAGAIN), None));
    assert_eq!(p.try_read(&mut buf, 0, 8), (PipeStep::Block, None));
    assert!(p.close_write_end() == vec![8]);
    assert_eq!(p.try_read(&mut buf, 0, 8), (PipeStep::Transferred(0), None));
}

#[test]
fn pipe_full_blocks_writer_and_broken_pipe() {
    let mut p = PipeBuffer::new();
    let big = vec![1u8; PIPE_BUFFER_SIZE + 10];
    assert_eq!(p.try_write(&big, 0, 7).0, PipeStep::Transferred(PIPE_BUFFER_SIZE));
    assert_eq!(p.poll_write().writable, false);
    assert_eq!(p.try_write(b"x", O_NONBLOCK, 7).0, PipeStep::Error(EAGAIN));
    assert_eq!(p.try_write(b"x", 0, 7).0, PipeStep::Block);
    let mut buf = vec![0u8; 1];
    assert_eq!(p.try_read(&mut buf, 0, 8), (PipeStep::Transferred(1), Some(7)));
    assert_eq!(p.poll_read(), InodePollFlags { readable: true, writable: false, hangup: false, error: false });
    p.close_read_end();
    assert_eq!(p.try_write(b"x", 0, 7).0, PipeStep::Error(EPIPE));
}

#[test]
fn pipe_wraps_around_the_ring() {
    let mut p = PipeBuffer::new();
    let first = vec![1u8; PIPE_BUFFER_SIZE - 2];
    p.try_write(&first, 0, 1);
    let mut sink = vec![0u8; PIPE_BUFFER_SIZE - 2];
    p.try_read(&mut sink, 0, 2);
    p.try_write(b"abcd", 0, 1);
    let mut buf = vec![0u8; 4];
    assert_eq!(p.try_read(&mut buf, 0, 2).0, PipeStep::Transferred(4));
    assert_eq!(buf, b"abcd".to_vec());
}

#[test]
fn tty_canonical_editing() {
    let mut l = LineDiscipline::new();
    assert_eq!(l.push_char(b'l'), Some(b'l'));
    assert_eq!(l.push_char(b's'), Some(b's'));
    assert_eq!(l.push_char(b'x'), Some(b'x'));
    assert_eq!(l.push_char(0x7F), Some(0x08));
    let mut buf = vec![0u8; 8];
    assert_eq!(l.read(&mut buf), Err(EAGAIN));
    assert_eq!(l.push_char(b'\r'), Some(b'\n'));
    assert_eq!(l.read(&mut buf), Ok(3));
    assert_eq!(&buf[..3], b"ls\n");
    let mut e = LineDiscipline::new();
    assert_eq!(e.push_char(0x08), None);
}

#[test]
fn epoll_ctl_and_wait() {
    let mut ep = EpollInstance::new();
    let ev = |events: u32, data: u64| EpollEvent { events, data };
    assert_eq!(ep.ctl(EPOLL_CTL_ADD, 5, ev(EPOLLIN, 50)), Ok(()));
    assert_eq!(ep.ctl(EPOLL_CTL_ADD, 5, ev(EPOLLIN, 51)), Err(EEXIST));
    assert_eq!(ep.ctl(EPOLL_CTL_ADD, 3, ev(EPOLLOUT, 30)), Ok(()));
    assert_eq!(ep.ctl(EPOLL_CTL_MOD, 9, ev(EPOLLIN, 90)), Err(ENOENT));
    assert_eq!(ep.ctl(EPOLL_CTL_DEL, 9, ev(0, 0)), Err(ENOENT));
    assert_eq!(ep.ctl(99, 3, ev(0, 0)), Err(EINVAL));
    assert_eq!(ep.interest_fds(), vec![3, 5]);
    let ready = InodePollFlags { readable: true, writable: true, hangup: false, error: false };
    let hup = InodePollFlags { readable: false, writable: false, hangup: true, error: false };
    let polls = vec![Some(ready), Some(hup)];
    let mut out = vec![ev(0, 0); 4];
    assert_eq!(ep.wait(&polls, &mut out, 4), Ok(2));
    assert_eq!(out[0], ev(EPOLLOUT, 30));
    assert_eq!(out[1], ev(EPOLLHUP, 50));
    assert_eq!(ep.wait(&polls, &mut out, 1), Ok(1));
    assert_eq!(ep.wait(&polls, &mut out, 0), Err(EINVAL));
    assert_eq!(ep.ctl(EPOLL_CTL_DEL, 3, ev(0, 0)), Ok(()));
    assert_eq!(ep.interest_fds(), vec![5]);
}

#[test]
fn decimal_text() {
    let mut v = Vec::new();
    push_decimal(&mut v, 0);
    push_decimal(&mut v, 12345);
    push_signed_decimal(&mut v, -42);
    push_signed_decimal(&mut v, i64::MIN);
    assert_eq!(String::from_utf8(v).unwrap(), "012345-42-9223372036854775808");
}

#[test]
fn monitor_samples() {
    let mut mon = SystemMetricsSnapshot::empty();
    let mut a = Process::new(1, 0, b"/".to_vec());
    a.state = ProcessState::Running;
    a.alloc_fd(1).unwrap();
    let b = Process::new(2, 1, b"/tmp".to_vec());
    update_system_metrics(&mut mon, (100, 40), (1 << 24, 4096), &vec![&a, &b]);
    assert_eq!(mon.sample_tick, 1);
    assert_eq!(mon.total_memory_bytes, 100 * 4096);
    assert_eq!(mon.free_memory_bytes, 40 * 4096);
    assert_eq!(mon.used_memory_bytes, 60 * 4096);
    assert_eq!((mon.total_processes, mon.running_processes), (2, 1));
    assert_eq!(mon.processes[0].state, "RUNNING");
    assert_eq!(mon.processes[0].open_fds, 1);
    assert_eq!(mon.processes[1].state, "READY");
    assert_eq!(mon.processes[1].cwd, b"/tmp".to_vec());
}

#[test]
fn audit_journal_and_snapshots() {
    let mut audit = AuditState::new();
    let mon = SystemMetricsSnapshot::empty();
    let p = Process::new(1, 0, b"/".to_vec());
    assert_eq!(sys_audit_log(&mut audit, &mon, 1, 0, 4, b"/etc/motd", b"edit"), 1);
    assert_eq!(sys_audit_log(&mut audit, &mon, 1, 0, 4, b"/etc/motd", b"edit"), 2);
    assert_eq!(sys_audit_snapshot(&mut audit, &mon, &vec![&p], 1, 0, None), 1);
    let snaps = audit.get_snapshots();
    assert_eq!(snaps.len(), 1);
    assert_eq!(snaps[0].label, b"snapshot".to_vec());
    assert_eq!(snaps[0].journal_seq, 2);
    assert_eq!(snaps[0].process_count, 1);
    let events = audit.get_audit_events();
    assert_eq!(events.len(), 3);
    assert_eq!(events[2].seq, 3);
    assert_eq!(events[2].details, b"Snapshot #1 created (covered up to journal seq 2)".to_vec());
    assert!(audit.get_snapshot_by_id(1).is_some());
    assert!(audit.get_snapshot_by_id(2).is_none());
}

#[test]
fn audit_journal_is_bounded() {
    let mut j = AuditJournal::new();
    let mut audit = AuditState::new();
    let mon = SystemMetricsSnapshot::empty();
    for _ in 0..(MAX_JOURNAL_ENTRIES + 5) {
        audit.log_audit_event(0, 1, 0, 1, 0, b"t", b"d");
    }
    let events = audit.get_audit_events();
    assert_eq!(events.len(), MAX_JOURNAL_ENTRIES);
    assert_eq!(events[0].seq, 6);
    assert_eq!(audit.journal.total_logged, (MAX_JOURNAL_ENTRIES + 5) as u64);
    let _ = (&mut j, mon);
}

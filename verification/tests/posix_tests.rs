use kernel::abi::{
    AUDIT_TYPE_DIR_CHANGE, AUDIT_TYPE_DIR_CREATE, AUDIT_TYPE_FILE_CREATE, AUDIT_TYPE_FILE_MODIFY,
    AUDIT_TYPE_FILE_UNLINK, EACCES, EBADF, EEXIST, EFAULT, EINVAL, EISDIR, ENOENT, ENOMEM, ENOSYS, ENOTDIR, ENOTEMPTY,
    ERANGE, ESRCH, O_APPEND, O_CREAT, O_EXCL, O_RDONLY, O_RDWR, O_TRUNC, O_WRONLY, SEEK_CUR, SEEK_END,
    SEEK_SET, EPOLLIN, EPOLLOUT, EPOLL_CTL_ADD, EPOLL_CTL_DEL, EPOLL_CTL_MOD, SIGKILL, SIGTERM, SIG_BLOCK, SYS_GETPID, SYS_MMAP, SYS_OPEN, SYS_READ,
    SYS_RT_SIGRETURN, S_IFDIR, S_IFIFO, S_IFREG,
};
use kernel::arch::frames::SyscallRegisters;
use kernel::mm::user::UserAccessError;
use kernel::mm::vmm::VmSpace;
use kernel::services::audit::AuditState;
use kernel::services::ipc::{SigAction, SignalManager};
use kernel::services::monitor::SystemMetricsSnapshot;
use kernel::services::posix::fs::{
    check_open_permission, creation_mode, epoll_target, read_executable, rw_count,
    sys_close, sys_dup, sys_dup2, sys_epoll_create1, sys_epoll_ctl, sys_epoll_wait, sys_fstat, sys_getdents64, sys_lseek, sys_mkdir,
    sys_open, sys_pipe, sys_read, sys_rename, sys_stat, sys_unlink, sys_write, ReadOutcome,
    WriteOutcome, MAX_RW_COUNT,
};
use kernel::services::posix::mem::{mmap_region, sys_mmap, sys_mmap_commit, sys_mprotect, sys_munmap};
use kernel::services::posix::process::{
    inherit_signal_state, rt_sigaction_check, sys_fork, sys_kill, sys_rt_sigaction, sys_rt_sigprocmask,
    sys_umask,
};
use kernel::services::posix::system::{sys_chdir, sys_clock_gettime, sys_getcwd, sys_nanosleep, sys_sysinfo, sys_uname};
use kernel::services::posix::fs::{sys_epoll_create, sys_ioctl, sys_pipe2, sys_rmdir, IoctlReply};
use kernel::services::posix::mem::{sys_brk, sys_brk_commit, BRK_MAX};
use kernel::abi::{
    CLOCK_MONOTONIC, CLOCK_REALTIME, ENOTTY, O_CLOEXEC, O_NONBLOCK, TCGETS, TCSETS, TCSETSF, TIOCGWINSZ,
};
use kernel::services::posix::{
    check_user_path, complete_syscall, decode_syscall, enter_new_image, map_user_error, unsupported_result, Syscall,
};
use kernel::services::process::{PidAllocator, Process};
use kernel::vfs::epoll::{EpollEvent, EpollInstance};
use kernel::vfs::file::{FileHandle, Vfs};
use kernel::vfs::pipe::PipeBuffer;
use kernel::vfs::ramfs::{FileType, InodeKind, RamFs, Stat};

const SIGUSR1: i32 = 10;

fn v(s: &str) -> Vec<u8> {
    s.as_bytes().to_vec()
}

/// `/` with `/etc/motd` ("hello", 0644, owned by uid 1/gid 1) and `/tmp`.
fn setup() -> (Vfs, Process, AuditState) {
    let mut fs = RamFs::new();
    let root = fs.new_dir();
    let etc = fs.create_dir(root, &v("etc"), 0o755, 0, 0).unwrap();
    let motd = fs.create_file(etc, &v("motd"), 0o644, 1, 1).unwrap();
    fs.write(motd, 0, &v("hello")).unwrap();
    fs.create_dir(root, &v("tmp"), 0o777, 0, 0).unwrap();
    let vfs = Vfs::new(fs, Some(root));
    let proc = Process::new(5, 1, v("/"));
    (vfs, proc, AuditState::new())
}

fn read_all(vfs: &mut Vfs, proc: &Process, fd: i32) -> Vec<u8> {
    match sys_read(vfs, proc, fd, 4096) {
        ReadOutcome::Data(d) => d,
        _ => panic!("expected data"),
    }
}

#[test]
fn open_existing_file_and_read_it() {
    let (mut vfs, mut proc, mut audit) = setup();
    let fd = sys_open(&mut vfs, &mut proc, &mut audit, 0, &v("/etc/motd"), O_RDONLY, 0) as i32;
    assert_eq!(fd, 0);
    assert_eq!(read_all(&mut vfs, &proc, 0), v("hello"));
    assert_eq!(read_all(&mut vfs, &proc, 0), v(""));
    assert_eq!(audit.journal.entries.len(), 0);
}

#[test]
fn open_missing_file_without_creat_fails() {
    let (mut vfs, mut proc, mut audit) = setup();
    assert_eq!(sys_open(&mut vfs, &mut proc, &mut audit, 0, &v("/etc/none"), O_RDONLY, 0), -(ENOENT as isize));
    assert_eq!(sys_open(&mut vfs, &mut proc, &mut audit, 0, &v("/etc/motd/x"), O_RDONLY, 0), -(ENOTDIR as isize));
    assert_eq!(proc.fds.len(), 0);
}

#[test]
fn open_creat_makes_file_with_umask_and_logs() {
    let (mut vfs, mut proc, mut audit) = setup();
    proc.uid = 7;
    proc.gid = 8;
    let fd = sys_open(&mut vfs, &mut proc, &mut audit, 42, &v("/tmp/new"), O_CREAT | O_WRONLY, 0o666) as i32;
    assert_eq!(fd, 0);
    let st = sys_stat(&vfs, &v("/"), &v("/tmp/new")).unwrap();
    assert_eq!(st.st_mode, S_IFREG | 0o644);
    assert_eq!((st.st_uid, st.st_gid), (7, 8));
    let e = audit.journal.entries.last().unwrap();
    assert_eq!(e.event_type, AUDIT_TYPE_FILE_CREATE);
    assert_eq!(e.timestamp_ticks, 42);
    assert_eq!(e.target, v("/tmp/new"));
    assert_eq!(e.details, v("File created via open(O_CREAT)"));
    assert_eq!(
        sys_open(&mut vfs, &mut proc, &mut audit, 0, &v("/tmp/new"), O_CREAT | O_EXCL | O_WRONLY, 0o666),
        -(EEXIST as isize)
    );
    assert_eq!(sys_open(&mut vfs, &mut proc, &mut audit, 0, &v("/nodir/x"), O_CREAT, 0o666), -(ENOENT as isize));
}

#[test]
fn open_checks_permissions_for_non_root() {
    let (mut vfs, mut proc, mut audit) = setup();
    proc.uid = 2;
    proc.gid = 2;
    // Others may read 0644 but not write.
    assert_eq!(sys_open(&mut vfs, &mut proc, &mut audit, 0, &v("/etc/motd"), O_RDONLY, 0), 0);
    assert_eq!(sys_open(&mut vfs, &mut proc, &mut audit, 0, &v("/etc/motd"), O_WRONLY, 0), -(EACCES as isize));
    proc.uid = 1;
    assert_eq!(sys_open(&mut vfs, &mut proc, &mut audit, 0, &v("/etc/motd"), O_RDWR, 0), 1);
}

#[test]
fn open_permission_classes() {
    let st = Stat { st_mode: S_IFREG | 0o640, st_uid: 10, st_gid: 20, st_size: 0 };
    assert!(check_open_permission(0, 0, &st, O_RDWR));
    assert!(check_open_permission(10, 99, &st, O_RDWR));
    assert!(check_open_permission(11, 20, &st, O_RDONLY));
    assert!(!check_open_permission(11, 20, &st, O_WRONLY));
    assert!(!check_open_permission(11, 21, &st, O_RDONLY));
    // The owner class decides even where the group class would allow.
    let st2 = Stat { st_mode: S_IFREG | 0o070, st_uid: 10, st_gid: 20, st_size: 0 };
    assert!(!check_open_permission(10, 20, &st2, O_RDONLY));
}

#[test]
fn open_trunc_empties_file() {
    let (mut vfs, mut proc, mut audit) = setup();
    let fd = sys_open(&mut vfs, &mut proc, &mut audit, 0, &v("/etc/motd"), O_WRONLY | O_TRUNC, 0) as i32;
    assert_eq!(fd, 0);
    assert_eq!(sys_fstat(&vfs, &proc, 0).unwrap().st_size, 0);
}

#[test]
fn creation_mode_masks() {
    assert_eq!(creation_mode(0o666, 0o022), 0o644);
    assert_eq!(creation_mode(0o7777, 0), 0o777);
    assert_eq!(creation_mode(0o777, 0o777), 0);
}

#[test]
fn write_append_and_lseek() {
    let (mut vfs, mut proc, mut audit) = setup();
    let fd = sys_open(&mut vfs, &mut proc, &mut audit, 0, &v("/etc/motd"), O_WRONLY | O_APPEND, 0) as i32;
    match sys_write(&mut vfs, &proc, fd, &v(" world")) {
        WriteOutcome::Written(n) => assert_eq!(n, 6),
        _ => panic!("write failed"),
    }
    let rd = sys_open(&mut vfs, &mut proc, &mut audit, 0, &v("/etc/motd"), O_RDONLY, 0) as i32;
    assert_eq!(read_all(&mut vfs, &proc, rd), v("hello world"));
    assert_eq!(sys_lseek(&mut vfs, &proc, rd, 6, SEEK_SET), 6);
    assert_eq!(read_all(&mut vfs, &proc, rd), v("world"));
    assert_eq!(sys_lseek(&mut vfs, &proc, rd, -2, SEEK_END), 9);
    assert_eq!(sys_lseek(&mut vfs, &proc, rd, 1, SEEK_CUR), 10);
    assert_eq!(sys_lseek(&mut vfs, &proc, rd, -20, SEEK_CUR), -(EINVAL as isize));
    assert_eq!(sys_lseek(&mut vfs, &proc, rd, 0, 9), -(EINVAL as isize));
    assert_eq!(sys_lseek(&mut vfs, &proc, 77, 0, SEEK_SET), -(EBADF as isize));
}

#[test]
fn write_past_end_zero_fills() {
    let mut fs = RamFs::new();
    let root = fs.new_dir();
    let f = fs.create_file(root, &v("f"), 0o644, 0, 0).unwrap();
    let mut h = FileHandle::new(f, O_RDWR);
    assert_eq!(h.lseek(&fs, 3, SEEK_SET), Ok(3));
    assert_eq!(h.write(&mut fs, &v("ab")), Ok(2));
    assert_eq!(h.offset, 5);
    let mut buf = vec![7u8; 8];
    let mut r = FileHandle::new(f, O_RDONLY);
    assert_eq!(r.read(&fs, &mut buf), Ok(5));
    assert_eq!(buf, vec![0, 0, 0, b'a', b'b', 7, 7, 7]);
    let mut d = FileHandle::new(root, O_RDONLY);
    assert_eq!(d.read(&fs, &mut buf), Err(EISDIR));
}

#[test]
fn read_and_write_errors() {
    let (mut vfs, mut proc, mut audit) = setup();
    assert!(matches!(sys_read(&mut vfs, &proc, 3, 10), ReadOutcome::Failed(e) if e == EBADF));
    let d = sys_open(&mut vfs, &mut proc, &mut audit, 0, &v("/etc"), O_RDONLY, 0) as i32;
    assert!(matches!(sys_read(&mut vfs, &proc, d, 10), ReadOutcome::Failed(e) if e == EISDIR));
    assert!(matches!(sys_write(&mut vfs, &proc, d, &v("x")), WriteOutcome::Failed(e) if e == EISDIR));
    assert_eq!(rw_count(10), 10);
    assert_eq!(rw_count(usize::MAX), MAX_RW_COUNT);
}

#[test]
fn close_dup_and_dup2() {
    let (mut vfs, mut proc, mut audit) = setup();
    let fd = sys_open(&mut vfs, &mut proc, &mut audit, 0, &v("/etc/motd"), O_RDONLY, 0) as i32;
    assert_eq!(sys_dup(&mut proc, fd), 1);
    assert_eq!(proc.fds[1], proc.fds[0]);
    assert_eq!(sys_dup(&mut proc, 9), -(EBADF as isize));
    assert_eq!(sys_dup2(&mut proc, 0, 5), 5);
    assert_eq!(proc.fds.len(), 6);
    assert_eq!(proc.fds[5], proc.fds[0]);
    assert_eq!(proc.fds[3], None);
    assert_eq!(sys_dup2(&mut proc, 0, 256), -(EBADF as isize));
    assert_eq!(sys_dup2(&mut proc, 9, 2), -(EBADF as isize));
    // The same descriptor twice comes back at once, open or not.
    assert_eq!(sys_dup2(&mut proc, 3, 3), 3);
    assert_eq!(sys_close(&mut proc, 1), 0);
    assert_eq!(sys_close(&mut proc, 1), -(EBADF as isize));
    // Both descriptors share one description, so one offset.
    assert_eq!(read_all(&mut vfs, &proc, 0), v("hello"));
    assert_eq!(read_all(&mut vfs, &proc, 5), v(""));
}

#[test]
fn stat_and_fstat() {
    let (mut vfs, mut proc, mut audit) = setup();
    assert_eq!(sys_stat(&vfs, &v("/etc"), &v("motd")).unwrap().st_size, 5);
    assert_eq!(sys_stat(&vfs, &v("/"), &v("/tmp")).unwrap().st_mode, S_IFDIR | 0o777);
    assert_eq!(sys_stat(&vfs, &v("/"), &v("/x")), Err(ENOENT));
    assert_eq!(sys_fstat(&vfs, &proc, 0), Err(EBADF));
    let fd = sys_open(&mut vfs, &mut proc, &mut audit, 0, &v("/etc"), O_RDONLY, 0) as i32;
    assert_eq!(sys_fstat(&vfs, &proc, fd).unwrap().st_mode, S_IFDIR | 0o755);
}

#[test]
fn mkdir_logs_every_outcome() {
    let (mut vfs, _proc, mut audit) = setup();
    assert_eq!(sys_mkdir(&mut vfs, &mut audit, 3, &v("/"), 5, 7, 8, 0o022, &v("/tmp/d"), 0o777), 0);
    let st = sys_stat(&vfs, &v("/"), &v("/tmp/d")).unwrap();
    assert_eq!(st.st_mode, S_IFDIR | 0o755);
    let e = audit.journal.entries.last().unwrap();
    assert_eq!((e.event_type, e.status, e.pid, e.uid), (AUDIT_TYPE_DIR_CREATE, 0, 5, 7));
    assert_eq!(e.details, v("Directory created"));
    assert_eq!(sys_mkdir(&mut vfs, &mut audit, 3, &v("/"), 5, 7, 8, 0o022, &v("/tmp/d"), 0o777), -(EEXIST as isize));
    let e = audit.journal.entries.last().unwrap();
    assert_eq!(e.status, -EEXIST);
    assert_eq!(e.details, v("Directory create failed"));
    assert_eq!(sys_mkdir(&mut vfs, &mut audit, 3, &v("/"), 5, 7, 8, 0o022, &v("/no/d"), 0o777), -(ENOENT as isize));
    let e = audit.journal.entries.last().unwrap();
    assert_eq!(e.details, v("Directory create failed (parent unresolved)"));
    assert_eq!(sys_mkdir(&mut vfs, &mut audit, 3, &v("/"), 5, 7, 8, 0o022, &v("/etc/motd/d"), 0o777), -(ENOTDIR as isize));
    assert_eq!(audit.journal.entries.len(), 4);
}

#[test]
fn unlink_removes_entries() {
    let (mut vfs, _proc, mut audit) = setup();
    assert_eq!(sys_unlink(&mut vfs, &mut audit, 0, &v("/etc"), 1, 0, &v("motd")), 0);
    assert_eq!(sys_stat(&vfs, &v("/"), &v("/etc/motd")), Err(ENOENT));
    let e = audit.journal.entries.last().unwrap();
    assert_eq!((e.event_type, e.status), (AUDIT_TYPE_FILE_UNLINK, 0));
    assert_eq!(e.target, v("motd"));
    assert_eq!(sys_unlink(&mut vfs, &mut audit, 0, &v("/etc"), 1, 0, &v("motd")), -(ENOENT as isize));
    assert_eq!(audit.journal.entries.last().unwrap().status, -ENOENT);
}

#[test]
fn rename_moves_and_checks_types() {
    let (mut vfs, _proc, mut audit) = setup();
    assert_eq!(sys_rename(&mut vfs, &mut audit, 0, &v("/"), 1, 0, &v("/etc/motd"), &v("/tmp/m")), 0);
    assert_eq!(sys_stat(&vfs, &v("/"), &v("/etc/motd")), Err(ENOENT));
    assert_eq!(sys_stat(&vfs, &v("/"), &v("/tmp/m")).unwrap().st_size, 5);
    let e = audit.journal.entries.last().unwrap();
    assert_eq!(e.event_type, AUDIT_TYPE_FILE_MODIFY);
    assert_eq!(e.target, v("/tmp/m"));
    // A file may not replace a directory, nor a directory a file.
    assert_eq!(sys_rename(&mut vfs, &mut audit, 0, &v("/"), 1, 0, &v("/tmp/m"), &v("/etc")), -(EISDIR as isize));
    assert_eq!(sys_rename(&mut vfs, &mut audit, 0, &v("/"), 1, 0, &v("/etc"), &v("/tmp/m")), -(ENOTDIR as isize));
    assert_eq!(sys_rename(&mut vfs, &mut audit, 0, &v("/"), 1, 0, &v("/none"), &v("/x")), -(ENOENT as isize));
    assert_eq!(audit.journal.entries.len(), 1);
    // Renaming a name onto itself changes nothing.
    assert_eq!(sys_rename(&mut vfs, &mut audit, 0, &v("/"), 1, 0, &v("/tmp/m"), &v("/tmp/m")), 0);
    assert_eq!(sys_stat(&vfs, &v("/"), &v("/tmp/m")).unwrap().st_size, 5);
}

#[test]
fn rename_never_moves_a_directory_into_itself() {
    let (mut vfs, _proc, mut audit) = setup();
    assert_eq!(sys_mkdir(&mut vfs, &mut audit, 0, &v("/"), 1, 0, 0, 0, &v("/etc/sub"), 0o755), 0);
    let before = audit.journal.entries.len();
    assert_eq!(sys_rename(&mut vfs, &mut audit, 0, &v("/"), 1, 0, &v("/etc"), &v("/etc/x")), -(EINVAL as isize));
    assert_eq!(sys_rename(&mut vfs, &mut audit, 0, &v("/"), 1, 0, &v("/etc"), &v("/etc/sub/x")), -(EINVAL as isize));
    assert_eq!(sys_rename(&mut vfs, &mut audit, 0, &v("/etc"), 1, 0, &v("."), &v("sub/y")), -(EINVAL as isize));
    assert_eq!(audit.journal.entries.len(), before);
    assert!(sys_stat(&vfs, &v("/"), &v("/etc/sub")).is_ok());
    // Moving it elsewhere is fine.
    assert_eq!(sys_rename(&mut vfs, &mut audit, 0, &v("/"), 1, 0, &v("/etc"), &v("/tmp/etc")), 0);
    assert_eq!(sys_stat(&vfs, &v("/"), &v("/tmp/etc/motd")).unwrap().st_size, 5);
}

#[test]
fn rename_refuses_to_replace_a_full_directory() {
    let (mut vfs, _proc, mut audit) = setup();
    assert_eq!(sys_mkdir(&mut vfs, &mut audit, 0, &v("/"), 1, 0, 0, 0, &v("/empty"), 0o755), 0);
    // `/etc` holds `motd`: it cannot be replaced.
    assert_eq!(sys_rename(&mut vfs, &mut audit, 0, &v("/"), 1, 0, &v("/tmp"), &v("/etc")), -(ENOTEMPTY as isize));
    assert_eq!(sys_rename(&mut vfs, &mut audit, 0, &v("/"), 1, 0, &v("/tmp"), &v("/empty")), 0);
    assert_eq!(sys_stat(&vfs, &v("/"), &v("/tmp")), Err(ENOENT));
    assert!(sys_stat(&vfs, &v("/"), &v("/empty")).is_ok());
}

#[test]
fn getdents_pages_through_entries() {
    let (mut vfs, mut proc, mut audit) = setup();
    let fd = sys_open(&mut vfs, &mut proc, &mut audit, 0, &v("/"), O_RDONLY, 0) as i32;
    let first = sys_getdents64(&mut vfs, &proc, fd, 300).unwrap();
    assert_eq!(first.len(), 1);
    assert_eq!(&first[0].d_name[..4], b"etc\0");
    let rest = sys_getdents64(&mut vfs, &proc, fd, 4096).unwrap();
    assert_eq!(rest.len(), 1);
    assert_eq!(&rest[0].d_name[..4], b"tmp\0");
    assert_eq!(sys_getdents64(&mut vfs, &proc, fd, 4096).unwrap().len(), 0);
    let f = sys_open(&mut vfs, &mut proc, &mut audit, 0, &v("/etc/motd"), O_RDONLY, 0) as i32;
    assert!(matches!(sys_getdents64(&mut vfs, &proc, f, 4096), Err(e) if e == ENOTDIR));
    assert!(matches!(sys_getdents64(&mut vfs, &proc, 40, 4096), Err(e) if e == EBADF));
}

#[test]
fn pipe_and_epoll_descriptors() {
    let (mut vfs, mut proc, _audit) = setup();
    let (r, w) = sys_pipe(&mut vfs, &mut proc, 3);
    assert_eq!((r, w), (0, 1));
    assert!(matches!(sys_read(&mut vfs, &proc, r, 4), ReadOutcome::Special { file_type: FileType::Fifo, id: 3, .. }));
    assert!(matches!(sys_write(&mut vfs, &proc, w, &v("x")), WriteOutcome::Special { file_type: FileType::Fifo, id: 3, .. }));
    assert_eq!(sys_fstat(&vfs, &proc, r).unwrap().st_mode, S_IFIFO | 0o600);
    assert_eq!(vfs.files[1].flags, O_WRONLY);
    let ep = sys_epoll_create1(&mut vfs, &mut proc, 9);
    assert_eq!(ep, 2);
    assert_eq!(epoll_target(&vfs, &proc, 2), Ok(9));
    assert_eq!(epoll_target(&vfs, &proc, 0), Err(EINVAL));
    assert_eq!(epoll_target(&vfs, &proc, 8), Err(EBADF));
}

#[test]
fn epoll_ctl_through_a_descriptor() {
    let (mut vfs, mut proc, _audit) = setup();
    let mut epolls = vec![EpollInstance::new(), EpollInstance::new()];
    let ep = sys_epoll_create1(&mut vfs, &mut proc, 1) as i32;
    let ev = EpollEvent { events: EPOLLIN, data: 7 };
    assert_eq!(sys_epoll_ctl(&vfs, &proc, &mut epolls, ep, EPOLL_CTL_ADD, 5, Some(Ok(ev))), 0);
    assert_eq!(epolls[1].interest_fds(), vec![5]);
    assert!(epolls[0].interest_fds().is_empty());
    assert_eq!(sys_epoll_ctl(&vfs, &proc, &mut epolls, ep, EPOLL_CTL_ADD, 5, Some(Ok(ev))), -(EEXIST as isize));
    // A failed read of the event is its errno; for a removal it is not needed.
    assert_eq!(
        sys_epoll_ctl(&vfs, &proc, &mut epolls, ep, EPOLL_CTL_MOD, 5, Some(Err(UserAccessError::NotMapped))),
        -(EFAULT as isize)
    );
    assert_eq!(
        sys_epoll_ctl(&vfs, &proc, &mut epolls, ep, EPOLL_CTL_DEL, 5, Some(Err(UserAccessError::NotMapped))),
        0
    );
    assert!(epolls[1].interest_fds().is_empty());
    assert_eq!(sys_epoll_ctl(&vfs, &proc, &mut epolls, 9, EPOLL_CTL_ADD, 5, None), -(EBADF as isize));
    let fd = sys_open(&mut vfs, &mut proc, &mut AuditState::new(), 0, &v("/etc/motd"), O_RDONLY, 0) as i32;
    assert_eq!(sys_epoll_ctl(&vfs, &proc, &mut epolls, fd, EPOLL_CTL_ADD, 5, None), -(EINVAL as isize));
}

#[test]
fn epoll_wait_reports_ready_descriptors() {
    let (mut vfs, mut proc, _audit) = setup();
    let mut pipes = vec![PipeBuffer::new()];
    let (r, w) = sys_pipe(&mut vfs, &mut proc, 0);
    let mut epolls = vec![EpollInstance::new()];
    let ep = sys_epoll_create1(&mut vfs, &mut proc, 0) as i32;
    let watch_in = EpollEvent { events: EPOLLIN, data: 1 };
    let watch_out = EpollEvent { events: EPOLLOUT, data: 2 };
    assert_eq!(sys_epoll_ctl(&vfs, &proc, &mut epolls, ep, EPOLL_CTL_ADD, r, Some(Ok(watch_in))), 0);
    assert_eq!(sys_epoll_ctl(&vfs, &proc, &mut epolls, ep, EPOLL_CTL_ADD, w, Some(Ok(watch_out))), 0);
    // The empty pipe is writable, not readable.
    assert_eq!(
        sys_epoll_wait(&vfs, &proc, &epolls, &pipes, ep, 8, true),
        Ok(vec![EpollEvent { events: EPOLLOUT, data: 2 }])
    );
    pipes[0].try_write(b"x", 0, 5);
    assert_eq!(
        sys_epoll_wait(&vfs, &proc, &epolls, &pipes, ep, 8, true),
        Ok(vec![EpollEvent { events: EPOLLIN, data: 1 }, EpollEvent { events: EPOLLOUT, data: 2 }])
    );
    assert_eq!(sys_epoll_wait(&vfs, &proc, &epolls, &pipes, ep, 1, true).unwrap().len(), 1);
    assert_eq!(sys_epoll_wait(&vfs, &proc, &epolls, &pipes, ep, 0, true), Err(EINVAL));
    assert_eq!(sys_epoll_wait(&vfs, &proc, &epolls, &pipes, ep, 8, false), Err(EINVAL));
    assert_eq!(sys_epoll_wait(&vfs, &proc, &epolls, &pipes, 9, 8, true), Err(EBADF));
    assert_eq!(sys_epoll_wait(&vfs, &proc, &epolls, &pipes, r, 8, true), Err(EINVAL));
}

#[test]
fn read_executable_reads_whole_file() {
    let (vfs, _proc, _audit) = setup();
    assert_eq!(read_executable(&vfs, &v("/"), &v("/etc/motd")), Ok(v("hello")));
    assert_eq!(read_executable(&vfs, &v("/"), &v("/etc")), Err(EISDIR));
    assert_eq!(read_executable(&vfs, &v("/"), &v("/bin/sh")), Err(ENOENT));
}

#[test]
fn mmap_regions() {
    let r = mmap_region(0, 5000, 0x6000_0000).unwrap();
    assert_eq!((r.start, r.end, r.pages, r.next_vaddr), (0x6000_0000, 0x6000_2000, 2, 0x6000_2000));
    let f = mmap_region(0x1234_5678, 4096, 0x6000_0000).unwrap();
    assert_eq!((f.start, f.end, f.next_vaddr), (0x1234_5000, 0x1234_6000, 0x6000_0000));
    assert_eq!(mmap_region(0, 0, 0x6000_0000), Err(EINVAL));
    assert_eq!(mmap_region(0, 0x8000_0000_0001, 0), Err(ENOMEM));
    assert_eq!(mmap_region(0x7FFF_FFFF_F000, 0x2000, 0), Err(ENOMEM));
}

#[test]
fn mmap_munmap_mprotect_on_a_process() {
    let mut proc = Process::new(5, 1, v("/"));
    proc.vm_space = Some(VmSpace::new(0x1000));
    let region = sys_mmap(&proc, 0, 3 * 4096).unwrap();
    assert_eq!(sys_mmap_commit(&mut proc, region, 3, 0x22), 0x6000_0000);
    assert_eq!(proc.mmap_next_vaddr, 0x6000_3000);
    assert_eq!(proc.vm_space.as_ref().unwrap().vmas().len(), 1);
    assert_eq!(sys_mprotect(&mut proc, 0x6000_1000, 4096, 1), 0);
    assert_eq!(proc.vm_space.as_ref().unwrap().vmas().len(), 3);
    assert_eq!(sys_mprotect(&mut proc, 0x7000_0000, 4096, 1), -(ENOMEM as isize));
    assert_eq!(sys_mprotect(&mut proc, 0x6000_0001, 4096, 1), -(EINVAL as isize));
    assert_eq!(sys_munmap(&mut proc, 0x6000_0000, 3 * 4096), 0);
    assert_eq!(proc.vm_space.as_ref().unwrap().vmas().len(), 0);
    assert_eq!(sys_munmap(&mut proc, 0x6000_0000, 0), -(EINVAL as isize));
    assert_eq!(sys_munmap(&mut proc, 0x7FFF_FFFF_F000, 0x2000), -(EINVAL as isize));
}

#[test]
fn uname_sysinfo_getcwd() {
    let u = sys_uname();
    assert_eq!(&u.sysname[..10], b"RustPOSIX\0");
    assert_eq!(&u.release[..17], b"1.0.0-framekernel");
    assert_eq!(&u.machine[..7], b"x86_64\0");
    assert_eq!(u.version.len(), 65);
    let mut mon = SystemMetricsSnapshot::empty();
    mon.sample_tick = 9;
    mon.total_memory_bytes = 4096;
    mon.total_processes = 70000;
    let si = sys_sysinfo(&mon);
    assert_eq!((si.uptime, si.totalram, si.procs, si.mem_unit), (9, 4096, 70000u32 as u16, 1));
    assert_eq!(sys_getcwd(&v("/tmp"), 5), Ok(v("/tmp\0")));
    assert_eq!(sys_getcwd(&v("/tmp"), 4), Err(ERANGE));
    assert_eq!(sys_getcwd(&v("/tmp"), 0), Err(EINVAL));
}

#[test]
fn chdir_changes_directory() {
    let (vfs, mut proc, mut audit) = setup();
    assert_eq!(sys_chdir(&vfs, &mut proc, &mut audit, 4, &v("etc/../tmp")), 0);
    assert_eq!(proc.cwd, v("/tmp"));
    let e = audit.journal.entries.last().unwrap();
    assert_eq!((e.event_type, e.uid), (AUDIT_TYPE_DIR_CHANGE, 0));
    assert_eq!(e.target, v("/tmp"));
    assert_eq!(sys_chdir(&vfs, &mut proc, &mut audit, 4, &v("/etc/motd")), -(ENOTDIR as isize));
    assert_eq!(sys_chdir(&vfs, &mut proc, &mut audit, 4, &v("nowhere")), -(ENOENT as isize));
    assert_eq!(proc.cwd, v("/tmp"));
}

#[test]
fn kill_sigaction_sigprocmask_umask() {
    let mut sm = SignalManager::new();
    assert_eq!(sys_kill(&mut sm, 0, SIGTERM, true), -(EINVAL as isize));
    assert_eq!(sys_kill(&mut sm, 4, 40, true), -(EINVAL as isize));
    assert_eq!(sys_kill(&mut sm, 4, SIGTERM, false), -(ESRCH as isize));
    assert_eq!(sys_kill(&mut sm, 4, SIGTERM, true), 0);
    assert_eq!(sm.get_pending(4), 1 << (SIGTERM - 1));
    let act = SigAction { sa_handler: 0x4000, sa_flags: 0, sa_restorer: 0x5000, sa_mask: 0 };
    assert_eq!(rt_sigaction_check(SIGKILL, 8), Err(EINVAL));
    assert_eq!(sys_rt_sigaction(&mut sm, 4, SIGUSR1, Some(act), 4), -(EINVAL as isize));
    assert_eq!(sys_rt_sigaction(&mut sm, 4, SIGUSR1, Some(act), 8), 0);
    assert_eq!(sm.get_action(4, SIGUSR1), act);
    assert_eq!(sys_rt_sigprocmask(&mut sm, 4, SIG_BLOCK, Some(1 << 9), 7), -(EINVAL as isize));
    assert_eq!(sys_rt_sigprocmask(&mut sm, 4, SIG_BLOCK, Some(1 << 9), 8), 0);
    assert_eq!(sm.get_procmask(4), 1 << 9);
    assert_eq!(sys_rt_sigprocmask(&mut sm, 4, 99, Some(0), 8), -(EINVAL as isize));
    let mut p = Process::new(4, 1, v("/"));
    assert_eq!(sys_umask(&mut p, 0o7077), 0o022);
    assert_eq!(p.umask, 0o077);
}

#[test]
fn fork_copies_process_and_signal_state() {
    let mut sm = SignalManager::new();
    let act = SigAction { sa_handler: 0x4000, sa_flags: 0, sa_restorer: 0, sa_mask: 0 };
    sm.set_action(3, SIGUSR1, act).unwrap();
    sm.set_procmask(3, SIG_BLOCK, 1 << 1).unwrap();
    let mut parent = Process::new(3, 1, v("/home"));
    parent.uid = 1000;
    parent.fds.push(Some(0));
    let mut pids = PidAllocator::new();
    let (pid, child) = sys_fork(&parent, &mut pids, &vec![3], &mut sm, None).unwrap();
    assert_eq!(pid, 1);
    assert_eq!((child.pid, child.ppid, child.uid), (1, 3, 1000));
    assert_eq!(child.cwd, v("/home"));
    assert_eq!(child.fds, parent.fds);
    assert!(child.has_started);
    assert_eq!(sm.get_action(1, SIGUSR1), act);
    assert_eq!(sm.get_procmask(1), 1 << 1);
    inherit_signal_state(&mut sm, 3, 3);
    assert_eq!(sm.get_action(3, SIGUSR1), act);
}

#[test]
fn decode_and_complete_syscalls() {
    let mut r = SyscallRegisters {
        r15: 0, r14: 0, r13: 0, r12: 0, rbp: 0, rbx: 0, r9: 0, r8: 0,
        r10: 0x22, rdx: 3, rsi: 0x2000, rdi: 0, rax: SYS_MMAP, rcx: 0x400000, r11: 0x202, rsp: 0x7000,
    };
    assert_eq!(decode_syscall(&r), Syscall::Mmap { addr: 0, length: 0x2000, prot: 3, flags: 0x22 });
    r.rax = SYS_READ;
    r.rdi = 0xFFFF_FFFF_0000_0003;
    assert_eq!(decode_syscall(&r), Syscall::Read { fd: 3, buf: 0x2000, count: 3 });
    r.rax = SYS_OPEN;
    assert_eq!(decode_syscall(&r), Syscall::Open { path: 0xFFFF_FFFF_0000_0003, flags: 0x2000, mode: 3 });
    r.rax = SYS_GETPID;
    assert_eq!(decode_syscall(&r), Syscall::Getpid);
    r.rax = 115;
    assert_eq!(decode_syscall(&r), Syscall::Seteuid { euid: 3 });
    r.rax = 116;
    assert_eq!(decode_syscall(&r), Syscall::Setegid { egid: 3 });
    r.rax = 35;
    assert_eq!(decode_syscall(&r), Syscall::Nanosleep { req: 0xFFFF_FFFF_0000_0003, rem: 0x2000 });
    r.rax = 12;
    assert_eq!(decode_syscall(&r), Syscall::Brk { addr: 0xFFFF_FFFF_0000_0003 });
    r.rax = 16;
    assert_eq!(decode_syscall(&r), Syscall::Ioctl { fd: 3, request: 0x2000, arg: 3 });
    r.rax = 84;
    assert_eq!(decode_syscall(&r), Syscall::Rmdir { path: 0xFFFF_FFFF_0000_0003 });
    r.rax = 213;
    assert_eq!(decode_syscall(&r), Syscall::EpollCreate { size: 3 });
    r.rax = 228;
    assert_eq!(decode_syscall(&r), Syscall::ClockGettime { clock: 3, tp: 0x2000 });
    r.rax = 293;
    assert_eq!(decode_syscall(&r), Syscall::Pipe2 { pipefd: 0xFFFF_FFFF_0000_0003, flags: 0x2000 });
    r.rax = 500;
    assert_eq!(decode_syscall(&r), Syscall::Unsupported);
    assert_eq!(unsupported_result(), -(ENOSYS as isize));
    assert_eq!(complete_syscall(&mut r, SYS_READ, -2), (-2isize) as usize);
    assert_eq!(r.rax, (-2isize) as usize);
    r.rax = 7;
    assert_eq!(complete_syscall(&mut r, SYS_RT_SIGRETURN, 0), 7);
    enter_new_image(&mut r, 0x401000, 0x7FFF_0000);
    assert_eq!((r.rcx, r.rsp), (0x401000, 0x7FFF_0000));
    assert_eq!(map_user_error(UserAccessError::TooLong), kernel::abi::ENAMETOOLONG);
    assert_eq!(map_user_error(UserAccessError::NotMapped), kernel::abi::EFAULT);
}

#[test]
fn special_inodes_report_their_kind() {
    let mut fs = RamFs::new();
    let ino = fs.new_special(FileType::CharacterDevice, 1, 0o020666);
    assert_eq!(
        fs.kind_of(ino),
        InodeKind::Special { file_type: FileType::CharacterDevice, id: 1, st_mode: 0o020666 }
    );
}

#[test]
fn rmdir_removes_only_empty_directories() {
    let (mut vfs, _proc, mut audit) = setup();
    assert_eq!(sys_mkdir(&mut vfs, &mut audit, 3, &v("/"), 5, 7, 8, 0o022, &v("/tmp/d"), 0o777), 0);
    assert_eq!(sys_rmdir(&mut vfs, &v("/"), &v("/etc")), -(ENOTEMPTY as isize));
    assert_eq!(sys_rmdir(&mut vfs, &v("/"), &v("/etc/motd")), -(ENOTDIR as isize));
    assert_eq!(sys_rmdir(&mut vfs, &v("/"), &v("/tmp/none")), -(ENOENT as isize));
    assert_eq!(sys_rmdir(&mut vfs, &v("/tmp"), &v("d")), 0);
    let root = vfs.root.unwrap();
    let tmp = vfs.fs.lookup(root, &v("tmp")).unwrap();
    assert_eq!(vfs.fs.lookup(tmp, &v("d")), Err(ENOENT));
    assert_eq!(sys_rmdir(&mut vfs, &v("/"), &v("/tmp/d")), -(ENOENT as isize));
}

#[test]
fn pipe2_checks_its_flags() {
    let (mut vfs, mut proc, _audit) = setup();
    assert_eq!(sys_pipe2(&mut vfs, &mut proc, 4, 1), Err(EINVAL));
    assert_eq!(proc.fds.len(), 0);
    assert_eq!(sys_pipe2(&mut vfs, &mut proc, 4, O_NONBLOCK | O_CLOEXEC), Ok((0, 1)));
    assert_eq!(vfs.files[0].flags, O_RDONLY | O_NONBLOCK);
    assert_eq!(vfs.files[1].flags, O_WRONLY | O_NONBLOCK);
    assert_eq!(sys_pipe2(&mut vfs, &mut proc, 5, 0), Ok((2, 3)));
    assert_eq!(vfs.files[2].flags, O_RDONLY);
}

#[test]
fn epoll_create_needs_a_positive_size() {
    let (mut vfs, mut proc, _audit) = setup();
    assert_eq!(sys_epoll_create(&mut vfs, &mut proc, 2, 0), -(EINVAL as isize));
    assert_eq!(sys_epoll_create(&mut vfs, &mut proc, 2, -5), -(EINVAL as isize));
    assert_eq!(sys_epoll_create(&mut vfs, &mut proc, 2, 1), 0);
    assert_eq!(epoll_target(&vfs, &proc, 0), Ok(2));
}

#[test]
fn ioctl_answers_on_the_console_only() {
    let (mut vfs, mut proc, mut audit) = setup();
    let root = vfs.root.unwrap();
    let dev = vfs.fs.create_dir(root, &v("dev"), 0o755, 0, 0).unwrap();
    let console = vfs.fs.new_special(FileType::CharacterDevice, 2, 0o020666);
    vfs.fs.add_child(dev, &v("console"), console);
    let fd = sys_open(&mut vfs, &mut proc, &mut audit, 0, &v("/dev/console"), O_RDWR, 0) as i32;
    assert_eq!(sys_ioctl(&vfs, &proc, fd, TIOCGWINSZ, 2), IoctlReply::Winsize { rows: 25, cols: 80 });
    assert_eq!(sys_ioctl(&vfs, &proc, fd, TCGETS, 2), IoctlReply::Termios { lflag: 0o12 });
    assert_eq!(sys_ioctl(&vfs, &proc, fd, TCSETS, 2), IoctlReply::Done);
    assert_eq!(sys_ioctl(&vfs, &proc, fd, TCSETSF, 2), IoctlReply::Done);
    assert_eq!(sys_ioctl(&vfs, &proc, fd, 0x9999, 2), IoctlReply::Failed(EINVAL));
    // Another character device is no terminal.
    assert_eq!(sys_ioctl(&vfs, &proc, fd, TIOCGWINSZ, 7), IoctlReply::Failed(ENOTTY));
    let motd = sys_open(&mut vfs, &mut proc, &mut audit, 0, &v("/etc/motd"), O_RDONLY, 0) as i32;
    assert_eq!(sys_ioctl(&vfs, &proc, motd, TIOCGWINSZ, 2), IoctlReply::Failed(ENOTTY));
    assert_eq!(sys_ioctl(&vfs, &proc, 42, TIOCGWINSZ, 2), IoctlReply::Failed(EBADF));
}

#[test]
fn clock_gettime_counts_timer_ticks() {
    assert_eq!(sys_clock_gettime(CLOCK_MONOTONIC, 0), Ok((0, 0)));
    assert_eq!(sys_clock_gettime(CLOCK_REALTIME, 1234), Ok((12, 340_000_000)));
    assert_eq!(sys_clock_gettime(5, 1234), Err(EINVAL));
}

#[test]
fn nanosleep_rounds_up_to_ticks() {
    assert_eq!(sys_nanosleep(0, 1), Ok(1));
    assert_eq!(sys_nanosleep(1, 0), Ok(100));
    assert_eq!(sys_nanosleep(2, 10_000_000), Ok(201));
    assert_eq!(sys_nanosleep(0, 0), Ok(0));
    assert_eq!(sys_nanosleep(-1, 0), Err(EINVAL));
    assert_eq!(sys_nanosleep(0, 1_000_000_000), Err(EINVAL));
    assert_eq!(sys_nanosleep(i64::MAX, 0), Ok(u64::MAX));
}

#[test]
fn brk_moves_within_its_window() {
    let mut p = Process::new(4, 1, v("/"));
    p.exec_image(VmSpace::new(0x1000), 0x401000, 0x7FFF_0000, 0x60_0000);
    assert_eq!(sys_brk(&p, 0), None);
    assert_eq!(sys_brk_commit(&mut p, None), 0x60_0000);
    assert_eq!(sys_brk(&p, 0x60_2000), Some(0x60_2000));
    assert_eq!(sys_brk_commit(&mut p, Some(0x60_2000)), 0x60_2000);
    assert_eq!(p.brk, 0x60_2000);
    assert_eq!(sys_brk(&p, 0x60_0000 + BRK_MAX + 1), None);
    assert_eq!(sys_brk(&p, 0x60_0000 + BRK_MAX), Some(0x60_0000 + BRK_MAX));
    assert_eq!(sys_brk(&p, 0x5F_0000), None);
}

#[test]
fn user_paths_must_be_utf8() {
    assert_eq!(check_user_path(v("/etc/motd")), Ok(v("/etc/motd")));
    assert_eq!(check_user_path(vec![b'/', 0xC3, 0xA9]), Ok(vec![b'/', 0xC3, 0xA9]));
    assert_eq!(check_user_path(vec![b'/', 0xFF]), Err(EINVAL));
    assert_eq!(check_user_path(vec![0xC3]), Err(EINVAL));
}

#[test]
fn every_listed_syscall_number_decodes() {
    let listed: [usize; 56] = [
        0, 1, 2, 3, 4, 5, 8, 9, 10, 11, 12, 13, 14, 15, 16, 22, 32, 33, 35, 39, 57, 59, 60, 61, 62, 63, 79,
        80, 82, 83, 84, 87, 95, 99, 102, 104, 105, 106, 107, 108, 110, 115, 116, 117, 118, 119, 120, 213,
        217, 228, 232, 233, 291, 293, 301, 302,
    ];
    let mut r = SyscallRegisters {
        r15: 0, r14: 0, r13: 0, r12: 0, rbp: 0, rbx: 0, r9: 0, r8: 0,
        r10: 0, rdx: 0, rsi: 0, rdi: 0, rax: 0, rcx: 0, r11: 0, rsp: 0,
    };
    for nr in listed {
        r.rax = nr;
        assert_ne!(decode_syscall(&r), Syscall::Unsupported, "syscall {}", nr);
    }
}

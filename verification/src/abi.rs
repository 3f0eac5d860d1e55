//! Numbers of the POSIX / Linux x86-64 system-call ABI used by the kernel.

use vstd::prelude::*;

verus! {

/// Operation not permitted.
pub const EPERM: i32 = 1;
/// No such file or directory.
pub const ENOENT: i32 = 2;
/// No such process.
pub const ESRCH: i32 = 3;
/// Interrupted system call.
pub const EINTR: i32 = 4;
/// Argument list too long.
pub const E2BIG: i32 = 7;
/// Exec format error.
pub const ENOEXEC: i32 = 8;
/// Bad file descriptor.
pub const EBADF: i32 = 9;
/// No child processes.
pub const ECHILD: i32 = 10;
/// Try again.
pub const EAGAIN: i32 = 11;
/// Out of memory.
pub const ENOMEM: i32 = 12;
/// Permission denied.
pub const EACCES: i32 = 13;
/// Bad address.
pub const EFAULT: i32 = 14;
/// File exists.
pub const EEXIST: i32 = 17;
/// Cross-device link.
pub const EXDEV: i32 = 18;
/// No such device.
pub const ENODEV: i32 = 19;
/// Not a directory.
pub const ENOTDIR: i32 = 20;
/// Is a directory.
pub const EISDIR: i32 = 21;
/// Invalid argument.
pub const EINVAL: i32 = 22;
/// Broken pipe.
pub const EPIPE: i32 = 32;
/// Result out of range.
pub const ERANGE: i32 = 34;
/// File name too long.
pub const ENAMETOOLONG: i32 = 36;
/// Function not implemented.
pub const ENOSYS: i32 = 38;
/// Directory not empty.
pub const ENOTEMPTY: i32 = 39;
pub const ENOTTY: i32 = 25;

/// Open for reading only.
pub const O_RDONLY: i32 = 0;
/// Open for writing only.
pub const O_WRONLY: i32 = 1;
/// Open for reading and writing.
pub const O_RDWR: i32 = 2;
/// Create the file if it does not exist.
pub const O_CREAT: i32 = 0o100;
/// Fail if the file exists (with `O_CREAT`).
pub const O_EXCL: i32 = 0o200;
/// Truncate the file on open.
pub const O_TRUNC: i32 = 0o1000;
/// Append on every write.
pub const O_APPEND: i32 = 0o2000;
/// Non-blocking I/O.
pub const O_NONBLOCK: i32 = 0o4000;
pub const O_CLOEXEC: i32 = 0o2000000;

/// Seek relative to the start of the file.
pub const SEEK_SET: i32 = 0;
/// Seek relative to the current offset.
pub const SEEK_CUR: i32 = 1;
/// Seek relative to the end of the file.
pub const SEEK_END: i32 = 2;

/// Page may be read.
pub const PROT_READ: u32 = 1;
/// Page may be written.
pub const PROT_WRITE: u32 = 2;
/// Page may be executed.
pub const PROT_EXEC: u32 = 4;

/// File type mask of `st_mode`.
pub const S_IFMT: u32 = 0o170000;
/// Directory file type.
pub const S_IFDIR: u32 = 0o040000;
/// Character device file type.
pub const S_IFCHR: u32 = 0o020000;
/// Regular file type.
pub const S_IFREG: u32 = 0o100000;
/// FIFO file type.
pub const S_IFIFO: u32 = 0o010000;
/// Owner read permission.
pub const S_IRUSR: u32 = 0o400;
/// Owner write permission.
pub const S_IWUSR: u32 = 0o200;
/// Group read permission.
pub const S_IRGRP: u32 = 0o040;
/// Group write permission.
pub const S_IWGRP: u32 = 0o020;
/// Others read permission.
pub const S_IROTH: u32 = 0o004;
/// Others write permission.
pub const S_IWOTH: u32 = 0o002;

/// Directory entry type: FIFO.
pub const DT_FIFO: u8 = 1;
/// Directory entry type: character device.
pub const DT_CHR: u8 = 2;
/// Directory entry type: directory.
pub const DT_DIR: u8 = 4;
/// Directory entry type: regular file.
pub const DT_REG: u8 = 8;

/// Smallest valid signal number.
pub const SIG_MIN: i32 = 1;
/// Largest valid signal number.
pub const SIG_MAX: i32 = 31;
/// Hangup.
pub const SIGHUP: i32 = 1;
/// Interrupt.
pub const SIGINT: i32 = 2;
/// Kill (cannot be caught, blocked or ignored).
pub const SIGKILL: i32 = 9;
/// Segmentation violation.
pub const SIGSEGV: i32 = 11;
/// Broken pipe.
pub const SIGPIPE: i32 = 13;
/// Termination request.
pub const SIGTERM: i32 = 15;
/// Child stopped or terminated.
pub const SIGCHLD: i32 = 17;
/// Continue if stopped.
pub const SIGCONT: i32 = 18;
/// Stop (cannot be caught, blocked or ignored).
pub const SIGSTOP: i32 = 19;
/// Terminal stop.
pub const SIGTSTP: i32 = 20;
/// Background read from the terminal.
pub const SIGTTIN: i32 = 21;
/// Background write to the terminal.
pub const SIGTTOU: i32 = 22;
/// Urgent condition on a socket.
pub const SIGURG: i32 = 23;
/// Window size change.
pub const SIGWINCH: i32 = 28;

/// Block the signals of the given set.
pub const SIG_BLOCK: i32 = 0;
/// Unblock the signals of the given set.
pub const SIG_UNBLOCK: i32 = 1;
/// Replace the blocked set.
pub const SIG_SETMASK: i32 = 2;

/// Default signal disposition.
pub const SIG_DFL: usize = 0;
/// Ignore the signal.
pub const SIG_IGN: usize = 1;
/// Do not block the signal while its handler runs.
pub const SA_NODEFER: u64 = 0x4000_0000;
/// Reset the disposition to the default once the handler is entered.
pub const SA_RESETHAND: u64 = 0x8000_0000;

/// `waitpid` option: return at once if no child has exited.
pub const WNOHANG: i32 = 1;

/// Readiness for reading.
pub const EPOLLIN: u32 = 0x001;
/// Readiness for writing.
pub const EPOLLOUT: u32 = 0x004;
/// Error condition.
pub const EPOLLERR: u32 = 0x008;
/// Hang up.
pub const EPOLLHUP: u32 = 0x010;
/// Register a descriptor in an epoll interest list.
pub const EPOLL_CTL_ADD: i32 = 1;
/// Remove a descriptor from an epoll interest list.
pub const EPOLL_CTL_DEL: i32 = 2;
/// Change the events of a registered descriptor.
pub const EPOLL_CTL_MOD: i32 = 3;

/// Terminal: echo input characters.
pub const ECHO: u32 = 0o10;
/// Terminal: canonical (line-buffered) input.
pub const ICANON: u32 = 0o2;
/// Terminal: generate signals on special characters.
pub const ISIG: u32 = 0o1;

/// Auxiliary vector terminator.
pub const AT_NULL: u64 = 0;
/// Address of the program headers.
pub const AT_PHDR: u64 = 3;
/// Size of one program header entry.
pub const AT_PHENT: u64 = 4;
/// Number of program headers.
pub const AT_PHNUM: u64 = 5;
/// System page size.
pub const AT_PAGESZ: u64 = 6;
/// Program entry point.
pub const AT_ENTRY: u64 = 9;

/// Audit event: action requested by a user program.
pub const AUDIT_TYPE_USER_ACTION: u32 = 1;
/// Audit event: a process was spawned.
pub const AUDIT_TYPE_PROCESS_SPAWN: u32 = 2;
/// Audit event: a process exited.
pub const AUDIT_TYPE_PROCESS_EXIT: u32 = 3;
/// Audit event: a file was created.
pub const AUDIT_TYPE_FILE_CREATE: u32 = 4;
/// Audit event: a file was modified or renamed.
pub const AUDIT_TYPE_FILE_MODIFY: u32 = 5;
/// Audit event: a file was unlinked.
pub const AUDIT_TYPE_FILE_UNLINK: u32 = 6;
/// Audit event: a directory was created.
pub const AUDIT_TYPE_DIR_CREATE: u32 = 7;
/// Audit event: the working directory changed.
pub const AUDIT_TYPE_DIR_CHANGE: u32 = 8;
/// Audit event: a system snapshot was taken.
pub const AUDIT_TYPE_SNAPSHOT_CREATED: u32 = 9;
/// Audit event: a security alert.
pub const AUDIT_TYPE_SECURITY_ALERT: u32 = 10;

/// System-call numbers (`rax` on `syscall`).
pub const SYS_READ: usize = 0;
pub const SYS_WRITE: usize = 1;
pub const SYS_OPEN: usize = 2;
pub const SYS_CLOSE: usize = 3;
pub const SYS_STAT: usize = 4;
pub const SYS_FSTAT: usize = 5;
pub const SYS_LSEEK: usize = 8;
pub const SYS_MMAP: usize = 9;
pub const SYS_MPROTECT: usize = 10;
pub const SYS_MUNMAP: usize = 11;
pub const SYS_RT_SIGACTION: usize = 13;
pub const SYS_RT_SIGPROCMASK: usize = 14;
pub const SYS_RT_SIGRETURN: usize = 15;
pub const SYS_PIPE: usize = 22;
pub const SYS_BRK: usize = 12;
pub const SYS_IOCTL: usize = 16;
pub const SYS_RMDIR: usize = 84;
pub const SYS_EPOLL_CREATE: usize = 213;
pub const SYS_CLOCK_GETTIME: usize = 228;
pub const SYS_PIPE2: usize = 293;
pub const SYS_DUP: usize = 32;
pub const SYS_DUP2: usize = 33;
pub const SYS_NANOSLEEP: usize = 35;
pub const SYS_GETPID: usize = 39;
pub const SYS_FORK: usize = 57;
pub const SYS_EXECVE: usize = 59;
pub const SYS_EXIT: usize = 60;
pub const SYS_WAIT4: usize = 61;
pub const SYS_KILL: usize = 62;
pub const SYS_UNAME: usize = 63;
pub const SYS_GETCWD: usize = 79;
pub const SYS_CHDIR: usize = 80;
pub const SYS_RENAME: usize = 82;
pub const SYS_MKDIR: usize = 83;
pub const SYS_UNLINK: usize = 87;
pub const SYS_UMASK: usize = 95;
pub const SYS_SYSINFO: usize = 99;
pub const SYS_GETUID: usize = 102;
pub const SYS_GETGID: usize = 104;
pub const SYS_SETUID: usize = 105;
pub const SYS_SETGID: usize = 106;
pub const SYS_GETEUID: usize = 107;
pub const SYS_GETEGID: usize = 108;
pub const SYS_GETPPID: usize = 110;
pub const SYS_SETEUID: usize = 115;
pub const SYS_SETEGID: usize = 116;
pub const SYS_SETRESUID: usize = 117;
pub const SYS_GETRESUID: usize = 118;
pub const SYS_SETRESGID: usize = 119;
pub const SYS_GETRESGID: usize = 120;
pub const SYS_GETDENTS64: usize = 217;
pub const SYS_EPOLL_WAIT: usize = 232;
pub const SYS_EPOLL_CTL: usize = 233;
pub const SYS_EPOLL_CREATE1: usize = 291;
pub const SYS_AUDIT_LOG: usize = 301;
pub const SYS_AUDIT_SNAPSHOT: usize = 302;

/// `ioctl` requests on a terminal.
pub const TCGETS: usize = 0x5401;
pub const TCSETS: usize = 0x5402;
pub const TCSETSW: usize = 0x5403;
pub const TCSETSF: usize = 0x5404;
pub const TIOCGWINSZ: usize = 0x5413;
/// Clocks `clock_gettime` knows.
pub const CLOCK_REALTIME: i32 = 0;
pub const CLOCK_MONOTONIC: i32 = 1;

} // verus!

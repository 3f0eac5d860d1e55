//! The POSIX system-call layer: argument checks and the policy each call
//! applies to the kernel's state, and the decoding of the call registers.

pub mod fs;
pub mod mem;
pub mod system;
pub mod process;

use vstd::prelude::*;
use crate::abi::{
    SYS_AUDIT_LOG, SYS_AUDIT_SNAPSHOT, SYS_BRK, SYS_CHDIR, SYS_CLOCK_GETTIME, SYS_EPOLL_CREATE, SYS_IOCTL, SYS_NANOSLEEP, SYS_PIPE2, SYS_RMDIR, SYS_CLOSE, SYS_DUP, SYS_DUP2, SYS_EPOLL_CREATE1, SYS_EPOLL_CTL, SYS_EPOLL_WAIT, SYS_EXECVE, SYS_EXIT, SYS_FORK, SYS_FSTAT, SYS_GETCWD, SYS_GETDENTS64, SYS_GETEGID, SYS_GETEUID, SYS_GETGID, SYS_GETPID, SYS_GETPPID, SYS_GETRESGID, SYS_GETRESUID, SYS_GETUID, SYS_KILL, SYS_LSEEK, SYS_MKDIR, SYS_MMAP, SYS_MPROTECT, SYS_MUNMAP, SYS_OPEN, SYS_PIPE, SYS_READ, SYS_RENAME, SYS_RT_SIGACTION, SYS_RT_SIGPROCMASK, SYS_RT_SIGRETURN, SYS_SETEGID, SYS_SETEUID, SYS_SETGID, SYS_SETRESGID, SYS_SETRESUID, SYS_SETUID, SYS_STAT, SYS_SYSINFO, SYS_UMASK, SYS_UNAME, SYS_UNLINK, SYS_WAIT4, SYS_WRITE, EFAULT, EINVAL, ENAMETOOLONG, ENOSYS,
};
use crate::arch::frames::SyscallRegisters;
use crate::vfs::tar::{is_utf8, utf8_valid};

verus! {

/// A system call as decoded from the call registers: the number in `rax`,
/// arguments in `rdi`, `rsi`, `rdx` and `r10`, each cast to the type the
/// call takes (integers narrowed by truncation). Pointer arguments stay
/// user addresses.
#[derive(Debug, Clone, Copy, PartialEq, Eq, Structural)]
pub enum Syscall {
    Read { fd: i32, buf: usize, count: usize },
    Write { fd: i32, buf: usize, count: usize },
    Open { path: usize, flags: i32, mode: u32 },
    Close { fd: i32 },
    Stat { path: usize, statbuf: usize },
    Fstat { fd: i32, statbuf: usize },
    Lseek { fd: i32, offset: i64, whence: i32 },
    Mmap { addr: usize, length: usize, prot: i32, flags: i32 },
    Mprotect { addr: usize, length: usize, prot: i32 },
    Munmap { addr: usize, length: usize },
    RtSigaction { sig: i32, act: usize, oldact: usize, sigsetsize: usize },
    RtSigprocmask { how: i32, set: usize, oldset: usize, sigsetsize: usize },
    RtSigreturn,
    Pipe { pipefd: usize },
    Pipe2 { pipefd: usize, flags: i32 },
    Brk { addr: usize },
    Ioctl { fd: i32, request: usize, arg: usize },
    Nanosleep { req: usize, rem: usize },
    Rmdir { path: usize },
    EpollCreate { size: i32 },
    ClockGettime { clock: i32, tp: usize },
    Dup { oldfd: i32 },
    Dup2 { oldfd: i32, newfd: i32 },
    Fork,
    Execve { path: usize, argv: usize, envp: usize },
    Exit { code: i32 },
    Wait4 { pid: i32, status: usize, options: i32 },
    Kill { pid: i32, sig: i32 },
    Getpid,
    Getppid,
    Getuid,
    Getgid,
    Geteuid,
    Getegid,
    Setuid { uid: u32 },
    Setgid { gid: u32 },
    Seteuid { euid: u32 },
    Setegid { egid: u32 },
    Setresuid { ruid: u32, euid: u32, suid: u32 },
    Getresuid { ruid: usize, euid: usize, suid: usize },
    Setresgid { rgid: u32, egid: u32, sgid: u32 },
    Getresgid { rgid: usize, egid: usize, sgid: usize },
    Umask { mask: u32 },
    Uname { buf: usize },
    Getcwd { buf: usize, size: usize },
    Chdir { path: usize },
    Mkdir { path: usize, mode: u32 },
    Unlink { path: usize },
    Rename { oldpath: usize, newpath: usize },
    Getdents64 { fd: i32, dirp: usize, count: usize },
    Sysinfo { info: usize },
    EpollCreate1 { flags: i32 },
    EpollCtl { epfd: i32, op: i32, fd: i32, event: usize },
    EpollWait { epfd: i32, events: usize, maxevents: i32, timeout: i32 },
    AuditLog { event_type: u32, target: usize, details: usize },
    AuditSnapshot { label: usize, flags: u32 },
    /// A number the kernel does not serve (`nanosleep` among them): `ENOSYS`.
    Unsupported,
}

/// The call that registers `nr`, `a1` .. `a4` encode.
pub open spec fn spec_decode(nr: usize, a1: usize, a2: usize, a3: usize, a4: usize) -> Syscall {
    if nr == SYS_READ { Syscall::Read { fd: a1 as i32, buf: a2, count: a3 } }
    else if nr == SYS_WRITE { Syscall::Write { fd: a1 as i32, buf: a2, count: a3 } }
    else if nr == SYS_OPEN { Syscall::Open { path: a1, flags: a2 as i32, mode: a3 as u32 } }
    else if nr == SYS_CLOSE { Syscall::Close { fd: a1 as i32 } }
    else if nr == SYS_STAT { Syscall::Stat { path: a1, statbuf: a2 } }
    else if nr == SYS_FSTAT { Syscall::Fstat { fd: a1 as i32, statbuf: a2 } }
    else if nr == SYS_LSEEK { Syscall::Lseek { fd: a1 as i32, offset: a2 as i64, whence: a3 as i32 } }
    else if nr == SYS_MMAP { Syscall::Mmap { addr: a1, length: a2, prot: a3 as i32, flags: a4 as i32 } }
    else if nr == SYS_MPROTECT { Syscall::Mprotect { addr: a1, length: a2, prot: a3 as i32 } }
    else if nr == SYS_MUNMAP { Syscall::Munmap { addr: a1, length: a2 } }
    else if nr == SYS_RT_SIGACTION { Syscall::RtSigaction { sig: a1 as i32, act: a2, oldact: a3, sigsetsize: a4 } }
    else if nr == SYS_RT_SIGPROCMASK { Syscall::RtSigprocmask { how: a1 as i32, set: a2, oldset: a3, sigsetsize: a4 } }
    else if nr == SYS_RT_SIGRETURN { Syscall::RtSigreturn }
    else if nr == SYS_PIPE { Syscall::Pipe { pipefd: a1 } }
    else if nr == SYS_PIPE2 { Syscall::Pipe2 { pipefd: a1, flags: a2 as i32 } }
    else if nr == SYS_BRK { Syscall::Brk { addr: a1 } }
    else if nr == SYS_IOCTL { Syscall::Ioctl { fd: a1 as i32, request: a2, arg: a3 } }
    else if nr == SYS_NANOSLEEP { Syscall::Nanosleep { req: a1, rem: a2 } }
    else if nr == SYS_RMDIR { Syscall::Rmdir { path: a1 } }
    else if nr == SYS_EPOLL_CREATE { Syscall::EpollCreate { size: a1 as i32 } }
    else if nr == SYS_CLOCK_GETTIME { Syscall::ClockGettime { clock: a1 as i32, tp: a2 } }
    else if nr == SYS_DUP { Syscall::Dup { oldfd: a1 as i32 } }
    else if nr == SYS_DUP2 { Syscall::Dup2 { oldfd: a1 as i32, newfd: a2 as i32 } }
    else if nr == SYS_FORK { Syscall::Fork }
    else if nr == SYS_EXECVE { Syscall::Execve { path: a1, argv: a2, envp: a3 } }
    else if nr == SYS_EXIT { Syscall::Exit { code: a1 as i32 } }
    else if nr == SYS_WAIT4 { Syscall::Wait4 { pid: a1 as i32, status: a2, options: a3 as i32 } }
    else if nr == SYS_KILL { Syscall::Kill { pid: a1 as i32, sig: a2 as i32 } }
    else if nr == SYS_GETPID { Syscall::Getpid }
    else if nr == SYS_GETPPID { Syscall::Getppid }
    else if nr == SYS_GETUID { Syscall::Getuid }
    else if nr == SYS_GETGID { Syscall::Getgid }
    else if nr == SYS_GETEUID { Syscall::Geteuid }
    else if nr == SYS_GETEGID { Syscall::Getegid }
    else if nr == SYS_SETUID { Syscall::Setuid { uid: a1 as u32 } }
    else if nr == SYS_SETGID { Syscall::Setgid { gid: a1 as u32 } }
    else if nr == SYS_SETEUID { Syscall::Seteuid { euid: a1 as u32 } }
    else if nr == SYS_SETEGID { Syscall::Setegid { egid: a1 as u32 } }
    else if nr == SYS_SETRESUID { Syscall::Setresuid { ruid: a1 as u32, euid: a2 as u32, suid: a3 as u32 } }
    else if nr == SYS_GETRESUID { Syscall::Getresuid { ruid: a1, euid: a2, suid: a3 } }
    else if nr == SYS_SETRESGID { Syscall::Setresgid { rgid: a1 as u32, egid: a2 as u32, sgid: a3 as u32 } }
    else if nr == SYS_GETRESGID { Syscall::Getresgid { rgid: a1, egid: a2, sgid: a3 } }
    else if nr == SYS_UMASK { Syscall::Umask { mask: a1 as u32 } }
    else if nr == SYS_UNAME { Syscall::Uname { buf: a1 } }
    else if nr == SYS_GETCWD { Syscall::Getcwd { buf: a1, size: a2 } }
    else if nr == SYS_CHDIR { Syscall::Chdir { path: a1 } }
    else if nr == SYS_MKDIR { Syscall::Mkdir { path: a1, mode: a2 as u32 } }
    else if nr == SYS_UNLINK { Syscall::Unlink { path: a1 } }
    else if nr == SYS_RENAME { Syscall::Rename { oldpath: a1, newpath: a2 } }
    else if nr == SYS_GETDENTS64 { Syscall::Getdents64 { fd: a1 as i32, dirp: a2, count: a3 } }
    else if nr == SYS_SYSINFO { Syscall::Sysinfo { info: a1 } }
    else if nr == SYS_EPOLL_CREATE1 { Syscall::EpollCreate1 { flags: a1 as i32 } }
    else if nr == SYS_EPOLL_CTL { Syscall::EpollCtl { epfd: a1 as i32, op: a2 as i32, fd: a3 as i32, event: a4 } }
    else if nr == SYS_EPOLL_WAIT { Syscall::EpollWait { epfd: a1 as i32, events: a2, maxevents: a3 as i32, timeout: a4 as i32 } }
    else if nr == SYS_AUDIT_LOG { Syscall::AuditLog { event_type: a1 as u32, target: a2, details: a3 } }
    else if nr == SYS_AUDIT_SNAPSHOT { Syscall::AuditSnapshot { label: a1, flags: a2 as u32 } }
    else { Syscall::Unsupported }
}

/// Decodes the system call the registers of a `syscall` entry hold.
pub fn decode_syscall(r: &SyscallRegisters) -> (s: Syscall)
    ensures
        s == spec_decode(r.rax, r.rdi, r.rsi, r.rdx, r.r10),
{
    let nr = r.rax;
    let a1 = r.rdi;
    let a2 = r.rsi;
    let a3 = r.rdx;
    let a4 = r.r10;
    if nr == SYS_READ { Syscall::Read { fd: a1 as i32, buf: a2, count: a3 } }
    else if nr == SYS_WRITE { Syscall::Write { fd: a1 as i32, buf: a2, count: a3 } }
    else if nr == SYS_OPEN { Syscall::Open { path: a1, flags: a2 as i32, mode: a3 as u32 } }
    else if nr == SYS_CLOSE { Syscall::Close { fd: a1 as i32 } }
    else if nr == SYS_STAT { Syscall::Stat { path: a1, statbuf: a2 } }
    else if nr == SYS_FSTAT { Syscall::Fstat { fd: a1 as i32, statbuf: a2 } }
    else if nr == SYS_LSEEK { Syscall::Lseek { fd: a1 as i32, offset: a2 as i64, whence: a3 as i32 } }
    else if nr == SYS_MMAP { Syscall::Mmap { addr: a1, length: a2, prot: a3 as i32, flags: a4 as i32 } }
    else if nr == SYS_MPROTECT { Syscall::Mprotect { addr: a1, length: a2, prot: a3 as i32 } }
    else if nr == SYS_MUNMAP { Syscall::Munmap { addr: a1, length: a2 } }
    else if nr == SYS_RT_SIGACTION { Syscall::RtSigaction { sig: a1 as i32, act: a2, oldact: a3, sigsetsize: a4 } }
    else if nr == SYS_RT_SIGPROCMASK { Syscall::RtSigprocmask { how: a1 as i32, set: a2, oldset: a3, sigsetsize: a4 } }
    else if nr == SYS_RT_SIGRETURN { Syscall::RtSigreturn }
    else if nr == SYS_PIPE { Syscall::Pipe { pipefd: a1 } }
    else if nr == SYS_PIPE2 { Syscall::Pipe2 { pipefd: a1, flags: a2 as i32 } }
    else if nr == SYS_BRK { Syscall::Brk { addr: a1 } }
    else if nr == SYS_IOCTL { Syscall::Ioctl { fd: a1 as i32, request: a2, arg: a3 } }
    else if nr == SYS_NANOSLEEP { Syscall::Nanosleep { req: a1, rem: a2 } }
    else if nr == SYS_RMDIR { Syscall::Rmdir { path: a1 } }
    else if nr == SYS_EPOLL_CREATE { Syscall::EpollCreate { size: a1 as i32 } }
    else if nr == SYS_CLOCK_GETTIME { Syscall::ClockGettime { clock: a1 as i32, tp: a2 } }
    else if nr == SYS_DUP { Syscall::Dup { oldfd: a1 as i32 } }
    else if nr == SYS_DUP2 { Syscall::Dup2 { oldfd: a1 as i32, newfd: a2 as i32 } }
    else if nr == SYS_FORK { Syscall::Fork }
    else if nr == SYS_EXECVE { Syscall::Execve { path: a1, argv: a2, envp: a3 } }
    else if nr == SYS_EXIT { Syscall::Exit { code: a1 as i32 } }
    else if nr == SYS_WAIT4 { Syscall::Wait4 { pid: a1 as i32, status: a2, options: a3 as i32 } }
    else if nr == SYS_KILL { Syscall::Kill { pid: a1 as i32, sig: a2 as i32 } }
    else if nr == SYS_GETPID { Syscall::Getpid }
    else if nr == SYS_GETPPID { Syscall::Getppid }
    else if nr == SYS_GETUID { Syscall::Getuid }
    else if nr == SYS_GETGID { Syscall::Getgid }
    else if nr == SYS_GETEUID { Syscall::Geteuid }
    else if nr == SYS_GETEGID { Syscall::Getegid }
    else if nr == SYS_SETUID { Syscall::Setuid { uid: a1 as u32 } }
    else if nr == SYS_SETGID { Syscall::Setgid { gid: a1 as u32 } }
    else if nr == SYS_SETEUID { Syscall::Seteuid { euid: a1 as u32 } }
    else if nr == SYS_SETEGID { Syscall::Setegid { egid: a1 as u32 } }
    else if nr == SYS_SETRESUID { Syscall::Setresuid { ruid: a1 as u32, euid: a2 as u32, suid: a3 as u32 } }
    else if nr == SYS_GETRESUID { Syscall::Getresuid { ruid: a1, euid: a2, suid: a3 } }
    else if nr == SYS_SETRESGID { Syscall::Setresgid { rgid: a1 as u32, egid: a2 as u32, sgid: a3 as u32 } }
    else if nr == SYS_GETRESGID { Syscall::Getresgid { rgid: a1, egid: a2, sgid: a3 } }
    else if nr == SYS_UMASK { Syscall::Umask { mask: a1 as u32 } }
    else if nr == SYS_UNAME { Syscall::Uname { buf: a1 } }
    else if nr == SYS_GETCWD { Syscall::Getcwd { buf: a1, size: a2 } }
    else if nr == SYS_CHDIR { Syscall::Chdir { path: a1 } }
    else if nr == SYS_MKDIR { Syscall::Mkdir { path: a1, mode: a2 as u32 } }
    else if nr == SYS_UNLINK { Syscall::Unlink { path: a1 } }
    else if nr == SYS_RENAME { Syscall::Rename { oldpath: a1, newpath: a2 } }
    else if nr == SYS_GETDENTS64 { Syscall::Getdents64 { fd: a1 as i32, dirp: a2, count: a3 } }
    else if nr == SYS_SYSINFO { Syscall::Sysinfo { info: a1 } }
    else if nr == SYS_EPOLL_CREATE1 { Syscall::EpollCreate1 { flags: a1 as i32 } }
    else if nr == SYS_EPOLL_CTL { Syscall::EpollCtl { epfd: a1 as i32, op: a2 as i32, fd: a3 as i32, event: a4 } }
    else if nr == SYS_EPOLL_WAIT { Syscall::EpollWait { epfd: a1 as i32, events: a2, maxevents: a3 as i32, timeout: a4 as i32 } }
    else if nr == SYS_AUDIT_LOG { Syscall::AuditLog { event_type: a1 as u32, target: a2, details: a3 } }
    else if nr == SYS_AUDIT_SNAPSHOT { Syscall::AuditSnapshot { label: a1, flags: a2 as u32 } }
    else { Syscall::Unsupported }
}

/// The return value of a call the kernel does not serve.
pub fn unsupported_result() -> (r: isize)
    ensures
        r == -(ENOSYS as isize),
{
    -(ENOSYS as isize)
}

/// Stores the result `ret` of call `nr` in `rax` (as its two's-complement
/// bits), except after `rt_sigreturn`, whose restored registers stand;
/// returns `rax`.
pub fn complete_syscall(r: &mut SyscallRegisters, nr: usize, ret: isize) -> (out: usize)
    ensures
        nr != SYS_RT_SIGRETURN ==> *final(r) == (SyscallRegisters { rax: ret as usize, ..*old(r) }),
        nr == SYS_RT_SIGRETURN ==> *final(r) == *old(r),
        out == final(r).rax,
{
    if nr != SYS_RT_SIGRETURN {
        r.rax = ret as usize;
    }
    r.rax
}

/// After a successful `execve`, `sysret` is to enter the new image: the
/// user RIP (`rcx`) becomes its entry point and `rsp` its stack top.
pub fn enter_new_image(r: &mut SyscallRegisters, entry_point: usize, user_stack_top: usize)
    ensures
        *final(r) == (SyscallRegisters { rcx: entry_point, rsp: user_stack_top, ..*old(r) }),
{
    r.rcx = entry_point;
    r.rsp = user_stack_top;
}

/// Why user memory could not be reached, as an errno: `ENAMETOOLONG` for a
/// string longer than the kernel buffer, `EFAULT` for everything else.
pub open spec fn user_errno(err: crate::mm::user::UserAccessError) -> i32 {
    if err == crate::mm::user::UserAccessError::TooLong { ENAMETOOLONG } else { EFAULT }
}

/// The errno for a failed user-memory access (`user_errno`).
pub fn map_user_error(err: crate::mm::user::UserAccessError) -> (r: i32)
    ensures
        r == user_errno(err),
{
    match err {
        crate::mm::user::UserAccessError::TooLong => ENAMETOOLONG,
        _ => EFAULT,
    }
}

/// A path argument copied in from user memory: its bytes when they are
/// valid UTF-8, else `EINVAL`.
pub fn check_user_path(bytes: Vec<u8>) -> (r: Result<Vec<u8>, i32>)
    ensures
        utf8_valid(bytes@) ==> (r matches Ok(b) && b@ == bytes@),
        !utf8_valid(bytes@) ==> r == Err::<Vec<u8>, i32>(EINVAL),
{
    if is_utf8(bytes.as_slice()) {
        Ok(bytes)
    } else {
        Err(EINVAL)
    }
}

} // verus!

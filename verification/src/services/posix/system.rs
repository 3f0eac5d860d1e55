//! System information and working-directory system calls.

use vstd::prelude::*;
use vstd::string::StringSliceAdditionalSpecFns;
use crate::abi::{AUDIT_TYPE_DIR_CHANGE, CLOCK_MONOTONIC, CLOCK_REALTIME, EINVAL, ENOTDIR, ERANGE};
use crate::services::audit::AuditState;
use crate::services::monitor::SystemMetricsSnapshot;
use crate::services::posix::fs::logged;
use crate::services::process::Process;
use crate::vfs::file::Vfs;
use crate::vfs::path::{normalize_path, resolve_path_with_cwd, spec_normalize, spec_resolve};
use crate::vfs::ramfs::{FileType, kind_file_type};

verus! {

/// Bytes in each field of `Utsname`.
pub const UTS_FIELD_LEN: usize = 65;

/// System identification returned by `uname`: NUL-padded fields.
pub struct Utsname {
    pub sysname: Vec<u8>,
    pub nodename: Vec<u8>,
    pub release: Vec<u8>,
    pub version: Vec<u8>,
    pub machine: Vec<u8>,
    pub domainname: Vec<u8>,
}

/// A `Utsname` field holding `s`, then zeros.
pub open spec fn uts_field(s: Seq<u8>) -> Seq<u8> {
    Seq::new(UTS_FIELD_LEN as nat, |j: int| if j < s.len() { s[j] } else { 0u8 })
}

fn make_field(s: &[u8]) -> (r: Vec<u8>)
    requires
        s@.len() <= UTS_FIELD_LEN,
    ensures
        r@ == uts_field(s@),
{
    let mut v: Vec<u8> = Vec::new();
    let mut i: usize = 0;
    while i < UTS_FIELD_LEN
        invariant
            i <= UTS_FIELD_LEN,
            s@.len() <= UTS_FIELD_LEN,
            v@.len() == i,
            forall|j: int| 0 <= j < i ==> v@[j] == (if j < s@.len() { s@[j] } else { 0u8 }),
        decreases UTS_FIELD_LEN - i,
    {
        if i < s.len() {
            v.push(s[i]);
        } else {
            v.push(0u8);
        }
        i += 1;
    }
    proof {
        assert(v@ =~= uts_field(s@));
    }
    v
}

/// `uname()`: system `RustPOSIX`, release `1.0.0-framekernel`, version
/// `POSIX.1-2024`, machine `x86_64`; node and domain names empty.
pub fn sys_uname() -> (r: Utsname)
    ensures
        r.sysname@ == uts_field("RustPOSIX".spec_bytes()),
        r.release@ == uts_field("1.0.0-framekernel".spec_bytes()),
        r.version@ == uts_field("POSIX.1-2024".spec_bytes()),
        r.machine@ == uts_field("x86_64".spec_bytes()),
        r.nodename@ == uts_field(Seq::empty()),
        r.domainname@ == uts_field(Seq::empty()),
{
    proof {
        reveal_strlit("RustPOSIX");
        reveal_strlit("1.0.0-framekernel");
        reveal_strlit("POSIX.1-2024");
        reveal_strlit("x86_64");
        reveal_strlit("");
        assert(vstd::string::is_ascii("RustPOSIX"));
        assert(vstd::string::is_ascii("1.0.0-framekernel"));
        assert(vstd::string::is_ascii("POSIX.1-2024"));
        assert(vstd::string::is_ascii("x86_64"));
        vstd::string::is_ascii_spec_bytes("RustPOSIX");
        vstd::string::is_ascii_spec_bytes("1.0.0-framekernel");
        vstd::string::is_ascii_spec_bytes("POSIX.1-2024");
        vstd::string::is_ascii_spec_bytes("x86_64");
    }
    let empty: &[u8] = "".as_bytes();
    proof {
        assert(empty@ =~= Seq::<u8>::empty());
    }
    Utsname {
        sysname: make_field("RustPOSIX".as_bytes()),
        nodename: make_field(empty),
        release: make_field("1.0.0-framekernel".as_bytes()),
        version: make_field("POSIX.1-2024".as_bytes()),
        machine: make_field("x86_64".as_bytes()),
        domainname: make_field(empty),
    }
}

/// System statistics returned by `sysinfo`.
#[derive(Debug, Clone, Copy)]
pub struct Sysinfo {
    pub uptime: i64,
    pub loads: [u64; 3],
    pub totalram: u64,
    pub freeram: u64,
    pub sharedram: u64,
    pub bufferram: u64,
    pub totalswap: u64,
    pub freeswap: u64,
    pub procs: u16,
    pub totalhigh: u64,
    pub freehigh: u64,
    pub mem_unit: u32,
}

/// `sysinfo()` from the last metrics sample: uptime in samples, RAM totals
/// in bytes (unit 1), the heap's total and used bytes in the buffer and
/// shared fields, the process count cut to 16 bits; everything else zero.
pub fn sys_sysinfo(mon: &SystemMetricsSnapshot) -> (r: Sysinfo)
    ensures
        r.uptime == mon.sample_tick as i64,
        r.totalram == mon.total_memory_bytes as u64,
        r.freeram == mon.free_memory_bytes as u64,
        r.bufferram == mon.total_heap_bytes as u64,
        r.sharedram == mon.used_heap_bytes as u64,
        r.procs == mon.total_processes as u16,
        r.mem_unit == 1,
        r.loads@ == seq![0u64, 0u64, 0u64],
        r.totalswap == 0 && r.freeswap == 0 && r.totalhigh == 0 && r.freehigh == 0,
{
    Sysinfo {
        uptime: mon.sample_tick as i64,
        loads: [0u64, 0u64, 0u64],
        totalram: mon.total_memory_bytes as u64,
        freeram: mon.free_memory_bytes as u64,
        sharedram: mon.used_heap_bytes as u64,
        bufferram: mon.total_heap_bytes as u64,
        totalswap: 0,
        freeswap: 0,
        procs: mon.total_processes as u16,
        totalhigh: 0,
        freehigh: 0,
        mem_unit: 1,
    }
}

/// `getcwd(size)`: the working directory `cwd` and a terminating NUL, for
/// a buffer of `size` bytes; `EINVAL` for a zero size, `ERANGE` when it
/// does not fit.
pub fn sys_getcwd(cwd: &Vec<u8>, size: usize) -> (r: Result<Vec<u8>, i32>)
    ensures
        size == 0 ==> r == Err::<Vec<u8>, i32>(EINVAL),
        size != 0 && cwd@.len() + 1 > size ==> r == Err::<Vec<u8>, i32>(ERANGE),
        size != 0 && cwd@.len() + 1 <= size ==> (r matches Ok(v) && v@ == cwd@.push(0u8)),
{
    if size == 0 {
        return Err(EINVAL);
    }
    if cwd.len() >= size {
        return Err(ERANGE);
    }
    let mut out = cwd.clone();
    out.push(0u8);
    Ok(out)
}

/// `chdir(path)`: the working directory of `proc` becomes `path`
/// normalised against it, when that resolves to a directory (else the
/// resolution's error, or `ENOTDIR`); the change is logged to the audit
/// journal (with user ID 0).
pub fn sys_chdir(vfs: &Vfs, proc: &mut Process, audit: &mut AuditState, ticks: u64, path: &Vec<u8>) -> (r: isize)
    requires
        vfs.wf(),
        old(audit).wf(),
        old(audit).journal.total_logged < u64::MAX,
    ensures
        final(audit).wf(),
        ({
            let target = spec_normalize(old(proc).cwd@, path@);
            match spec_resolve(vfs.fs, vfs.root, old(proc).cwd@, target) {
                Err(e) => r == -(e as isize) && *final(proc) == *old(proc) && *final(audit) == *old(audit),
                Ok(i) => if kind_file_type(vfs.fs.kind(i as int)) != FileType::Directory {
                    r == -(ENOTDIR as isize) && *final(proc) == *old(proc) && *final(audit) == *old(audit)
                } else {
                    &&& r == 0
                    &&& final(proc).cwd@ == target
                    &&& final(proc).fds == old(proc).fds
                    &&& final(proc).pid == old(proc).pid && final(proc).uid == old(proc).uid
                    &&& logged(*final(audit), ticks, old(proc).pid, 0, AUDIT_TYPE_DIR_CHANGE, 0, target,
                        "Working directory changed".spec_bytes())
                },
            }
        }),
{
    let target = normalize_path(&proc.cwd, path);
    let inode = match resolve_path_with_cwd(&vfs.fs, vfs.root, &proc.cwd, &target) {
        Ok(i) => i,
        Err(err) => return -(err as isize),
    };
    if vfs.fs.file_type(inode) != FileType::Directory {
        return -(ENOTDIR as isize);
    }
    let pid = proc.pid;
    let _ = audit.log_audit_event(ticks, pid, 0, AUDIT_TYPE_DIR_CHANGE, 0, target.as_slice(),
        "Working directory changed".as_bytes());
    proc.cwd = target;
    0
}

/// Nanoseconds in one timer tick (the timer runs at 100 Hz).
pub const NSEC_PER_TICK: u64 = 10_000_000;

/// `clock_gettime(clock)` after `ticks` timer ticks: for the real-time and
/// the monotonic clock, the seconds and nanoseconds since the timer
/// started; `EINVAL` for any other clock.
pub fn sys_clock_gettime(clock: i32, ticks: u64) -> (r: Result<(u64, u64), i32>)
    ensures
        clock == CLOCK_REALTIME || clock == CLOCK_MONOTONIC ==> r == Ok::<(u64, u64), i32>(
            ((ticks / 100) as u64, ((ticks % 100) * NSEC_PER_TICK) as u64)),
        !(clock == CLOCK_REALTIME || clock == CLOCK_MONOTONIC) ==> r == Err::<(u64, u64), i32>(EINVAL),
{
    if clock != CLOCK_REALTIME && clock != CLOCK_MONOTONIC {
        return Err(EINVAL);
    }
    Ok((ticks / 100, (ticks % 100) * NSEC_PER_TICK))
}

/// The timer ticks a `nanosleep` of `sec` seconds and `nsec` nanoseconds
/// lasts: the time rounded up to whole ticks (at most `u64::MAX`);
/// `EINVAL` for a negative time or `nsec` of a second or more.
pub fn sys_nanosleep(sec: i64, nsec: i64) -> (r: Result<u64, i32>)
    ensures
        (sec < 0 || nsec < 0 || nsec >= 1_000_000_000) ==> r == Err::<u64, i32>(EINVAL),
        !(sec < 0 || nsec < 0 || nsec >= 1_000_000_000) ==> {
            let t = sec * 100 + (nsec + NSEC_PER_TICK - 1) / (NSEC_PER_TICK as int);
            r == Ok::<u64, i32>(if t > u64::MAX { u64::MAX } else { t as u64 })
        },
{
    if sec < 0 || nsec < 0 || nsec >= 1_000_000_000 {
        return Err(EINVAL);
    }
    let part = ((nsec as u64) + (NSEC_PER_TICK - 1)) / NSEC_PER_TICK;
    let s = sec as u64;
    if s > (u64::MAX - part) / 100 {
        return Ok(u64::MAX);
    }
    Ok(s * 100 + part)
}

} // verus!

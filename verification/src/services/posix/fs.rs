//! File-system system calls: the policy between a process's descriptor
//! table, the open file descriptions and the in-memory filesystem. Paths
//! arrive already copied out of user memory.

use vstd::prelude::*;
use vstd::string::StringSliceAdditionalSpecFns;
use crate::abi::{
    AUDIT_TYPE_DIR_CREATE, AUDIT_TYPE_FILE_CREATE, AUDIT_TYPE_FILE_MODIFY, AUDIT_TYPE_FILE_UNLINK, EACCES, EBADF, EEXIST, EISDIR, ENODEV, ENOENT, ENOTDIR, ENOTEMPTY, ENOTTY, EINVAL, EPOLL_CTL_DEL, TCGETS, TCSETS, TCSETSF, TCSETSW, TIOCGWINSZ, O_CLOEXEC, O_CREAT, O_NONBLOCK, O_EXCL, O_RDWR,
    O_RDONLY, O_TRUNC, O_WRONLY, S_IFIFO, S_IFREG, S_IRGRP, S_IROTH, S_IRUSR, S_IWGRP, S_IWOTH, S_IWUSR,
};
use crate::services::audit::AuditState;
use crate::services::posix::{map_user_error, user_errno};
use crate::mm::user::UserAccessError;
use crate::services::process::{Process, lemma_lowest_free_fd, lowest_free_fd};
use crate::vfs::file::{FileHandle, Vfs, read_count};
use crate::vfs::path::{
    joined_path, lemma_resolve_after_insert, lemma_walk_same, lemma_walk_step, parent_walk_passes,
    path_components, path_parent_passes, resolve_parent_and_basename_with_cwd, resolve_path_with_cwd, same_lookup,
    spec_resolve, spec_resolve_parent, spec_walk,
};
use crate::vfs::ramfs::{FileType, InodeKind, RamFs, Stat, kind_file_type, spec_dtype, spec_write_at};
use crate::vfs::dirent::{Dirent64, spec_dirent_name};
use crate::vfs::pipe::{InodePollFlags, PIPE_BUFFER_SIZE, PipeBuffer, pipe_stat};
use crate::vfs::epoll::{EpollEvent, EpollInstance, ctl_outcome, ctl_result, epoll_stat, lemma_ready_len, ready_events};

verus! {

/// Largest count a single `read` or `write` moves; larger requests are
/// cut down to it.
pub const MAX_RW_COUNT: usize = 1048576;

/// The permission bits a file is created with: `mode`'s low nine bits
/// without those set in `umask`.
pub open spec fn spec_creation_mode(mode: u32, umask: u32) -> u16 {
    ((mode as u16) & 0o777u16) & !(umask as u16)
}

/// The permission bits a file is created with under `umask`.
pub fn creation_mode(mode: u32, umask: u32) -> (r: u16)
    ensures
        r == spec_creation_mode(mode, umask),
{
    ((mode as u16) & 0o777u16) & !(umask as u16)
}

/// The open flags ask for write access.
pub open spec fn wants_write(flags: i32) -> bool {
    flags & O_WRONLY != 0 || flags & O_RDWR != 0
}

/// The open flags ask for read access (anything but write-only).
pub open spec fn wants_read(flags: i32) -> bool {
    flags & O_WRONLY == 0
}

/// The read and write bits of `st` that apply to a caller with `uid` and
/// `gid`: the owner's when it owns the file, else the group's when it is
/// in the file's group, else the others'.
pub open spec fn class_bits(uid: u32, gid: u32, st: Stat) -> (bool, bool) {
    if uid == st.st_uid {
        (st.st_mode & S_IRUSR != 0, st.st_mode & S_IWUSR != 0)
    } else if gid == st.st_gid {
        (st.st_mode & S_IRGRP != 0, st.st_mode & S_IWGRP != 0)
    } else {
        (st.st_mode & S_IROTH != 0, st.st_mode & S_IWOTH != 0)
    }
}

/// A caller with `uid`/`gid` may open a file of status `st` with `flags`:
/// root always may; anyone else needs the read bit of its class when it
/// reads and the write bit when it writes.
pub open spec fn open_permitted(uid: u32, gid: u32, st: Stat, flags: i32) -> bool {
    let (r, w) = class_bits(uid, gid, st);
    uid == 0 || ((!wants_read(flags) || r) && (!wants_write(flags) || w))
}

/// Whether a caller with `uid`/`gid` may open a file of status `st` with
/// `flags`.
pub fn check_open_permission(uid: u32, gid: u32, st: &Stat, flags: i32) -> (r: bool)
    ensures
        r == open_permitted(uid, gid, *st, flags),
{
    if uid == 0 {
        return true;
    }
    let req_write = (flags & O_WRONLY != 0) || (flags & O_RDWR != 0);
    let req_read = flags & O_WRONLY == 0;
    let imode = st.st_mode;
    let (can_read, can_write) = if uid == st.st_uid {
        (imode & S_IRUSR != 0, imode & S_IWUSR != 0)
    } else if gid == st.st_gid {
        (imode & S_IRGRP != 0, imode & S_IWGRP != 0)
    } else {
        (imode & S_IROTH != 0, imode & S_IWOTH != 0)
    };
    !((req_read && !can_read) || (req_write && !can_write))
}

/// Root may open any file in any mode.
pub proof fn lemma_root_may_open(gid: u32, st: Stat, flags: i32)
    ensures
        open_permitted(0, gid, st, flags),
{
}

/// A caller that owns a file is judged by the owner bits alone, whatever
/// the group and other bits say.
pub proof fn lemma_owner_bits_decide(uid: u32, gid: u32, st: Stat, flags: i32)
    requires
        uid != 0,
        uid == st.st_uid,
    ensures
        open_permitted(uid, gid, st, flags) <==> (
            (!wants_read(flags) || st.st_mode & S_IRUSR != 0)
            && (!wants_write(flags) || st.st_mode & S_IWUSR != 0)),
{
}

/// A created file never has a permission bit that the umask clears, nor a
/// bit beyond the nine permission bits.
pub proof fn lemma_creation_mode_respects_umask(mode: u32, umask: u32)
    ensures
        spec_creation_mode(mode, umask) & (umask as u16) == 0,
        spec_creation_mode(mode, umask) & !0o777u16 == 0,
{
    let m = mode as u16;
    let u = umask as u16;
    assert((m & 0o777u16) & !u & u == 0) by (bit_vector);
    assert((m & 0o777u16) & !u & !0o777u16 == 0) by (bit_vector);
}

/// `fs2` is `fs1` with regular file `ino` emptied (other inodes untouched).
pub open spec fn truncated(fs1: RamFs, fs2: RamFs, ino: int) -> bool {
    &&& fs2.count() == fs1.count()
    &&& forall|i: int| 0 <= i < fs1.count() ==> #[trigger] fs2.kind(i) == fs1.kind(i)
        && fs2.meta(i) == fs1.meta(i) && fs2.dir(i) == fs1.dir(i)
        && fs2.subdirs(i) == fs1.subdirs(i) && fs2.dir_names(i) == fs1.dir_names(i)
    &&& forall|i: int| 0 <= i < fs1.count() && i != ino ==> #[trigger] fs2.data(i) == fs1.data(i)
    &&& fs2.data(ino) == (if fs1.kind(ino) == InodeKind::RegularFile { Seq::<u8>::empty() } else { fs1.data(ino) })
}

/// The descriptor table `fds` once its lowest free slot holds `id`.
pub open spec fn installed_table(fds: Seq<Option<usize>>, id: usize) -> Seq<Option<usize>> {
    let fd = lowest_free_fd(fds);
    if fd < fds.len() { fds.update(fd, Some(id)) } else { fds.push(Some(id)) }
}

/// The process after descriptor `lowest_free_fd` of `p1` is made to hold
/// description `id`.
pub open spec fn fd_installed(p1: Process, p2: Process, id: usize) -> bool {
    let fd = lowest_free_fd(p1.fds@);
    &&& p2.same_but_fds(&p1)
    &&& fd < p1.fds@.len() ==> p2.fds@ == p1.fds@.update(fd, Some(id))
    &&& fd == p1.fds@.len() ==> p2.fds@ == p1.fds@.push(Some(id))
}

/// `open(path, flags, mode)` for a process: resolves `path` against the
/// process's working directory, creates a missing file under `O_CREAT`
/// (mode `spec_creation_mode(mode, umask)`, owned by the caller, logged
/// to the audit journal), refuses an existing one under
/// `O_CREAT | O_EXCL` (`EEXIST`) or without the permission bits
/// (`EACCES`, never for root), empties an existing file opened for writing
/// under `O_TRUNC`, then opens a description at offset zero and returns
/// the lowest free descriptor. A failure returns the negated errno and
/// changes nothing.
pub fn sys_open(
    vfs: &mut Vfs,
    proc: &mut Process,
    audit: &mut AuditState,
    ticks: u64,
    path: &Vec<u8>,
    flags: i32,
    mode: u32,
) -> (r: isize)
    requires
        old(vfs).wf(),
        old(audit).wf(),
        old(audit).journal.total_logged < u64::MAX,
        old(proc).fds@.len() < i32::MAX,
        old(vfs).fs.count() < usize::MAX,
    ensures
        final(vfs).wf(),
        final(audit).wf(),
        final(vfs).root == old(vfs).root,
        ({
            let fs = old(vfs).fs;
            let res = spec_resolve(fs, old(vfs).root, old(proc).cwd@, path@);
            let creat = flags & O_CREAT != 0;
            let fd = lowest_free_fd(old(proc).fds@);
            let unchanged = *final(vfs) == *old(vfs) && *final(proc) == *old(proc) && *final(audit) == *old(audit);
            match res {
                Ok(i) => if creat && flags & O_EXCL != 0 {
                    r == -(EEXIST as isize) && unchanged
                } else if !open_permitted(old(proc).uid, old(proc).gid, fs.spec_stat(i as int), flags) {
                    r == -(EACCES as isize) && unchanged
                } else {
                    &&& r == fd as isize
                    &&& final(vfs).files@ == old(vfs).files@.push(FileHandle { inode: i, offset: 0, flags })
                    &&& fd_installed(*old(proc), *final(proc), old(vfs).files@.len() as usize)
                    &&& *final(audit) == *old(audit)
                    &&& if flags & O_TRUNC != 0 && wants_write(flags) {
                        truncated(fs, final(vfs).fs, i as int)
                    } else {
                        final(vfs).fs == fs
                    }
                },
                Err(e) => if !(e == ENOENT && creat) {
                    r == -(e as isize) && unchanged
                } else {
                    match spec_resolve_parent(fs, old(vfs).root, old(proc).cwd@, path@) {
                        Err(e2) => r == -(e2 as isize) && unchanged,
                        Ok((p, b)) => {
                            let n = fs.count() as int;
                            &&& r == fd as isize
                            &&& spec_resolve(final(vfs).fs, old(vfs).root, old(proc).cwd@, path@) == Ok::<usize, i32>(n as usize)
                            &&& final(vfs).fs.count() == n + 1
                            &&& final(vfs).fs.kind(n) == InodeKind::RegularFile
                            &&& final(vfs).fs.meta(n) == (spec_creation_mode(mode, old(proc).umask), old(proc).uid, old(proc).gid)
                            &&& final(vfs).fs.data(n) == Seq::<u8>::empty()
                            &&& final(vfs).fs.dir(p as int) == fs.dir(p as int).insert(b, n as usize)
                            &&& forall|k: int| 0 <= k < n && k != p ==> #[trigger] final(vfs).fs.dir(k) == fs.dir(k)
                            &&& forall|k: int| 0 <= k < n ==> #[trigger] final(vfs).fs.kind(k) == fs.kind(k)
                                && final(vfs).fs.meta(k) == fs.meta(k) && final(vfs).fs.data(k) == fs.data(k)
                            &&& final(vfs).files@ == old(vfs).files@.push(FileHandle { inode: n as usize, offset: 0, flags })
                            &&& fd_installed(*old(proc), *final(proc), old(vfs).files@.len() as usize)
                            &&& final(audit).journal.entries@.last().event_type == AUDIT_TYPE_FILE_CREATE
                            &&& final(audit).journal.entries@.last().status == 0
                            &&& final(audit).journal.entries@.last().pid == old(proc).pid
                            &&& final(audit).journal.entries@.last().target@ == path@
                            &&& final(audit).journal.entries@.last().timestamp_ticks == ticks
                        },
                    }
                },
            }
        }),
{
    let creat = flags & O_CREAT != 0;
    let resolved = resolve_path_with_cwd(&vfs.fs, vfs.root, &proc.cwd, path);
    let ghost fs0 = vfs.fs;
    let mut created = false;
    let ino: usize = match resolved {
        Ok(i) => {
            if creat && flags & O_EXCL != 0 {
                return -(EEXIST as isize);
            }
            i
        },
        Err(e) => {
            if e == ENOENT && creat {
                match resolve_parent_and_basename_with_cwd(&vfs.fs, vfs.root, &proc.cwd, path) {
                    Ok((parent, base)) => {
                        let cm = creation_mode(mode, proc.umask);
                        proof {
                            assert(fs0.is_dir(parent as int));
                            assert(!fs0.dir(parent as int).contains_key(base@));
                        }
                        match vfs.fs.create_file(parent, &base, cm, proc.uid, proc.gid) {
                            Ok(n) => {
                                proof {
                                    lemma_resolve_after_insert(fs0, vfs.fs, vfs.root, proc.cwd@, path@, n);
                                }
                                created = true;
                                n
                            },
                            Err(err) => return -(err as isize),
                        }
                    },
                    Err(err) => return -(err as isize),
                }
            } else {
                return -(e as isize);
            }
        },
    };
    if !created {
        let st = vfs.fs.stat(ino);
        if !check_open_permission(proc.uid, proc.gid, &st, flags) {
            return -(EACCES as isize);
        }
        if flags & O_TRUNC != 0 && ((flags & O_WRONLY != 0) || (flags & O_RDWR != 0)) {
            vfs.fs.truncate(ino);
        }
    }
    proof {
        assert forall|i: int| 0 <= i < vfs.files@.len() implies #[trigger] vfs.files@[i].inode < vfs.fs.count() by {
            assert(old(vfs).files@[i].inode < fs0.count());
        }
    }
    let id = vfs.open_file(ino, flags);
    proof {
        lemma_lowest_free_fd(proc.fds@);
    }
    let fd = proc.alloc_fd(id);
    let fdn: i32 = match fd {
        Ok(v) => v,
        Err(err) => return -(err as isize),
    };
    if created {
        let _ = audit.log_audit_event(
            ticks,
            proc.pid,
            proc.uid,
            AUDIT_TYPE_FILE_CREATE,
            0,
            path.as_slice(),
            "File created via open(O_CREAT)".as_bytes(),
        );
    }
    fdn as isize
}

/// The count a `read` or `write` of `count` bytes moves: at most
/// `MAX_RW_COUNT`.
pub fn rw_count(count: usize) -> (r: usize)
    ensures
        r == (if count < MAX_RW_COUNT { count } else { MAX_RW_COUNT }),
{
    if count < MAX_RW_COUNT { count } else { MAX_RW_COUNT }
}

/// The open file description descriptor `fd` of `proc` holds, if it holds
/// one that `vfs` has.
pub open spec fn fd_handle(vfs: Vfs, proc: Process, fd: i32) -> Option<usize> {
    if 0 <= fd < proc.fds@.len() {
        match proc.fds@[fd as int] {
            Some(h) => if h < vfs.files@.len() { Some(h) } else { None },
            None => None,
        }
    } else {
        None
    }
}

/// Looks up the description of descriptor `fd`: `EBADF` when it is not open.
pub fn lookup_fd(vfs: &Vfs, proc: &Process, fd: i32) -> (r: Result<usize, i32>)
    ensures
        match fd_handle(*vfs, *proc, fd) {
            Some(h) => r == Ok::<usize, i32>(h),
            None => r == Err::<usize, i32>(EBADF),
        },
{
    match proc.get_fd(fd) {
        Some(h) => if h < vfs.files.len() { Ok(h) } else { Err(EBADF) },
        None => Err(EBADF),
    }
}

/// `close(fd)`: frees the descriptor; `EBADF` when it is not open.
pub fn sys_close(proc: &mut Process, fd: i32) -> (r: isize)
    ensures
        final(proc).same_but_fds(old(proc)),
        (0 <= fd < old(proc).fds@.len() && old(proc).fds@[fd as int] is Some) ==> {
            &&& r == 0
            &&& final(proc).fds@ == old(proc).fds@.update(fd as int, None)
        },
        !(0 <= fd < old(proc).fds@.len() && old(proc).fds@[fd as int] is Some) ==> {
            &&& r == -(EBADF as isize)
            &&& final(proc).fds@ == old(proc).fds@
        },
{
    match proc.close_fd(fd) {
        Ok(()) => 0,
        Err(_) => -(EBADF as isize),
    }
}

/// `dup(oldfd)`: a new descriptor, the lowest free one, for the same
/// description; `EBADF` when `oldfd` is not open.
pub fn sys_dup(proc: &mut Process, oldfd: i32) -> (r: isize)
    requires
        old(proc).fds@.len() < i32::MAX,
    ensures
        ({
            let open = 0 <= oldfd < old(proc).fds@.len() && old(proc).fds@[oldfd as int] is Some;
            &&& !open ==> r == -(EBADF as isize) && *final(proc) == *old(proc)
            &&& open ==> {
                &&& r == lowest_free_fd(old(proc).fds@) as isize
                &&& fd_installed(*old(proc), *final(proc), old(proc).fds@[oldfd as int].unwrap())
            }
        }),
{
    let handle = match proc.get_fd(oldfd) {
        Some(h) => h,
        None => return -(EBADF as isize),
    };
    proof {
        lemma_lowest_free_fd(proc.fds@);
    }
    match proc.alloc_fd(handle) {
        Ok(new_fd) => new_fd as isize,
        Err(err) => -(EBADF as isize),
    }
}

/// The largest descriptor number `dup2` accepts, plus one.
pub const DUP2_FD_LIMIT: i32 = 256;

/// The descriptor table after `dup2` puts description `h` at `newfd`: grown
/// with empty slots up to `newfd`, `newfd` holding `h`, every other slot
/// as before.
pub open spec fn dup2_table(fds: Seq<Option<usize>>, newfd: int, h: usize) -> Seq<Option<usize>> {
    let len = if newfd + 1 > fds.len() { newfd + 1 } else { fds.len() as int };
    Seq::new(len as nat, |j: int| if j == newfd { Some(h) } else if j < fds.len() { fds[j] } else { None })
}

/// After `dup2`, `newfd` holds the duplicated description and every other
/// descriptor holds what it held (slots added past the old end are empty).
pub proof fn lemma_dup2_aliases(fds: Seq<Option<usize>>, newfd: int, h: usize)
    requires
        0 <= newfd,
    ensures
        dup2_table(fds, newfd, h)[newfd] == Some(h),
        forall|j: int| 0 <= j < fds.len() && j != newfd ==> #[trigger] dup2_table(fds, newfd, h)[j] == fds[j],
        forall|j: int| fds.len() <= j < dup2_table(fds, newfd, h).len() && j != newfd ==> #[trigger] dup2_table(fds, newfd, h)[j] is None,
{
}

/// `dup2(oldfd, newfd)`: makes `newfd` (which must be below 256, else
/// `EBADF`) refer to `oldfd`'s description, closing what it held. With
/// `oldfd == newfd` it returns `newfd` at once, without looking at
/// `oldfd`. An `oldfd` that is not open gives `EBADF`.
pub fn sys_dup2(proc: &mut Process, oldfd: i32, newfd: i32) -> (r: isize)
    ensures
        final(proc).same_but_fds(old(proc)),
        !(0 <= newfd < DUP2_FD_LIMIT) ==> r == -(EBADF as isize) && final(proc).fds@ == old(proc).fds@,
        0 <= newfd < DUP2_FD_LIMIT && oldfd == newfd ==> r == newfd as isize && final(proc).fds@ == old(proc).fds@,
        0 <= newfd < DUP2_FD_LIMIT && oldfd != newfd ==> {
            let open = 0 <= oldfd < old(proc).fds@.len() && old(proc).fds@[oldfd as int] is Some;
            &&& !open ==> r == -(EBADF as isize) && final(proc).fds@ == old(proc).fds@
            &&& open ==> r == newfd as isize
                && final(proc).fds@ == dup2_table(old(proc).fds@, newfd as int, old(proc).fds@[oldfd as int].unwrap())
        },
{
    if newfd < 0 || newfd >= DUP2_FD_LIMIT {
        return -(EBADF as isize);
    }
    if oldfd == newfd {
        return newfd as isize;
    }
    let handle = match proc.get_fd(oldfd) {
        Some(h) => h,
        None => return -(EBADF as isize),
    };
    let ghost f0 = proc.fds@;
    let _ = proc.close_fd(newfd);
    let ghost f1 = proc.fds@;
    let target = newfd as usize;
    while proc.fds.len() <= target
        invariant
            proc.same_but_fds(old(proc)),
            f1.len() <= proc.fds@.len(),
            proc.fds@.len() <= (if target + 1 > f1.len() { target + 1 } else { f1.len() as int }),
            forall|j: int| 0 <= j < f1.len() ==> #[trigger] proc.fds@[j] == f1[j],
            forall|j: int| f1.len() <= j < proc.fds@.len() ==> #[trigger] proc.fds@[j] is None,
            target < 256,
        decreases target + 1 - proc.fds@.len(),
    {
        proc.fds.push(None);
    }
    proc.fds.set(target, Some(handle));
    proof {
        let want = dup2_table(f0, newfd as int, handle);
        assert(proc.fds@.len() == want.len());
        assert forall|j: int| 0 <= j < want.len() implies proc.fds@[j] == want[j] by {
            if j != newfd && j < f0.len() {
                assert(f1[j] == f0[j]);
            }
        }
        assert(proc.fds@ =~= want);
    }
    newfd as isize
}

/// `stat(path)`: the status of the inode `path` resolves to from `cwd`.
pub fn sys_stat(vfs: &Vfs, cwd: &Vec<u8>, path: &Vec<u8>) -> (r: Result<Stat, i32>)
    requires
        vfs.wf(),
    ensures
        match spec_resolve(vfs.fs, vfs.root, cwd@, path@) {
            Ok(i) => r == Ok::<Stat, i32>(vfs.fs.spec_stat(i as int)),
            Err(e) => r == Err::<Stat, i32>(e),
        },
{
    match resolve_path_with_cwd(&vfs.fs, vfs.root, cwd, path) {
        Ok(i) => Ok(vfs.fs.stat(i)),
        Err(e) => Err(e),
    }
}

/// `fstat(fd)`: the status of the inode descriptor `fd` refers to;
/// `EBADF` when it is not open.
pub fn sys_fstat(vfs: &Vfs, proc: &Process, fd: i32) -> (r: Result<Stat, i32>)
    requires
        vfs.wf(),
    ensures
        match fd_handle(*vfs, *proc, fd) {
            Some(h) => r == Ok::<Stat, i32>(vfs.fs.spec_stat(vfs.files@[h as int].inode as int)),
            None => r == Err::<Stat, i32>(EBADF),
        },
{
    let h = match lookup_fd(vfs, proc, fd) {
        Ok(h) => h,
        Err(e) => return Err(e),
    };
    Ok(vfs.fs.stat(vfs.files[h].inode))
}

/// `lseek(fd, offset, whence)`: moves the position of descriptor `fd`'s
/// description (see `FileHandle::lseek`) and returns it; `EBADF` when the
/// descriptor is not open.
pub fn sys_lseek(vfs: &mut Vfs, proc: &Process, fd: i32, offset: i64, whence: i32) -> (r: isize)
    requires
        old(vfs).wf(),
    ensures
        final(vfs).wf(),
        final(vfs).fs == old(vfs).fs,
        final(vfs).root == old(vfs).root,
        match fd_handle(*old(vfs), *proc, fd) {
            None => r == -(EBADF as isize) && *final(vfs) == *old(vfs),
            Some(h) => {
                let fh = old(vfs).files@[h as int];
                &&& final(vfs).files@.len() == old(vfs).files@.len()
                &&& forall|k: int| 0 <= k < old(vfs).files@.len() && k != h ==> #[trigger] final(vfs).files@[k] == old(vfs).files@[k]
                &&& final(vfs).files@[h as int].inode == fh.inode
                &&& final(vfs).files@[h as int].flags == fh.flags
                &&& match crate::vfs::file::seek_target(fh.offset as int, crate::vfs::file::ram_size(old(vfs).fs, fh.inode as int), offset as int, whence) {
                    Some(t) => r == t as isize && final(vfs).files@[h as int].offset == t,
                    None => r == -(EINVAL as isize) && final(vfs).files@[h as int].offset == fh.offset,
                }
            },
        },
{
    let h = match lookup_fd(vfs, proc, fd) {
        Ok(h) => h,
        Err(e) => return -(EBADF as isize),
    };
    let mut fh = vfs.files[h];
    let res = fh.lseek(&vfs.fs, offset, whence);
    vfs.files.set(h, fh);
    match res {
        Ok(off) => off as isize,
        Err(_) => -(EINVAL as isize),
    }
}

/// What a `read` on a descriptor comes to.
pub enum ReadOutcome {
    /// Bytes read from a regular file (none at or past its end).
    Data(Vec<u8>),
    /// The call failed with this errno.
    Failed(i32),
    /// The descriptor refers to a special inode (pipe end, device, proc
    /// file, epoll instance): description `handle` is read by the
    /// subsystem that `file_type` and `id` name.
    Special { handle: usize, file_type: FileType, id: usize },
}

/// What a `write` on a descriptor comes to.
pub enum WriteOutcome {
    /// Bytes written to a regular file.
    Written(usize),
    /// The call failed with this errno.
    Failed(i32),
    /// The descriptor refers to a special inode, written by its subsystem.
    Special { handle: usize, file_type: FileType, id: usize },
}

/// The bytes a read of `n` bytes at `offset` returns from `d`.
pub open spec fn read_bytes(d: Seq<u8>, offset: int, n: int) -> Seq<u8> {
    if offset >= d.len() { Seq::empty() } else { d.subrange(offset, offset + n) }
}

/// `vfs` after description `h` moved to position `off`, all else as before.
pub open spec fn moved_to(v1: Vfs, v2: Vfs, h: int, off: int) -> bool {
    &&& v2.fs == v1.fs && v2.root == v1.root
    &&& v2.files@.len() == v1.files@.len()
    &&& forall|k: int| 0 <= k < v1.files@.len() && k != h ==> #[trigger] v2.files@[k] == v1.files@[k]
    &&& v2.files@[h].inode == v1.files@[h].inode && v2.files@[h].flags == v1.files@[h].flags
    &&& v2.files@[h].offset == off
}

/// `read(fd, count)` on the filesystem: reads up to `rw_count(count)`
/// bytes of a regular file at the description's position and advances it;
/// `EBADF` for a descriptor that is not open, `EISDIR` for a directory. A
/// special inode is handed back to its subsystem untouched.
pub fn sys_read(vfs: &mut Vfs, proc: &Process, fd: i32, count: usize) -> (r: ReadOutcome)
    requires
        old(vfs).wf(),
    ensures
        final(vfs).wf(),
        match fd_handle(*old(vfs), *proc, fd) {
            None => r == ReadOutcome::Failed(EBADF) && *final(vfs) == *old(vfs),
            Some(h) => {
                let fh = old(vfs).files@[h as int];
                let fs = old(vfs).fs;
                match fs.kind(fh.inode as int) {
                    InodeKind::Special { file_type, id, .. } =>
                        r == (ReadOutcome::Special { handle: h, file_type, id }) && *final(vfs) == *old(vfs),
                    InodeKind::Directory => r == ReadOutcome::Failed(EISDIR) && *final(vfs) == *old(vfs),
                    InodeKind::RegularFile => {
                        let d = fs.data(fh.inode as int);
                        let want = if count < MAX_RW_COUNT { count as int } else { MAX_RW_COUNT as int };
                        let n = read_count(d.len() as int, fh.offset as int, want);
                        &&& r matches ReadOutcome::Data(v) && v@ == read_bytes(d, fh.offset as int, n)
                        &&& moved_to(*old(vfs), *final(vfs), h as int, fh.offset + n)
                    },
                }
            },
        },
{
    let h = match lookup_fd(vfs, proc, fd) {
        Ok(h) => h,
        Err(_) => return ReadOutcome::Failed(EBADF),
    };
    let mut fh = vfs.files[h];
    match vfs.fs.kind_of(fh.inode) {
        InodeKind::Special { file_type, id, .. } => return ReadOutcome::Special { handle: h, file_type, id },
        _ => {},
    }
    let m = rw_count(count);
    let mut buf: Vec<u8> = vec![0u8; m];
    let ghost b0 = buf@;
    match fh.read(&vfs.fs, &mut buf) {
        Ok(n) => {
            proof {
                let d = vfs.fs.data(fh.inode as int);
                assert(n <= b0.len());
            }
            buf.truncate(n);
            proof {
                let d = vfs.fs.data(old(vfs).files@[h as int].inode as int);
                let off = old(vfs).files@[h as int].offset as int;
                assert(buf@ =~= read_bytes(d, off, n as int));
            }
            vfs.files.set(h, fh);
            ReadOutcome::Data(buf)
        },
        Err(e) => ReadOutcome::Failed(EISDIR),
    }
}

/// `write(fd, data)` on the filesystem: writes `data` (already cut to
/// `rw_count` by the caller) into a regular file at the description's
/// position, or at its end under `O_APPEND`, and leaves the position after
/// it; `EBADF` for a descriptor that is not open, `EISDIR` for a
/// directory. A special inode is handed back to its subsystem untouched.
pub fn sys_write(vfs: &mut Vfs, proc: &Process, fd: i32, data: &Vec<u8>) -> (r: WriteOutcome)
    requires
        old(vfs).wf(),
        data@.len() <= MAX_RW_COUNT,
        fd_handle(*old(vfs), *proc, fd) matches Some(h) ==> {
            let fh = old(vfs).files@[h as int];
            &&& fh.offset + data@.len() <= usize::MAX
            &&& crate::vfs::file::ram_size(old(vfs).fs, fh.inode as int) + data@.len() <= usize::MAX
        },
    ensures
        final(vfs).wf(),
        final(vfs).root == old(vfs).root,
        final(vfs).files@.len() == old(vfs).files@.len(),
        match fd_handle(*old(vfs), *proc, fd) {
            None => r == WriteOutcome::Failed(EBADF) && *final(vfs) == *old(vfs),
            Some(h) => {
                let fh = old(vfs).files@[h as int];
                let fs = old(vfs).fs;
                let ino = fh.inode as int;
                let start = crate::vfs::file::write_start(fh.flags, fh.offset as int, crate::vfs::file::ram_size(fs, ino));
                &&& forall|k: int| 0 <= k < old(vfs).files@.len() && k != h ==> #[trigger] final(vfs).files@[k] == old(vfs).files@[k]
                &&& match fs.kind(ino) {
                    InodeKind::Special { file_type, id, .. } =>
                        r == (WriteOutcome::Special { handle: h, file_type, id }) && *final(vfs) == *old(vfs),
                    InodeKind::Directory => r == WriteOutcome::Failed(EISDIR) && final(vfs).fs == fs
                        && final(vfs).files@[h as int] == (FileHandle { offset: start as usize, ..fh }),
                    InodeKind::RegularFile => {
                        &&& r == WriteOutcome::Written(data@.len() as usize)
                        &&& final(vfs).files@[h as int] == (FileHandle { offset: (start + data@.len()) as usize, ..fh })
                        &&& final(vfs).fs.count() == fs.count()
                        &&& final(vfs).fs.data(ino) == spec_write_at(fs.data(ino), start, data@)
                        &&& forall|i: int| 0 <= i < fs.count() && i != ino ==> #[trigger] final(vfs).fs.data(i) == fs.data(i)
                        &&& forall|i: int| 0 <= i < fs.count() ==> #[trigger] final(vfs).fs.kind(i) == fs.kind(i)
                            && final(vfs).fs.meta(i) == fs.meta(i) && final(vfs).fs.dir(i) == fs.dir(i)
                    },
                }
            },
        },
{
    let h = match lookup_fd(vfs, proc, fd) {
        Ok(h) => h,
        Err(_) => return WriteOutcome::Failed(EBADF),
    };
    let mut fh = vfs.files[h];
    match vfs.fs.kind_of(fh.inode) {
        InodeKind::Special { file_type, id, .. } => return WriteOutcome::Special { handle: h, file_type, id },
        _ => {},
    }
    let ghost v0 = *vfs;
    let res = fh.write(&mut vfs.fs, data);
    proof {
        assert forall|i: int| 0 <= i < vfs.files@.len() implies #[trigger] vfs.files@[i].inode < vfs.fs.count() by {
            assert(v0.files@[i].inode < v0.fs.count());
        }
    }
    vfs.files.set(h, fh);
    match res {
        Ok(n) => WriteOutcome::Written(n),
        Err(_) => WriteOutcome::Failed(EISDIR),
    }
}

/// The last event of the journal records `event_type` with `status` and
/// `details` for `target`, by `pid`/`uid` at `ticks`.
pub open spec fn logged(a: AuditState, ticks: u64, pid: i32, uid: u32, event_type: u32, status: int, target: Seq<u8>, details: Seq<u8>) -> bool {
    let e = a.journal.entries@.last();
    &&& a.journal.entries@.len() > 0
    &&& e.event_type == event_type && e.status as int == status
    &&& e.pid == pid && e.uid == uid && e.timestamp_ticks == ticks
    &&& e.target@ == target && e.details@ == details
}

/// `mkdir(path, mode)` for a caller with `pid`, `uid`, `gid`, `umask` and
/// working directory `cwd`: creates directory `path` with mode
/// `spec_creation_mode(mode, umask)`, owned by the caller. The parent must
/// resolve (else its error) and be a directory (`ENOTDIR`), and the name
/// must be free (`EEXIST`). Every outcome, failures too, is logged to the
/// audit journal with the negated result as status.
pub fn sys_mkdir(
    vfs: &mut Vfs,
    audit: &mut AuditState,
    ticks: u64,
    cwd: &Vec<u8>,
    pid: i32,
    uid: u32,
    gid: u32,
    umask: u32,
    path: &Vec<u8>,
    mode: u32,
) -> (r: isize)
    requires
        old(vfs).wf(),
        old(audit).wf(),
        old(audit).journal.total_logged < u64::MAX,
        old(vfs).fs.count() < usize::MAX,
    ensures
        final(vfs).wf(),
        final(audit).wf(),
        final(vfs).root == old(vfs).root,
        final(vfs).files == old(vfs).files,
        ({
            let fs = old(vfs).fs;
            let n = fs.count() as int;
            match spec_resolve_parent(fs, old(vfs).root, cwd@, path@) {
                Err(e) => r == -(e as isize) && final(vfs).fs == fs
                    && logged(*final(audit), ticks, pid, uid, AUDIT_TYPE_DIR_CREATE, -e, path@,
                        "Directory create failed (parent unresolved)".spec_bytes()),
                Ok((p, b)) => if !fs.is_dir(p as int) {
                    r == -(ENOTDIR as isize) && final(vfs).fs == fs
                        && logged(*final(audit), ticks, pid, uid, AUDIT_TYPE_DIR_CREATE, -ENOTDIR, path@, "Directory create failed".spec_bytes())
                } else if fs.dir(p as int).contains_key(b) {
                    r == -(EEXIST as isize) && final(vfs).fs == fs
                        && logged(*final(audit), ticks, pid, uid, AUDIT_TYPE_DIR_CREATE, -EEXIST, path@, "Directory create failed".spec_bytes())
                } else {
                    &&& r == 0
                    &&& logged(*final(audit), ticks, pid, uid, AUDIT_TYPE_DIR_CREATE, 0, path@, "Directory created".spec_bytes())
                    &&& spec_resolve(final(vfs).fs, old(vfs).root, cwd@, path@) == Ok::<usize, i32>(n as usize)
                    &&& final(vfs).fs.count() == n + 1
                    &&& final(vfs).fs.kind(n) == InodeKind::Directory
                    &&& final(vfs).fs.meta(n) == (spec_creation_mode(mode, umask), uid, gid)
                    &&& final(vfs).fs.dir(n) == Map::<Seq<u8>, usize>::empty()
                    &&& final(vfs).fs.dir(p as int) == fs.dir(p as int).insert(b, n as usize)
                    &&& forall|k: int| 0 <= k < n && k != p ==> #[trigger] final(vfs).fs.dir(k) == fs.dir(k)
                    &&& forall|k: int| 0 <= k < n ==> #[trigger] final(vfs).fs.kind(k) == fs.kind(k)
                        && final(vfs).fs.meta(k) == fs.meta(k) && final(vfs).fs.data(k) == fs.data(k)
                },
            }
        }),
{
    let (parent, base) = match resolve_parent_and_basename_with_cwd(&vfs.fs, vfs.root, cwd, path) {
        Ok(res) => res,
        Err(err) => {
            let _ = audit.log_audit_event(ticks, pid, uid, AUDIT_TYPE_DIR_CREATE, -err, path.as_slice(),
                "Directory create failed (parent unresolved)".as_bytes());
            return -(err as isize);
        },
    };
    let effective_mode = creation_mode(mode, umask);
    let ghost v0 = *vfs;
    let res = vfs.fs.create_dir(parent, &base, effective_mode, uid, gid);
    proof {
        assert forall|i: int| 0 <= i < vfs.files@.len() implies #[trigger] vfs.files@[i].inode < vfs.fs.count() by {
            assert(v0.files@[i].inode < v0.fs.count());
        }
    }
    match res {
        Ok(_) => {
            proof {
                lemma_resolve_after_insert(v0.fs, vfs.fs, vfs.root, cwd@, path@, v0.fs.count() as usize);
            }
            let _ = audit.log_audit_event(ticks, pid, uid, AUDIT_TYPE_DIR_CREATE, 0, path.as_slice(), "Directory created".as_bytes());
            0
        },
        Err(err) => {
            let _ = audit.log_audit_event(ticks, pid, uid, AUDIT_TYPE_DIR_CREATE, -err, path.as_slice(), "Directory create failed".as_bytes());
            -(err as isize)
        },
    }
}

/// `unlink(path)` for a caller with `pid`, `uid` and working directory
/// `cwd`: removes the entry `path` names from its parent directory (files
/// and directories alike). The parent must resolve (else its error) and be
/// a directory (`ENOTDIR`), and the entry must exist (`ENOENT`). Every
/// outcome is logged to the audit journal with the negated result as status.
pub fn sys_unlink(
    vfs: &mut Vfs,
    audit: &mut AuditState,
    ticks: u64,
    cwd: &Vec<u8>,
    pid: i32,
    uid: u32,
    path: &Vec<u8>,
) -> (r: isize)
    requires
        old(vfs).wf(),
        old(audit).wf(),
        old(audit).journal.total_logged < u64::MAX,
    ensures
        final(vfs).wf(),
        final(audit).wf(),
        final(vfs).root == old(vfs).root,
        final(vfs).files == old(vfs).files,
        ({
            let fs = old(vfs).fs;
            match spec_resolve_parent(fs, old(vfs).root, cwd@, path@) {
                Err(e) => r == -(e as isize) && final(vfs).fs == fs
                    && logged(*final(audit), ticks, pid, uid, AUDIT_TYPE_FILE_UNLINK, -e, path@,
                        "Unlink failed (parent unresolved)".spec_bytes()),
                Ok((p, b)) => if !fs.is_dir(p as int) {
                    r == -(ENOTDIR as isize) && final(vfs).fs == fs
                        && logged(*final(audit), ticks, pid, uid, AUDIT_TYPE_FILE_UNLINK, -ENOTDIR, path@, "Unlink failed".spec_bytes())
                } else if !fs.dir(p as int).contains_key(b) {
                    r == -(ENOENT as isize) && final(vfs).fs == fs
                        && logged(*final(audit), ticks, pid, uid, AUDIT_TYPE_FILE_UNLINK, -ENOENT, path@, "Unlink failed".spec_bytes())
                } else {
                    &&& r == 0
                    &&& logged(*final(audit), ticks, pid, uid, AUDIT_TYPE_FILE_UNLINK, 0, path@, "File or directory unlinked".spec_bytes())
                    &&& final(vfs).fs.same_except_dir(&fs, p as int)
                    &&& final(vfs).fs.dir(p as int) == fs.dir(p as int).remove(b)
                    &&& final(vfs).fs.subdirs(p as int) == fs.subdirs(p as int).remove(b)
                },
            }
        }),
{
    let (parent, base) = match resolve_parent_and_basename_with_cwd(&vfs.fs, vfs.root, cwd, path) {
        Ok(res) => res,
        Err(err) => {
            let _ = audit.log_audit_event(ticks, pid, uid, AUDIT_TYPE_FILE_UNLINK, -err, path.as_slice(),
                "Unlink failed (parent unresolved)".as_bytes());
            return -(err as isize);
        },
    };
    let ghost v0 = *vfs;
    let res = vfs.fs.unlink(parent, &base);
    proof {
        assert forall|i: int| 0 <= i < vfs.files@.len() implies #[trigger] vfs.files@[i].inode < vfs.fs.count() by {
            assert(v0.files@[i].inode < v0.fs.count());
        }
    }
    match res {
        Ok(()) => {
            let _ = audit.log_audit_event(ticks, pid, uid, AUDIT_TYPE_FILE_UNLINK, 0, path.as_slice(), "File or directory unlinked".as_bytes());
            0
        },
        Err(err) => {
            let _ = audit.log_audit_event(ticks, pid, uid, AUDIT_TYPE_FILE_UNLINK, -err, path.as_slice(), "Unlink failed".as_bytes());
            -(err as isize)
        },
    }
}

/// `rmdir(path)` from working directory `cwd`: removes the empty
/// directory `path` names from its parent. The parent must resolve (else
/// its error) and be a directory (`ENOTDIR`), the entry must exist
/// (`ENOENT`), be a directory (`ENOTDIR`) and be empty (`ENOTEMPTY`). A
/// failure changes nothing.
pub fn sys_rmdir(vfs: &mut Vfs, cwd: &Vec<u8>, path: &Vec<u8>) -> (r: isize)
    requires
        old(vfs).wf(),
    ensures
        final(vfs).wf(),
        final(vfs).root == old(vfs).root,
        final(vfs).files == old(vfs).files,
        ({
            let fs = old(vfs).fs;
            match spec_resolve_parent(fs, old(vfs).root, cwd@, path@) {
                Err(e) => r == -(e as isize) && final(vfs).fs == fs,
                Ok((p, b)) => if !fs.is_dir(p as int) {
                    r == -(ENOTDIR as isize) && final(vfs).fs == fs
                } else if !fs.dir(p as int).contains_key(b) {
                    r == -(ENOENT as isize) && final(vfs).fs == fs
                } else if !fs.is_dir(fs.dir(p as int)[b] as int) {
                    r == -(ENOTDIR as isize) && final(vfs).fs == fs
                } else if fs.dir(fs.dir(p as int)[b] as int).len() > 0 {
                    r == -(ENOTEMPTY as isize) && final(vfs).fs == fs
                } else {
                    &&& r == 0
                    &&& final(vfs).fs.same_except_dir(&fs, p as int)
                    &&& final(vfs).fs.dir(p as int) == fs.dir(p as int).remove(b)
                    &&& final(vfs).fs.subdirs(p as int) == fs.subdirs(p as int).remove(b)
                },
            }
        }),
{
    let (parent, base) = match resolve_parent_and_basename_with_cwd(&vfs.fs, vfs.root, cwd, path) {
        Ok(res) => res,
        Err(err) => return -(err as isize),
    };
    let target = match vfs.fs.lookup(parent, &base) {
        Ok(t) => t,
        Err(err) => return -(err as isize),
    };
    match vfs.fs.kind_of(target) {
        InodeKind::Directory => {},
        _ => return -(ENOTDIR as isize),
    }
    if vfs.fs.entry_count(target) > 0 {
        return -(ENOTEMPTY as isize);
    }
    let ghost v0 = *vfs;
    let res = vfs.fs.unlink(parent, &base);
    proof {
        assert forall|i: int| 0 <= i < vfs.files@.len() implies #[trigger] vfs.files@[i].inode < vfs.fs.count() by {
            assert(v0.files@[i].inode < v0.fs.count());
        }
    }
    match res {
        Ok(()) => 0,
        Err(err) => -(err as isize),
    }
}

/// After an `unlink` that goes through, the path names nothing (unless
/// the removed inode lies on the way to its parent, which takes a
/// directory that holds itself).
pub proof fn lemma_unlink_path_gone(fs1: RamFs, fs2: RamFs, root: Option<usize>, cwd: Seq<u8>, path: Seq<u8>)
    requires
        spec_resolve_parent(fs1, root, cwd, path) matches Ok((p, b))
            && fs1.is_dir(p as int) && fs1.dir(p as int).contains_key(b)
            && fs2.same_except_dir(&fs1, p as int)
            && fs2.dir(p as int) == fs1.dir(p as int).remove(b)
            && !parent_walk_passes(fs1, root, cwd, path, fs1.dir(p as int)[b]),
    ensures
        spec_resolve(fs2, root, cwd, path) == Err::<usize, i32>(ENOENT),
{
    let (d, b) = spec_resolve_parent(fs1, root, cwd, path).unwrap();
    let c = path_components(joined_path(cwd, path));
    let w = c.drop_last();
    let rt = root.unwrap() as int;
    let u = fs1.dir(d as int)[b];
    assert(spec_walk(fs1, rt, w) == Ok::<usize, i32>(d));
    assert forall|k: int| 0 <= k < w.len() implies (#[trigger] spec_walk(fs1, rt, w.take(k)) matches Ok(x)
        ==> same_lookup(fs1, fs2, x as int, w[k])) by {
        lemma_walk_step(fs1, rt, w, k);
        let x = spec_walk(fs1, rt, w.take(k)).unwrap() as int;
        assert(fs2.kind(x) == fs1.kind(x));
        if x == d && w[k] == b {
            assert(c.take(k + 1) =~= w.take(k + 1));
            assert(spec_walk(fs1, rt, c.take(k + 1)) == Ok::<usize, i32>(u));
        }
        if x != d {
            assert(fs2.dir(x) == fs1.dir(x));
        }
    }
    lemma_walk_same(fs1, fs2, rt, w);
    assert(fs2.kind(d as int) == fs1.kind(d as int));
    assert(c.drop_last() == w);
}

/// The error `rename` stops at once both parents resolved to `od`/`ob` and
/// `nd`/`nb`, or `None` when it goes through: the source must exist
/// (`ENOTDIR`, `ENOENT` from the lookup); a directory may not move into
/// itself, that is under the new parent when it is that parent or lies on
/// the walk to it (`nested`; `EINVAL`); a directory may only replace a
/// directory (`ENOTDIR`) and a non-directory only a non-directory
/// (`EISDIR`); the target parent must be a directory (`ENOTDIR`).
pub open spec fn rename_refusal(fs: RamFs, od: int, ob: Seq<u8>, nd: int, nb: Seq<u8>, nested: bool) -> Option<i32> {
    if !fs.is_dir(od) {
        Some(ENOTDIR)
    } else if !fs.dir(od).contains_key(ob) {
        Some(ENOENT)
    } else {
        let s = fs.dir(od)[ob] as int;
        let s_dir = kind_file_type(fs.kind(s)) == FileType::Directory;
        if s_dir && nested {
            Some(EINVAL)
        } else if fs.is_dir(nd) && fs.dir(nd).contains_key(nb) {
            let t_dir = kind_file_type(fs.kind(fs.dir(nd)[nb] as int)) == FileType::Directory;
            if s_dir && !t_dir {
                Some(ENOTDIR)
            } else if !s_dir && t_dir {
                Some(EISDIR)
            } else {
                None
            }
        } else if !fs.is_dir(nd) {
            Some(ENOTDIR)
        } else {
            None
        }
    }
}

/// Where `rename` stops with an error, or the two parents and names it
/// works on: the old path's parent resolves first, then the new path's,
/// then `rename_refusal` is consulted, then the move itself may refuse to
/// replace a directory that is not empty or is one of the two parents
/// (`ENOTEMPTY`).
pub open spec fn rename_plan(fs: RamFs, root: Option<usize>, cwd: Seq<u8>, oldpath: Seq<u8>, newpath: Seq<u8>)
    -> Result<(usize, Seq<u8>, usize, Seq<u8>), i32> {
    match spec_resolve_parent(fs, root, cwd, oldpath) {
        Err(e) => Err(e),
        Ok((od, ob)) => match spec_resolve_parent(fs, root, cwd, newpath) {
            Err(e) => Err(e),
            Ok((nd, nb)) => {
                let nested = parent_walk_passes(fs, root, cwd, newpath, fs.dir(od as int)[ob]);
                match rename_refusal(fs, od as int, ob, nd as int, nb, nested) {
                    Some(e) => Err(e),
                    None => match fs.rename_error(od as int, ob, nd as int, nb) {
                        Some(e) => Err(e),
                        None => Ok((od, ob, nd, nb)),
                    },
                }
            },
        },
    }
}

/// `rename(oldpath, newpath)` for a caller with `pid`, `uid` and working
/// directory `cwd`, done in one step: the entry moves to the new name,
/// replacing a compatible target; renaming a name onto itself changes
/// nothing; a directory is never moved into itself or below itself. Both
/// parents must resolve (else their error) and `rename_plan` must not
/// object; failures change nothing and are not logged; success is logged
/// to the audit journal.
#[verifier::spinoff_prover]
#[verifier::rlimit(40)]
pub fn sys_rename(
    vfs: &mut Vfs,
    audit: &mut AuditState,
    ticks: u64,
    cwd: &Vec<u8>,
    pid: i32,
    uid: u32,
    oldpath: &Vec<u8>,
    newpath: &Vec<u8>,
) -> (r: isize)
    requires
        old(vfs).wf(),
        old(audit).wf(),
        old(audit).journal.total_logged < u64::MAX,
    ensures
        final(vfs).wf(),
        final(audit).wf(),
        final(vfs).root == old(vfs).root,
        final(vfs).files == old(vfs).files,
        ({
            let fs = old(vfs).fs;
            match rename_plan(fs, old(vfs).root, cwd@, oldpath@, newpath@) {
                Err(e) => r == -(e as isize) && final(vfs).fs == fs && *final(audit) == *old(audit),
                Ok((od, ob, nd, nb)) => {
                    &&& r == 0
                    &&& logged(*final(audit), ticks, pid, uid, AUDIT_TYPE_FILE_MODIFY, 0, newpath@,
                        "File or directory renamed/moved".spec_bytes())
                    &&& fs.moved_entry(&final(vfs).fs, od as int, ob, nd as int, nb)
                },
            }
        }),
{
    let (old_parent, old_base) = match resolve_parent_and_basename_with_cwd(&vfs.fs, vfs.root, cwd, oldpath) {
        Ok(res) => res,
        Err(err) => return -(err as isize),
    };
    let (new_parent, new_base) = match resolve_parent_and_basename_with_cwd(&vfs.fs, vfs.root, cwd, newpath) {
        Ok(res) => res,
        Err(err) => return -(err as isize),
    };
    let source = match vfs.fs.lookup(old_parent, &old_base) {
        Ok(i) => i,
        Err(err) => return -(err as isize),
    };
    let s_dir = vfs.fs.file_type(source) == FileType::Directory;
    if s_dir && path_parent_passes(&vfs.fs, vfs.root, cwd, newpath, source) {
        return -(EINVAL as isize);
    }
    match vfs.fs.lookup(new_parent, &new_base) {
        Ok(target) => {
            let t_dir = vfs.fs.file_type(target) == FileType::Directory;
            if s_dir && !t_dir {
                return -(ENOTDIR as isize);
            }
            if !s_dir && t_dir {
                return -(EISDIR as isize);
            }
        },
        Err(e) => {
            if e == ENOTDIR {
                return -(ENOTDIR as isize);
            }
        },
    }
    let ghost v0 = *vfs;
    proof {
        let fs = v0.fs;
        assert(rename_refusal(fs, old_parent as int, old_base@, new_parent as int, new_base@,
            parent_walk_passes(fs, v0.root, cwd@, newpath@, source)) is None);
    }
    if let Err(err) = vfs.fs.rename(old_parent, &old_base, new_parent, &new_base) {
        return -(err as isize);
    }
    proof {
        assert forall|i: int| 0 <= i < vfs.files@.len() implies #[trigger] vfs.files@[i].inode < vfs.fs.count() by {
            assert(v0.files@[i].inode < v0.fs.count());
        }
    }
    let _ = audit.log_audit_event(ticks, pid, uid, AUDIT_TYPE_FILE_MODIFY, 0, newpath.as_slice(),
        "File or directory renamed/moved".as_bytes());
    0
}

/// The walk `p` from `r` ends where it did once entry `ob` of `od` has
/// moved to `nb` of `nd`, if on its way it meets neither the moved inode
/// nor the one that was replaced.
proof fn lemma_moved_keeps_walk(fs1: RamFs, fs2: RamFs, od: int, ob: Seq<u8>, nd: int, nb: Seq<u8>, r: int, p: Seq<Seq<u8>>)
    requires
        fs1.moved_entry(&fs2, od, ob, nd, nb),
        spec_walk(fs1, r, p) is Ok,
        forall|k: int| 0 <= k <= p.len() ==> #[trigger] spec_walk(fs1, r, p.take(k)) != Ok::<usize, i32>(fs1.dir(od)[ob]),
        fs1.dir(nd).contains_key(nb) ==> forall|k: int| 0 <= k <= p.len()
            ==> #[trigger] spec_walk(fs1, r, p.take(k)) != Ok::<usize, i32>(fs1.dir(nd)[nb]),
    ensures
        spec_walk(fs2, r, p) == spec_walk(fs1, r, p),
{
    if !(od == nd && ob == nb) {
        assert forall|k: int| 0 <= k < p.len() implies (#[trigger] spec_walk(fs1, r, p.take(k)) matches Ok(x)
            ==> same_lookup(fs1, fs2, x as int, p[k])) by {
            lemma_walk_step(fs1, r, p, k);
            let x = spec_walk(fs1, r, p.take(k)).unwrap() as int;
            assert(fs2.kind(x) == fs1.kind(x));
            assert(spec_walk(fs1, r, p.take(k + 1)) == Ok::<usize, i32>(fs1.dir(x)[p[k]]));
            if x != od && x != nd {
                assert(fs2.dir(x) == fs1.dir(x));
            }
        }
        lemma_walk_same(fs1, fs2, r, p);
    }
}

/// The moved inode is not met on the walk to the new parent when `rename`
/// goes through.
proof fn lemma_source_off_new_walk(fs: RamFs, root: Option<usize>, cwd: Seq<u8>, oldpath: Seq<u8>, newpath: Seq<u8>)
    requires
        rename_plan(fs, root, cwd, oldpath, newpath) is Ok,
    ensures
        rename_plan(fs, root, cwd, oldpath, newpath) matches Ok((od, ob, nd, nb)) && {
            let p = path_components(joined_path(cwd, newpath)).drop_last();
            forall|k: int| 0 <= k <= p.len() ==> #[trigger] spec_walk(fs, root.unwrap() as int, p.take(k))
                != Ok::<usize, i32>(fs.dir(od as int)[ob])
        },
{
    let (od, ob, nd, nb) = rename_plan(fs, root, cwd, oldpath, newpath).unwrap();
    let c = path_components(joined_path(cwd, newpath));
    let p = c.drop_last();
    let rt = root.unwrap() as int;
    let src = fs.dir(od as int)[ob];
    assert(spec_walk(fs, rt, p) == Ok::<usize, i32>(nd));
    assert forall|k: int| 0 <= k <= p.len() implies #[trigger] spec_walk(fs, rt, p.take(k)) != Ok::<usize, i32>(src) by {
        if spec_walk(fs, rt, p.take(k)) == Ok::<usize, i32>(src) {
            if fs.is_dir(src as int) {
                assert(c.take(k) =~= p.take(k));
                assert(spec_walk(fs, rt, c.take(k)) == Ok::<usize, i32>(src));
                assert(parent_walk_passes(fs, root, cwd, newpath, src));
            } else if k < p.len() {
                lemma_walk_step(fs, rt, p, k);
            } else {
                assert(p.take(k) =~= p);
            }
        }
    }
}

/// After a `rename` that goes through, the new path names the moved inode
/// (unless the entry it replaced lies on the way to the new parent, which
/// takes a directory that holds itself).
pub proof fn lemma_rename_new_path_names_source(fs1: RamFs, fs2: RamFs, root: Option<usize>, cwd: Seq<u8>, oldpath: Seq<u8>, newpath: Seq<u8>)
    requires
        rename_plan(fs1, root, cwd, oldpath, newpath) matches Ok((od, ob, nd, nb))
            && fs1.moved_entry(&fs2, od as int, ob, nd as int, nb)
            && !(fs1.dir(nd as int).contains_key(nb) && parent_walk_passes(fs1, root, cwd, newpath, fs1.dir(nd as int)[nb])),
    ensures
        rename_plan(fs1, root, cwd, oldpath, newpath) matches Ok((od, ob, nd, nb))
            && spec_resolve(fs2, root, cwd, newpath) == Ok::<usize, i32>(fs1.dir(od as int)[ob]),
{
    let (od, ob, nd, nb) = rename_plan(fs1, root, cwd, oldpath, newpath).unwrap();
    let c = path_components(joined_path(cwd, newpath));
    let p = c.drop_last();
    let rt = root.unwrap() as int;
    let src = fs1.dir(od as int)[ob];
    lemma_source_off_new_walk(fs1, root, cwd, oldpath, newpath);
    if fs1.dir(nd as int).contains_key(nb) {
        let t = fs1.dir(nd as int)[nb];
        assert forall|k: int| 0 <= k <= p.len() implies #[trigger] spec_walk(fs1, rt, p.take(k)) != Ok::<usize, i32>(t) by {
            assert(c.take(k) =~= p.take(k));
            if spec_walk(fs1, rt, p.take(k)) == Ok::<usize, i32>(t) {
                assert(spec_walk(fs1, rt, c.take(k)) == Ok::<usize, i32>(t));
            }
        }
    }
    lemma_moved_keeps_walk(fs1, fs2, od as int, ob, nd as int, nb, rt, p);
    assert(fs2.kind(nd as int) == fs1.kind(nd as int));
    assert(c.drop_last() == p);
}

/// After a `rename` that goes through and moves an entry to another name
/// or directory, the old path names nothing (unless the moved inode or the
/// one replaced lies on the way to the old parent, which takes a directory
/// that holds itself).
pub proof fn lemma_rename_old_path_gone(fs1: RamFs, fs2: RamFs, root: Option<usize>, cwd: Seq<u8>, oldpath: Seq<u8>, newpath: Seq<u8>)
    requires
        rename_plan(fs1, root, cwd, oldpath, newpath) matches Ok((od, ob, nd, nb))
            && (od != nd || ob != nb)
            && fs1.moved_entry(&fs2, od as int, ob, nd as int, nb)
            && !parent_walk_passes(fs1, root, cwd, oldpath, fs1.dir(od as int)[ob])
            && !(fs1.dir(nd as int).contains_key(nb) && parent_walk_passes(fs1, root, cwd, oldpath, fs1.dir(nd as int)[nb])),
    ensures
        spec_resolve(fs2, root, cwd, oldpath) == Err::<usize, i32>(ENOENT),
{
    let (od, ob, nd, nb) = rename_plan(fs1, root, cwd, oldpath, newpath).unwrap();
    let c = path_components(joined_path(cwd, oldpath));
    let p = c.drop_last();
    let rt = root.unwrap() as int;
    let src = fs1.dir(od as int)[ob];
    assert(spec_walk(fs1, rt, p) == Ok::<usize, i32>(od));
    assert forall|k: int| 0 <= k <= p.len() implies #[trigger] spec_walk(fs1, rt, p.take(k)) != Ok::<usize, i32>(src) by {
        assert(c.take(k) =~= p.take(k));
        if spec_walk(fs1, rt, p.take(k)) == Ok::<usize, i32>(src) {
            assert(spec_walk(fs1, rt, c.take(k)) == Ok::<usize, i32>(src));
        }
    }
    if fs1.dir(nd as int).contains_key(nb) {
        let t = fs1.dir(nd as int)[nb];
        assert forall|k: int| 0 <= k <= p.len() implies #[trigger] spec_walk(fs1, rt, p.take(k)) != Ok::<usize, i32>(t) by {
            assert(c.take(k) =~= p.take(k));
            if spec_walk(fs1, rt, p.take(k)) == Ok::<usize, i32>(t) {
                assert(spec_walk(fs1, rt, c.take(k)) == Ok::<usize, i32>(t));
            }
        }
    }
    lemma_moved_keeps_walk(fs1, fs2, od as int, ob, nd as int, nb, rt, p);
    assert(fs2.kind(od as int) == fs1.kind(od as int));
    assert(c.drop_last() == p);
    assert(!fs2.dir(od as int).contains_key(ob));
}

/// Bytes one directory entry record takes in a `getdents64` buffer.
pub const DIRENT64_SIZE: usize = 280;

/// How many entries `getdents64` copies: those left after position `idx`
/// of `len` entries, as far as whole records fit in `count` bytes.
pub open spec fn dents_count(len: int, idx: int, count: int) -> int {
    let left = if idx >= len { 0 } else { len - idx };
    let fit = count / (DIRENT64_SIZE as int);
    if left < fit { left } else { fit }
}

/// `getdents64(fd, count)`: the directory entries of descriptor `fd` from
/// its position (an entry index) on, as many as whole records fit in
/// `count` bytes; the position advances past them. The caller copies out
/// `DIRENT64_SIZE` bytes per entry. `EBADF` for a descriptor that is not
/// open, `ENOTDIR` when it is not a directory.
pub fn sys_getdents64(vfs: &mut Vfs, proc: &Process, fd: i32, count: usize) -> (r: Result<Vec<Dirent64>, i32>)
    requires
        old(vfs).wf(),
    ensures
        final(vfs).wf(),
        match fd_handle(*old(vfs), *proc, fd) {
            None => r == Err::<Vec<Dirent64>, i32>(EBADF) && *final(vfs) == *old(vfs),
            Some(h) => {
                let fh = old(vfs).files@[h as int];
                let fs = old(vfs).fs;
                let d = fh.inode as int;
                if !fs.is_dir(d) {
                    r == Err::<Vec<Dirent64>, i32>(ENOTDIR) && *final(vfs) == *old(vfs)
                } else {
                    let names = fs.dir_names(d);
                    let k = dents_count(names.len() as int, fh.offset as int, count as int);
                    &&& r matches Ok(v) && v@.len() == k && forall|j: int| 0 <= j < k ==> {
                        let name = #[trigger] names[fh.offset + j];
                        &&& v@[j].d_name@ == spec_dirent_name(name)
                        &&& v@[j].d_type == spec_dtype(kind_file_type(fs.kind(fs.dir(d)[name] as int)))
                    }
                    &&& moved_to(*old(vfs), *final(vfs), h as int, fh.offset + k)
                }
            },
        },
{
    let h = match lookup_fd(vfs, proc, fd) {
        Ok(h) => h,
        Err(_) => return Err(EBADF),
    };
    let mut fh = vfs.files[h];
    let entries = match vfs.fs.readdir(fh.inode) {
        Ok(e) => e,
        Err(err) => return Err(err),
    };
    let idx = fh.offset;
    let mut out: Vec<Dirent64> = Vec::new();
    if idx >= entries.len() {
        proof {
            assert(vfs.files@.update(h as int, fh) =~= vfs.files@);
        }
        return Ok(out);
    }
    let fit = count / DIRENT64_SIZE;
    let mut written: usize = 0;
    let mut j: usize = idx;
    let ghost names = vfs.fs.dir_names(fh.inode as int);
    let ghost d = fh.inode as int;
    while j < entries.len()
        invariant
            vfs.fs.is_dir(d),
            d == fh.inode,
            names == vfs.fs.dir_names(d),
            entries@.len() == names.len(),
            forall|i: int| 0 <= i < entries@.len() ==> {
                let name = #[trigger] names[i];
                &&& entries@[i].d_name@ == spec_dirent_name(name)
                &&& entries@[i].d_type == spec_dtype(kind_file_type(vfs.fs.kind(vfs.fs.dir(d)[name] as int)))
            },
            idx <= j <= entries@.len(),
            written == j - idx,
            written <= fit,
            fit == count / DIRENT64_SIZE,
            out@.len() == written,
            forall|i: int| 0 <= i < written ==> {
                let name = #[trigger] names[idx + i];
                &&& out@[i].d_name@ == spec_dirent_name(name)
                &&& out@[i].d_type == spec_dtype(kind_file_type(vfs.fs.kind(vfs.fs.dir(d)[name] as int)))
            },
        ensures
            written == dents_count(names.len() as int, idx as int, count as int),
            out@.len() == written,
            forall|i: int| 0 <= i < written ==> {
                let name = #[trigger] names[idx + i];
                &&& out@[i].d_name@ == spec_dirent_name(name)
                &&& out@[i].d_type == spec_dtype(kind_file_type(vfs.fs.kind(vfs.fs.dir(d)[name] as int)))
            },
        decreases entries@.len() - j,
    {
        if written >= fit {
            break;
        }
        let e = &entries[j];
        let copy = Dirent64 { d_ino: e.d_ino, d_off: e.d_off, d_reclen: e.d_reclen, d_type: e.d_type, d_name: e.d_name.clone() };
        proof {
            assert(names[idx + written as int] == names[j as int]);
        }
        out.push(copy);
        written += 1;
        j += 1;
    }
    fh.offset = idx + written;
    vfs.files.set(h, fh);
    Ok(out)
}

/// `pipe()`: makes the two ends of pipe `pipe_id` inodes of the filesystem
/// (FIFOs with the mode `pipe_stat` reports), opens a read-only
/// description of the first and a write-only one of the second, and
/// returns the two descriptors: the lowest free one, then the next lowest.
pub fn sys_pipe(vfs: &mut Vfs, proc: &mut Process, pipe_id: usize) -> (r: (i32, i32))
    requires
        old(vfs).wf(),
        old(vfs).fs.count() + 2 < usize::MAX,
        old(proc).fds@.len() + 1 < i32::MAX,
    ensures
        final(vfs).wf(),
        final(vfs).root == old(vfs).root,
        ({
            let n = old(vfs).fs.count() as int;
            let m = old(vfs).files@.len() as int;
            let mode = S_IFIFO | 0o600;
            &&& final(vfs).fs.count() == n + 2
            &&& old(vfs).fs.appended_two(&final(vfs).fs)
            &&& final(vfs).fs.kind(n) == (InodeKind::Special { file_type: FileType::Fifo, id: pipe_id, st_mode: mode })
            &&& final(vfs).fs.kind(n + 1) == (InodeKind::Special { file_type: FileType::Fifo, id: pipe_id, st_mode: mode })
            &&& final(vfs).files@ == old(vfs).files@
                .push(FileHandle { inode: n as usize, offset: 0, flags: O_RDONLY })
                .push(FileHandle { inode: (n + 1) as usize, offset: 0, flags: O_WRONLY })
            &&& final(proc).same_but_fds(old(proc))
            &&& r.0 == lowest_free_fd(old(proc).fds@)
            &&& r.1 == lowest_free_fd(installed_table(old(proc).fds@, m as usize))
            &&& final(proc).fds@ == installed_table(installed_table(old(proc).fds@, m as usize), (m + 1) as usize)
        }),
{
    let st = pipe_stat();
    let ghost fs0 = vfs.fs;
    let ghost v0 = *vfs;
    let rd = vfs.fs.new_special(FileType::Fifo, pipe_id, st.st_mode);
    let wr = vfs.fs.new_special(FileType::Fifo, pipe_id, st.st_mode);
    proof {
        assert forall|i: int| 0 <= i < vfs.files@.len() implies #[trigger] vfs.files@[i].inode < vfs.fs.count() by {
            assert(v0.files@[i].inode < v0.fs.count());
        }
    }
    let h0 = vfs.open_file(rd, O_RDONLY);
    let h1 = vfs.open_file(wr, O_WRONLY);
    proof {
        lemma_lowest_free_fd(proc.fds@);
    }
    let ghost p0 = *proc;
    let fd0 = match proc.alloc_fd(h0) {
        Ok(fd) => fd,
        Err(_) => 0,
    };
    let ghost mid = *proc;
    proof {
        lemma_lowest_free_fd(proc.fds@);
    }
    let fd1 = match proc.alloc_fd(h1) {
        Ok(fd) => fd,
        Err(_) => 0,
    };
    proof {
        assert(fd_installed(p0, mid, h0));
        assert(fd_installed(mid, *proc, h1));
    }
    (fd0, fd1)
}

/// `pipe2(flags)`: `EINVAL` for a flag other than `O_NONBLOCK` and
/// `O_CLOEXEC`, changing nothing; otherwise as `sys_pipe`, both
/// descriptions also carrying `flags`'s `O_NONBLOCK` (`O_CLOEXEC` is
/// accepted and changes nothing: descriptors carry no close-on-exec flag).
pub fn sys_pipe2(vfs: &mut Vfs, proc: &mut Process, pipe_id: usize, flags: i32) -> (r: Result<(i32, i32), i32>)
    requires
        old(vfs).wf(),
        old(vfs).fs.count() + 2 < usize::MAX,
        old(proc).fds@.len() + 1 < i32::MAX,
    ensures
        final(vfs).wf(),
        final(vfs).root == old(vfs).root,
        flags & !(O_NONBLOCK | O_CLOEXEC) != 0 ==> r == Err::<(i32, i32), i32>(EINVAL) && *final(vfs) == *old(vfs)
            && *final(proc) == *old(proc),
        flags & !(O_NONBLOCK | O_CLOEXEC) == 0 ==> ({
            let n = old(vfs).fs.count() as int;
            let m = old(vfs).files@.len() as int;
            let mode = S_IFIFO | 0o600;
            let nb = flags & O_NONBLOCK;
            &&& final(vfs).fs.count() == n + 2
            &&& old(vfs).fs.appended_two(&final(vfs).fs)
            &&& final(vfs).fs.kind(n) == (InodeKind::Special { file_type: FileType::Fifo, id: pipe_id, st_mode: mode })
            &&& final(vfs).fs.kind(n + 1) == (InodeKind::Special { file_type: FileType::Fifo, id: pipe_id, st_mode: mode })
            &&& final(vfs).files@ == old(vfs).files@
                .push(FileHandle { inode: n as usize, offset: 0, flags: O_RDONLY | nb })
                .push(FileHandle { inode: (n + 1) as usize, offset: 0, flags: O_WRONLY | nb })
            &&& final(proc).same_but_fds(old(proc))
            &&& r == Ok::<(i32, i32), i32>((lowest_free_fd(old(proc).fds@) as i32,
                lowest_free_fd(installed_table(old(proc).fds@, m as usize)) as i32))
            &&& final(proc).fds@ == installed_table(installed_table(old(proc).fds@, m as usize), (m + 1) as usize)
        }),
{
    if flags & !(O_NONBLOCK | O_CLOEXEC) != 0 {
        return Err(EINVAL);
    }
    let nb = flags & O_NONBLOCK;
    let m = vfs.files.len();
    let n = vfs.fs.len();
    let (rfd, wfd) = sys_pipe(vfs, proc, pipe_id);
    assert(vfs.files@.len() == m + 2);
    vfs.files.set(m, FileHandle { inode: n, offset: 0, flags: O_RDONLY | nb });
    vfs.files.set(m + 1, FileHandle { inode: n + 1, offset: 0, flags: O_WRONLY | nb });
    proof {
        assert(vfs.files@ =~= old(vfs).files@
            .push(FileHandle { inode: n, offset: 0, flags: O_RDONLY | nb })
            .push(FileHandle { inode: (n + 1) as usize, offset: 0, flags: O_WRONLY | nb }));
    }
    Ok((rfd, wfd))
}

/// Rows and columns of the console.
pub const CONSOLE_ROWS: u16 = 25;
pub const CONSOLE_COLS: u16 = 80;
/// Local modes the console reports: canonical input (`ICANON`) with echo
/// (`ECHO`).
pub const CONSOLE_LFLAGS: u32 = 0o12;

/// What an `ioctl` gives back for the caller to store: nothing, the window
/// size, the local modes of the terminal attributes, or an errno.
#[derive(Debug, Clone, Copy, PartialEq, Eq, Structural)]
pub enum IoctlReply {
    Done,
    Winsize { rows: u16, cols: u16 },
    Termios { lflag: u32 },
    Failed(i32),
}

/// `ioctl(fd, request)` with `console` the ID of the console device:
/// `EBADF` for a descriptor that is not open, `ENOTTY` unless it is the
/// console; on the console, `TIOCGWINSZ` gives its size, `TCGETS` its
/// local modes, `TCSETS`/`TCSETSW`/`TCSETSF` are accepted, and any other
/// request is `EINVAL`.
pub fn sys_ioctl(vfs: &Vfs, proc: &Process, fd: i32, request: usize, console: usize) -> (r: IoctlReply)
    requires
        vfs.wf(),
    ensures
        match fd_handle(*vfs, *proc, fd) {
            None => r == IoctlReply::Failed(EBADF),
            Some(h) => match vfs.fs.kind(vfs.files@[h as int].inode as int) {
                InodeKind::Special { file_type: FileType::CharacterDevice, id, .. } if id == console =>
                    if request == TIOCGWINSZ {
                        r == (IoctlReply::Winsize { rows: CONSOLE_ROWS, cols: CONSOLE_COLS })
                    } else if request == TCGETS {
                        r == (IoctlReply::Termios { lflag: CONSOLE_LFLAGS })
                    } else if request == TCSETS || request == TCSETSW || request == TCSETSF {
                        r == IoctlReply::Done
                    } else {
                        r == IoctlReply::Failed(EINVAL)
                    },
                _ => r == IoctlReply::Failed(ENOTTY),
            },
        },
{
    let h = match lookup_fd(vfs, proc, fd) {
        Ok(h) => h,
        Err(_) => return IoctlReply::Failed(EBADF),
    };
    match vfs.fs.kind_of(vfs.files[h].inode) {
        InodeKind::Special { file_type: FileType::CharacterDevice, id, .. } => {
            if id != console {
                return IoctlReply::Failed(ENOTTY);
            }
            if request == TIOCGWINSZ {
                IoctlReply::Winsize { rows: CONSOLE_ROWS, cols: CONSOLE_COLS }
            } else if request == TCGETS {
                IoctlReply::Termios { lflag: CONSOLE_LFLAGS }
            } else if request == TCSETS || request == TCSETSW || request == TCSETSF {
                IoctlReply::Done
            } else {
                IoctlReply::Failed(EINVAL)
            }
        },
        _ => IoctlReply::Failed(ENOTTY),
    }
}

/// `epoll_create(size)`: `EINVAL` for a size below 1, changing nothing;
/// otherwise as `sys_epoll_create1`.
pub fn sys_epoll_create(vfs: &mut Vfs, proc: &mut Process, epoll_id: usize, size: i32) -> (r: isize)
    requires
        old(vfs).wf(),
        old(vfs).fs.count() + 1 < usize::MAX,
        old(proc).fds@.len() < i32::MAX,
    ensures
        final(vfs).wf(),
        final(vfs).root == old(vfs).root,
        size <= 0 ==> r == -(EINVAL as isize) && *final(vfs) == *old(vfs) && *final(proc) == *old(proc),
        size > 0 ==> ({
            let n = old(vfs).fs.count() as int;
            &&& old(vfs).fs.appended(&final(vfs).fs)
            &&& final(vfs).fs.kind(n) == (InodeKind::Special { file_type: FileType::Anonymous, id: epoll_id, st_mode: S_IFREG | 0o600 })
            &&& final(vfs).files@ == old(vfs).files@.push(FileHandle { inode: n as usize, offset: 0, flags: O_RDWR })
            &&& fd_installed(*old(proc), *final(proc), old(vfs).files@.len() as usize)
            &&& r == lowest_free_fd(old(proc).fds@) as isize
        }),
{
    if size <= 0 {
        return -(EINVAL as isize);
    }
    sys_epoll_create1(vfs, proc, epoll_id)
}

/// `epoll_create1()`: makes epoll instance `epoll_id` an anonymous inode of
/// the filesystem (with the status `epoll_stat` reports), opens a
/// read-write description of it and returns the lowest free descriptor.
pub fn sys_epoll_create1(vfs: &mut Vfs, proc: &mut Process, epoll_id: usize) -> (r: isize)
    requires
        old(vfs).wf(),
        old(vfs).fs.count() + 1 < usize::MAX,
        old(proc).fds@.len() < i32::MAX,
    ensures
        final(vfs).wf(),
        final(vfs).root == old(vfs).root,
        ({
            let n = old(vfs).fs.count() as int;
            &&& old(vfs).fs.appended(&final(vfs).fs)
            &&& final(vfs).fs.kind(n) == (InodeKind::Special { file_type: FileType::Anonymous, id: epoll_id, st_mode: S_IFREG | 0o600 })
            &&& final(vfs).files@ == old(vfs).files@.push(FileHandle { inode: n as usize, offset: 0, flags: O_RDWR })
            &&& fd_installed(*old(proc), *final(proc), old(vfs).files@.len() as usize)
            &&& r == lowest_free_fd(old(proc).fds@) as isize
        }),
{
    let st = epoll_stat();
    let ghost v0 = *vfs;
    let ino = vfs.fs.new_special(FileType::Anonymous, epoll_id, st.st_mode);
    proof {
        assert forall|i: int| 0 <= i < vfs.files@.len() implies #[trigger] vfs.files@[i].inode < vfs.fs.count() by {
            assert(v0.files@[i].inode < v0.fs.count());
        }
    }
    let h = vfs.open_file(ino, O_RDWR);
    proof {
        lemma_lowest_free_fd(proc.fds@);
    }
    match proc.alloc_fd(h) {
        Ok(fd) => fd as isize,
        Err(e) => -(EBADF as isize),
    }
}

/// The epoll instance descriptor `epfd` refers to, for `epoll_ctl` and
/// `epoll_wait`: `EBADF` when it is not open, `EINVAL` when its inode is not
/// an epoll instance.
pub fn epoll_target(vfs: &Vfs, proc: &Process, epfd: i32) -> (r: Result<usize, i32>)
    requires
        vfs.wf(),
    ensures
        match fd_handle(*vfs, *proc, epfd) {
            None => r == Err::<usize, i32>(EBADF),
            Some(h) => match vfs.fs.kind(vfs.files@[h as int].inode as int) {
                InodeKind::Special { file_type: FileType::Anonymous, id, .. } => r == Ok::<usize, i32>(id),
                _ => r == Err::<usize, i32>(EINVAL),
            },
        },
{
    let h = match lookup_fd(vfs, proc, epfd) {
        Ok(h) => h,
        Err(e) => return Err(EBADF),
    };
    match vfs.fs.kind_of(vfs.files[h].inode) {
        InodeKind::Special { file_type: FileType::Anonymous, id, .. } => Ok(id),
        _ => Err(EINVAL),
    }
}

/// Where `epoll_ctl` stops with an error, or the instance it changes and
/// the event it hands over: `EBADF` when `epfd` is not open, `EINVAL` when
/// it does not name one of the `count` instances; then, for every `op` but
/// `EPOLL_CTL_DEL`, the event read from user memory (its errno when the
/// read failed, all zeros when no pointer was given); for
/// `EPOLL_CTL_DEL`, all zeros.
pub open spec fn epoll_ctl_plan(vfs: Vfs, proc: Process, epfd: i32, count: nat, op: i32,
    event: Option<Result<EpollEvent, UserAccessError>>) -> Result<(usize, EpollEvent), i32> {
    match fd_handle(vfs, proc, epfd) {
        None => Err(EBADF),
        Some(h) => match vfs.fs.kind(vfs.files@[h as int].inode as int) {
            InodeKind::Special { file_type: FileType::Anonymous, id, .. } => if id >= count {
                Err(EINVAL)
            } else if op == EPOLL_CTL_DEL {
                Ok((id, EpollEvent { events: 0, data: 0 }))
            } else {
                match event {
                    Some(Err(e)) => Err(user_errno(e)),
                    Some(Ok(x)) => Ok((id, x)),
                    None => Ok((id, EpollEvent { events: 0, data: 0 })),
                }
            },
            _ => Err(EINVAL),
        },
    }
}

/// `epoll_ctl(epfd, op, fd, event)` with the system's epoll instances in
/// `epolls`, indexed by an epoll inode's ID. The caller reads the event
/// from user memory when given a non-null pointer and hands the outcome
/// over as `event` (`None` for a null pointer). Stops with the error of
/// `epoll_ctl_plan`, or lets the named instance's `ctl` decide with the
/// planned event; only that instance changes.
#[verifier::spinoff_prover]
pub fn sys_epoll_ctl(
    vfs: &Vfs,
    proc: &Process,
    epolls: &mut Vec<EpollInstance>,
    epfd: i32,
    op: i32,
    fd: i32,
    event: Option<Result<EpollEvent, UserAccessError>>,
) -> (r: isize)
    requires
        vfs.wf(),
    ensures
        final(epolls)@.len() == old(epolls)@.len(),
        match epoll_ctl_plan(*vfs, *proc, epfd, old(epolls)@.len(), op, event) {
            Err(e) => r == -(e as isize) && final(epolls)@ == old(epolls)@,
            Ok((id, given)) => {
                let res = ctl_result(old(epolls)@[id as int]@, op, fd);
                &&& r == (match res { Ok(()) => 0int, Err(e) => -(e as int) })
                &&& ctl_outcome(old(epolls)@[id as int]@, final(epolls)@[id as int]@, op, fd, given, res)
                &&& forall|k: int| 0 <= k < old(epolls)@.len() && k != id ==> #[trigger] final(epolls)@[k] == old(epolls)@[k]
            },
        },
{
    let id = match epoll_target(vfs, proc, epfd) {
        Ok(id) => id,
        Err(e) => return -(e as isize),
    };
    if id >= epolls.len() {
        return -(EINVAL as isize);
    }
    let ev = if op != EPOLL_CTL_DEL {
        match event {
            Some(Ok(x)) => x,
            Some(Err(e)) => return -(map_user_error(e) as isize),
            None => EpollEvent { events: 0, data: 0 },
        }
    } else {
        EpollEvent { events: 0, data: 0 }
    };
    let ghost before = epolls@;
    let mut ep = epolls.remove(id);
    let ghost ep0 = ep;
    let res = ep.ctl(op, fd, ev);
    let ghost ep1 = ep;
    epolls.insert(id, ep);
    proof {
        assert(ep0 == before[id as int]);
        assert(epolls@[id as int] == ep1);
        assert(ctl_outcome(before[id as int]@, epolls@[id as int]@, op, fd, ev, res));
        assert forall|k: int| 0 <= k < before.len() && k != id implies #[trigger] epolls@[k] == before[k] by {
            if k < id {
                assert(epolls@[k] == before.remove(id as int)[k]);
            } else {
                assert(epolls@[k] == before.remove(id as int)[k - 1]);
            }
        }
    }
    let r: isize = match res {
        Ok(()) => 0,
        Err(e) => -(e as isize),
    };
    proof {
        assert(epoll_ctl_plan(*vfs, *proc, epfd, before.len(), op, event) == Ok::<(usize, EpollEvent), i32>((id, ev)));
        assert(r == (match res { Ok(()) => 0int, Err(e) => -(e as int) }));
    }
    r
}

/// What polling the file behind descriptor `fd` reports: nothing when it
/// is not open; for a pipe end (one of `pipes`), that pipe's state as seen
/// from its read end when the description was opened read-only, else from
/// its write end; every other file is ready both ways.
pub open spec fn spec_fd_poll(vfs: Vfs, proc: Process, pipes: Seq<PipeBuffer>, fd: i32) -> Option<InodePollFlags> {
    match fd_handle(vfs, proc, fd) {
        None => None,
        Some(h) => {
            let fh = vfs.files@[h as int];
            let ready = InodePollFlags { readable: true, writable: true, hangup: false, error: false };
            Some(match vfs.fs.kind(fh.inode as int) {
                InodeKind::Special { file_type: FileType::Fifo, id, .. } => if id < pipes.len() {
                    let p = pipes[id as int];
                    if fh.flags & 3 == O_RDONLY {
                        InodePollFlags { readable: p@.len() > 0, writable: false, hangup: p.writers() == 0, error: false }
                    } else {
                        InodePollFlags { readable: false, writable: p@.len() < PIPE_BUFFER_SIZE, hangup: false, error: p.readers() == 0 }
                    }
                } else {
                    ready
                },
                _ => ready,
            })
        },
    }
}

/// Polling a descriptor open on a pipe reports that pipe's state. Opened
/// read-only, it is the read end: readable exactly when bytes are
/// buffered, hung up exactly when no write end is open, never writable or
/// in error. Otherwise it is the write end: writable exactly when the
/// buffer has room, in error exactly when no read end is open, never
/// readable or hung up.
pub proof fn lemma_pipe_end_poll(vfs: Vfs, proc: Process, pipes: Seq<PipeBuffer>, fd: i32, h: usize, id: usize)
    requires
        fd_handle(vfs, proc, fd) == Some(h),
        vfs.fs.kind(vfs.files@[h as int].inode as int) matches InodeKind::Special { file_type: FileType::Fifo, id: i, .. } && i == id,
        id < pipes.len(),
    ensures
        ({
            let p = pipes[id as int];
            &&& spec_fd_poll(vfs, proc, pipes, fd) is Some
            &&& vfs.files@[h as int].flags & 3 == O_RDONLY ==> {
                let f = spec_fd_poll(vfs, proc, pipes, fd)->Some_0;
                &&& f.readable == (p@.len() > 0)
                &&& f.hangup == (p.writers() == 0)
                &&& !f.writable && !f.error
            }
            &&& vfs.files@[h as int].flags & 3 != O_RDONLY ==> {
                let f = spec_fd_poll(vfs, proc, pipes, fd)->Some_0;
                &&& f.writable == (p@.len() < PIPE_BUFFER_SIZE)
                &&& f.error == (p.readers() == 0)
                &&& !f.readable && !f.hangup
            }
        }),
{
}

/// Any descriptor that is open polls to some readiness; one not open polls
/// to none. Files other than pipe ends are always ready for both.
pub proof fn lemma_fd_poll_open(vfs: Vfs, proc: Process, pipes: Seq<PipeBuffer>, fd: i32)
    ensures
        (spec_fd_poll(vfs, proc, pipes, fd) is Some) == (fd_handle(vfs, proc, fd) is Some),
        fd_handle(vfs, proc, fd) matches Some(h) ==> (!(vfs.fs.kind(vfs.files@[h as int].inode as int) matches
            InodeKind::Special { file_type: FileType::Fifo, .. }) ==>
            spec_fd_poll(vfs, proc, pipes, fd) == Some(InodePollFlags { readable: true, writable: true, hangup: false, error: false })),
{
}

/// Polls the file behind descriptor `fd` (`spec_fd_poll`).
pub fn fd_poll(vfs: &Vfs, proc: &Process, pipes: &Vec<PipeBuffer>, fd: i32) -> (r: Option<InodePollFlags>)
    requires
        vfs.wf(),
    ensures
        r == spec_fd_poll(*vfs, *proc, pipes@, fd),
{
    let h = match lookup_fd(vfs, proc, fd) {
        Ok(h) => h,
        Err(_) => return None,
    };
    let fh = vfs.files[h];
    let ready = InodePollFlags { readable: true, writable: true, hangup: false, error: false };
    match vfs.fs.kind_of(fh.inode) {
        InodeKind::Special { file_type: FileType::Fifo, id, .. } => {
            if id < pipes.len() {
                if fh.flags & 3 == O_RDONLY {
                    Some(pipes[id].poll_read())
                } else {
                    Some(pipes[id].poll_write())
                }
            } else {
                Some(ready)
            }
        },
        _ => Some(ready),
    }
}

/// The readiness of each interest of `ints`, as `epoll_wait` polls them.
pub open spec fn interest_polls(vfs: Vfs, proc: Process, pipes: Seq<PipeBuffer>, ints: Seq<(i32, EpollEvent)>)
    -> Seq<Option<InodePollFlags>> {
    Seq::new(ints.len(), |i: int| spec_fd_poll(vfs, proc, pipes, ints[i].0))
}

/// `epoll_wait(epfd, events, maxevents, _)` with the system's epoll
/// instances in `epolls` and pipes in `pipes`: `EINVAL` for `maxevents`
/// below 1 or no event buffer (`events_given`), `EBADF` when `epfd` is not
/// open, `EINVAL` when it does not name one of `epolls`; otherwise the
/// ready events of the instance's interests, in descriptor order, at most
/// `maxevents` of them, for the caller to copy out. It does not block.
pub fn sys_epoll_wait(
    vfs: &Vfs,
    proc: &Process,
    epolls: &Vec<EpollInstance>,
    pipes: &Vec<PipeBuffer>,
    epfd: i32,
    maxevents: i32,
    events_given: bool,
) -> (r: Result<Vec<EpollEvent>, i32>)
    requires
        vfs.wf(),
    ensures
        maxevents <= 0 || !events_given ==> r == Err::<Vec<EpollEvent>, i32>(EINVAL),
        maxevents > 0 && events_given ==> match fd_handle(*vfs, *proc, epfd) {
            None => r == Err::<Vec<EpollEvent>, i32>(EBADF),
            Some(h) => match vfs.fs.kind(vfs.files@[h as int].inode as int) {
                InodeKind::Special { file_type: FileType::Anonymous, id, .. } => if id >= epolls@.len() {
                    r == Err::<Vec<EpollEvent>, i32>(EINVAL)
                } else {
                    let ints = epolls@[id as int]@;
                    r matches Ok(v) && v@ == ready_events(ints, interest_polls(*vfs, *proc, pipes@, ints), 0, maxevents as int)
                },
                _ => r == Err::<Vec<EpollEvent>, i32>(EINVAL),
            },
        },
{
    if maxevents <= 0 || !events_given {
        return Err(EINVAL);
    }
    let max = maxevents as usize;
    let id = match epoll_target(vfs, proc, epfd) {
        Ok(id) => id,
        Err(e) => return Err(e),
    };
    if id >= epolls.len() {
        return Err(EINVAL);
    }
    let ep = &epolls[id];
    let fds = ep.interest_fds();
    let ghost ints = ep@;
    let mut polls: Vec<Option<InodePollFlags>> = Vec::new();
    let mut i: usize = 0;
    while i < fds.len()
        invariant
            vfs.wf(),
            fds@.len() == ints.len(),
            forall|j: int| 0 <= j < ints.len() ==> #[trigger] fds@[j] == ints[j].0,
            i <= fds@.len(),
            polls@.len() == i,
            forall|j: int| 0 <= j < i ==> #[trigger] polls@[j] == spec_fd_poll(*vfs, *proc, pipes@, ints[j].0),
        decreases fds@.len() - i,
    {
        polls.push(fd_poll(vfs, proc, pipes, fds[i]));
        i += 1;
    }
    proof {
        assert(polls@ =~= interest_polls(*vfs, *proc, pipes@, ints));
    }
    let mut kbuf: Vec<EpollEvent> = Vec::new();
    let mut k: usize = 0;
    while k < max
        invariant
            k <= max,
            kbuf@.len() == k,
        decreases max - k,
    {
        kbuf.push(EpollEvent { events: 0, data: 0 });
        k += 1;
    }
    let n = match ep.wait(&polls, &mut kbuf, max) {
        Ok(n) => n,
        Err(e) => return Err(e),
    };
    let ghost found = ready_events(ints, polls@, 0, max as int);
    proof {
        lemma_ready_len(ints, polls@, 0, max as int);
    }
    let mut out: Vec<EpollEvent> = Vec::new();
    let mut j: usize = 0;
    while j < n
        invariant
            n == found.len(),
            kbuf@.subrange(0, n as int) == found,
            n <= kbuf@.len(),
            j <= n,
            out@ == found.subrange(0, j as int),
        decreases n - j,
    {
        proof {
            assert(kbuf@[j as int] == kbuf@.subrange(0, n as int)[j as int]);
        }
        out.push(kbuf[j]);
        proof {
            assert(out@ =~= found.subrange(0, j as int + 1));
        }
        j += 1;
    }
    proof {
        assert(out@ =~= found);
    }
    Ok(out)
}

/// The bytes of the executable `execve` is given: the whole of the regular
/// file `path` resolves to from `cwd`; nothing for a special inode (which
/// then fails as an image); `EISDIR` for a directory; the resolution's
/// error otherwise.
pub fn read_executable(vfs: &Vfs, cwd: &Vec<u8>, path: &Vec<u8>) -> (r: Result<Vec<u8>, i32>)
    requires
        vfs.wf(),
    ensures
        match spec_resolve(vfs.fs, vfs.root, cwd@, path@) {
            Err(e) => r == Err::<Vec<u8>, i32>(e),
            Ok(i) => match vfs.fs.kind(i as int) {
                InodeKind::Directory => r == Err::<Vec<u8>, i32>(EISDIR),
                InodeKind::RegularFile => r matches Ok(v) && v@ == vfs.fs.data(i as int),
                InodeKind::Special { .. } => r matches Ok(v) && v@.len() == 0,
            },
        },
{
    let ino = match resolve_path_with_cwd(&vfs.fs, vfs.root, cwd, path) {
        Ok(i) => i,
        Err(e) => return Err(e),
    };
    match vfs.fs.kind_of(ino) {
        InodeKind::Special { .. } => return Ok(Vec::new()),
        _ => {},
    }
    let size = vfs.fs.size_of(ino);
    let mut data: Vec<u8> = vec![0u8; size];
    match vfs.fs.read(ino, 0, &mut data) {
        Ok(n) => {
            proof {
                assert(data@ =~= vfs.fs.data(ino as int));
            }
            Ok(data)
        },
        Err(e) => Err(EISDIR),
    }
}

} // verus!

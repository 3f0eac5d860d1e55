//! Open file descriptions: an inode of the filesystem, a position in it and
//! the flags it was opened with.

use vstd::prelude::*;
use crate::abi::{EINVAL, O_APPEND, SEEK_CUR, SEEK_END, SEEK_SET};
use crate::vfs::ramfs::{InodeKind, RamFs, spec_write_at};

verus! {

/// An open file description. Descriptors of one or several processes may
/// share it, and with it the position.
#[derive(Debug, Clone, Copy, PartialEq, Eq, Structural)]
pub struct FileHandle {
    /// Inode the description refers to.
    pub inode: usize,
    /// Current read/write position.
    pub offset: usize,
    /// Flags given to `open` (access mode, `O_APPEND`, `O_NONBLOCK`, ...).
    pub flags: i32,
}

/// How many bytes a read of `buf_len` bytes at `offset` returns from a file of
/// `len` bytes.
pub open spec fn read_count(len: int, offset: int, buf_len: int) -> int {
    if offset >= len { 0 } else if buf_len < len - offset { buf_len } else { len - offset }
}

/// The buffer after such a read: the bytes read, then what it held past them.
pub open spec fn read_into(d: Seq<u8>, offset: int, buf: Seq<u8>) -> Seq<u8> {
    let n = read_count(d.len() as int, offset, buf.len() as int);
    if offset >= d.len() { buf } else { d.subrange(offset, offset + n) + buf.subrange(n, buf.len() as int) }
}

/// The position `lseek` computes, or `None` where it fails with `EINVAL`:
/// an unknown `whence`, a negative result, or one past the range of `i64`.
pub open spec fn seek_target(cur: int, size: int, offset: int, whence: i32) -> Option<int> {
    let t = if whence == SEEK_SET {
        offset
    } else if whence == SEEK_CUR {
        cur + offset
    } else {
        size + offset
    };
    if whence != SEEK_SET && whence != SEEK_CUR && whence != SEEK_END {
        None
    } else if t < 0 || t > i64::MAX || t > usize::MAX {
        None
    } else {
        Some(t)
    }
}

/// Where a write of a description with `flags` begins: the end of the file
/// (its `st_size`) under `O_APPEND`, else the current position.
pub open spec fn write_start(flags: i32, offset: int, size: int) -> int {
    if flags & O_APPEND != 0 { size } else { offset }
}

/// The size of an inode: its byte count for a regular file, zero for any
/// other kind (what `stat` reports).
pub open spec fn ram_size(fs: RamFs, i: int) -> int {
    if fs.kind(i) == InodeKind::RegularFile { fs.data(i).len() as int } else { 0 }
}

/// A read at the offset of a write, of the written length, gives back the
/// written bytes; a write changes no byte outside its range.
pub proof fn lemma_read_after_write(d: Seq<u8>, offset: int, b: Seq<u8>, buf: Seq<u8>)
    requires
        0 <= offset,
        0 < b.len(),
        buf.len() == b.len(),
    ensures
        read_count(spec_write_at(d, offset, b).len() as int, offset, buf.len() as int) == b.len(),
        read_into(spec_write_at(d, offset, b), offset, buf) == b,
        forall|j: int| 0 <= j < d.len() && !(offset <= j < offset + b.len()) ==> #[trigger] spec_write_at(d, offset, b)[j] == d[j],
{
    let w = spec_write_at(d, offset, b);
    assert(w.len() >= offset + b.len());
    assert(read_into(w, offset, buf) =~= b);
}

impl FileHandle {
    /// A description of `inode` positioned at its start.
    pub fn new(inode: usize, flags: i32) -> (r: Self)
        ensures
            r.inode == inode,
            r.offset == 0,
            r.flags == flags,
    {
        FileHandle { inode, offset: 0, flags }
    }

    /// Reads up to `buf.len()` bytes at the position into the front of `buf`
    /// and advances the position by the count read. A directory fails with
    /// `EISDIR` and nothing changes.
    pub fn read(&mut self, fs: &RamFs, buf: &mut Vec<u8>) -> (r: Result<usize, i32>)
        requires
            old(self).inode < fs.count(),
            !(fs.kind(old(self).inode as int) is Special),
        ensures
            final(self).inode == old(self).inode,
            final(self).flags == old(self).flags,
            fs.kind(old(self).inode as int) == InodeKind::Directory ==> {
                &&& r is Err
                &&& final(self).offset == old(self).offset
                &&& final(buf)@ == old(buf)@
            },
            fs.kind(old(self).inode as int) == InodeKind::RegularFile ==> {
                let d = fs.data(old(self).inode as int);
                let n = read_count(d.len() as int, old(self).offset as int, old(buf)@.len() as int);
                &&& r == Ok::<usize, i32>(n as usize)
                &&& final(self).offset == old(self).offset + n
                &&& final(buf)@ == read_into(d, old(self).offset as int, old(buf)@)
            },
    {
        let ghost b0 = buf@;
        let r = fs.read(self.inode, self.offset, buf);
        match r {
            Ok(n) => {
                proof {
                    let d = fs.data(self.inode as int);
                    let nn = read_count(d.len() as int, self.offset as int, b0.len() as int);
                    assert(fs.kind(self.inode as int) == InodeKind::RegularFile);
                    assert(0 <= nn <= b0.len());
                    assert(n == nn as usize);
                    fs.lemma_data_len(self.inode as int);
                    assert(self.offset + n <= d.len() || n == 0);
                }
                self.offset = self.offset + n;
                Ok(n)
            },
            Err(e) => Err(e),
        }
    }

    /// Writes `buf` at the position (at the end of the file under
    /// `O_APPEND`) and leaves the position after the bytes written. A
    /// directory fails with `EISDIR`; under `O_APPEND` the position still
    /// moves to the size `stat` reports, as the original ordering has it.
    pub fn write(&mut self, fs: &mut RamFs, buf: &Vec<u8>) -> (r: Result<usize, i32>)
        requires
            old(fs).wf(),
            old(self).inode < old(fs).count(),
            !(old(fs).kind(old(self).inode as int) is Special),
            old(self).offset + buf@.len() <= usize::MAX,
            ram_size(*old(fs), old(self).inode as int) + buf@.len() <= usize::MAX,
        ensures
            final(fs).wf(),
            final(self).inode == old(self).inode,
            final(self).flags == old(self).flags,
            final(fs).count() == old(fs).count(),
            forall|i: int| 0 <= i < old(fs).count() ==> #[trigger] final(fs).kind(i) == old(fs).kind(i)
                && final(fs).meta(i) == old(fs).meta(i) && final(fs).dir(i) == old(fs).dir(i)
                && final(fs).subdirs(i) == old(fs).subdirs(i) && final(fs).dir_names(i) == old(fs).dir_names(i),
            forall|i: int| 0 <= i < old(fs).count() && i != old(self).inode ==> #[trigger] final(fs).data(i) == old(fs).data(i),
            ({
                let ino = old(self).inode as int;
                let start = write_start(old(self).flags, old(self).offset as int, ram_size(*old(fs), ino));
                &&& old(fs).kind(ino) == InodeKind::Directory ==> {
                    &&& r is Err
                    &&& final(self).offset == start
                    &&& *final(fs) == *old(fs)
                }
                &&& old(fs).kind(ino) == InodeKind::RegularFile ==> {
                    &&& r == Ok::<usize, i32>(buf@.len() as usize)
                    &&& final(self).offset == start + buf@.len()
                    &&& final(fs).data(ino) == spec_write_at(old(fs).data(ino), start, buf@)
                }
            }),
    {
        if self.flags & O_APPEND != 0 {
            self.offset = fs.size_of(self.inode);
        }
        let r = fs.write(self.inode, self.offset, buf);
        match r {
            Ok(n) => {
                self.offset = self.offset + n;
                Ok(n)
            },
            Err(e) => Err(e),
        }
    }

    /// Moves the position: to `offset` (`SEEK_SET`), by `offset`
    /// (`SEEK_CUR`) or to `offset` past the size `stat` reports (`SEEK_END`).
    /// An unknown `whence` or a target below zero (or past `i64`) fails with
    /// `EINVAL` and leaves the position.
    pub fn lseek(&mut self, fs: &RamFs, offset: i64, whence: i32) -> (r: Result<i64, i32>)
        requires
            old(self).inode < fs.count(),
        ensures
            final(self).inode == old(self).inode,
            final(self).flags == old(self).flags,
            match seek_target(old(self).offset as int, ram_size(*fs, old(self).inode as int), offset as int, whence) {
                Some(t) => r == Ok::<i64, i32>(t as i64) && final(self).offset == t,
                None => r == Err::<i64, i32>(EINVAL) && final(self).offset == old(self).offset,
            },
    {
        let cur: i128 = self.offset as i128;
        let target: i128 = if whence == SEEK_SET {
            offset as i128
        } else if whence == SEEK_CUR {
            cur + offset as i128
        } else if whence == SEEK_END {
            fs.size_of(self.inode) as i128 + offset as i128
        } else {
            return Err(EINVAL);
        };
        if target < 0 || target > i64::MAX as i128 {
            return Err(EINVAL);
        }
        if target > usize::MAX as i128 {
            return Err(EINVAL);
        }
        self.offset = target as usize;
        Ok(target as i64)
    }
}

/// The mounted filesystem: the inode arena, its root directory and the
/// table of open file descriptions that process descriptors index.
pub struct Vfs {
    pub fs: RamFs,
    /// Root directory, once mounted.
    pub root: Option<usize>,
    /// Open file descriptions; a descriptor holds an index into it.
    pub files: Vec<FileHandle>,
}

impl Vfs {
    /// The arena is well formed and the root and every description refer
    /// to existing inodes.
    pub open spec fn wf(&self) -> bool {
        &&& self.fs.wf()
        &&& (self.root matches Some(r) ==> r < self.fs.count())
        &&& forall|i: int| 0 <= i < self.files@.len() ==> #[trigger] self.files@[i].inode < self.fs.count()
    }

    /// A filesystem over `fs` rooted at `root`, with nothing open.
    pub fn new(fs: RamFs, root: Option<usize>) -> (r: Self)
        requires
            fs.wf(),
            root matches Some(rt) ==> rt < fs.count(),
        ensures
            r.wf(),
            r.fs == fs,
            r.root == root,
            r.files@.len() == 0,
    {
        Vfs { fs, root, files: Vec::new() }
    }

    /// Opens a new description of `inode` and returns its index.
    pub fn open_file(&mut self, inode: usize, flags: i32) -> (id: usize)
        requires
            old(self).wf(),
            inode < old(self).fs.count(),
        ensures
            final(self).wf(),
            final(self).fs == old(self).fs,
            final(self).root == old(self).root,
            final(self).files@ == old(self).files@.push(FileHandle { inode, offset: 0, flags }),
            id == old(self).files@.len(),
    {
        let id = self.files.len();
        self.files.push(FileHandle::new(inode, flags));
        id
    }
}

} // verus!

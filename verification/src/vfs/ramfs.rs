//! In-memory filesystem: an arena of inodes, each a directory, a regular
//! file or a special node (device, pipe end, epoll instance, proc file).

use vstd::prelude::*;
use crate::abi::{DT_CHR, DT_DIR, DT_FIFO, DT_REG, EEXIST, EISDIR, ENOENT, ENOTDIR, ENOTEMPTY, EXDEV, S_IFDIR, S_IFREG};
use crate::vfs::name::names_equal as names_eq;
use crate::vfs::name::lex_lt;
use crate::vfs::dirent::{Dirent64, create_dirent, spec_dirent_name};
use crate::vfs::entries::{
    DirEntry, has_name, inos_below, sorted_entries, entry_map, entries_insert, entries_remove, entries_get,
};

verus! {

/// Categorical file type of an inode.
#[derive(Debug, Clone, Copy, PartialEq, Eq, Structural)]
pub enum FileType {
    /// Regular file.
    Regular,
    /// Directory.
    Directory,
    /// Unbuffered character device.
    CharacterDevice,
    /// Block device.
    BlockDevice,
    /// Named or anonymous pipe.
    Fifo,
    /// Socket.
    Socket,
    /// Symbolic link.
    Symlink,
    /// Kernel-internal pseudo inode.
    Anonymous,
}

/// What an inode of the arena is.
#[derive(Debug, Clone, Copy, PartialEq, Eq, Structural)]
pub enum InodeKind {
    /// A directory of named entries.
    Directory,
    /// A regular file backed by a byte vector.
    RegularFile,
    /// A node whose behaviour lives in another subsystem (`id` names it
    /// there); `st_mode` is what `stat` reports for it.
    Special { file_type: FileType, id: usize, st_mode: u32 },
}

/// File status returned by `stat`.
#[derive(Debug, Clone, Copy, PartialEq, Eq, Structural)]
pub struct Stat {
    /// File type and permission bits.
    pub st_mode: u32,
    /// Owner user ID.
    pub st_uid: u32,
    /// Owner group ID.
    pub st_gid: u32,
    /// Size in bytes.
    pub st_size: i64,
}

/// One inode of the arena.
pub struct Node {
    kind: InodeKind,
    mode: u16,
    uid: u32,
    gid: u32,
    data: Vec<u8>,
    entries: Vec<DirEntry>,
    subdirs: Vec<DirEntry>,
}

/// The arena of all inodes; inode numbers are indices.
pub struct RamFs {
    nodes: Vec<Node>,
}

/// The file type of an inode kind.
pub open spec fn kind_file_type(k: InodeKind) -> FileType {
    match k {
        InodeKind::Directory => FileType::Directory,
        InodeKind::RegularFile => FileType::Regular,
        InodeKind::Special { file_type, .. } => file_type,
    }
}

impl RamFs {
    /// Number of inodes.
    pub closed spec fn count(&self) -> nat {
        self.nodes@.len()
    }

    /// Kind of inode `i`.
    pub closed spec fn kind(&self, i: int) -> InodeKind {
        self.nodes@[i].kind
    }

    /// Permission bits, owner and group of inode `i`.
    pub closed spec fn meta(&self, i: int) -> (u16, u32, u32) {
        (self.nodes@[i].mode, self.nodes@[i].uid, self.nodes@[i].gid)
    }

    /// Contents of regular file `i`.
    pub closed spec fn data(&self, i: int) -> Seq<u8> {
        self.nodes@[i].data@
    }

    /// Name-to-inode map of directory `i`.
    pub closed spec fn dir(&self, i: int) -> Map<Seq<u8>, usize> {
        entry_map(self.nodes@[i].entries@)
    }

    /// Names of directory `i` in the order `readdir` lists them.
    pub closed spec fn dir_names(&self, i: int) -> Seq<Seq<u8>> {
        self.nodes@[i].entries@.map_values(|e: DirEntry| e.name@)
    }

    /// Subdirectory cache of directory `i` (consulted by `get_or_create_subdir`).
    pub closed spec fn subdirs(&self, i: int) -> Map<Seq<u8>, usize> {
        entry_map(self.nodes@[i].subdirs@)
    }

    /// Inode `i` exists and is a directory.
    pub open spec fn is_dir(&self, i: int) -> bool {
        0 <= i < self.count() && self.kind(i) == InodeKind::Directory
    }

    /// Every directory's entry lists are sorted by name and every entry
    /// refers to an existing inode.
    pub closed spec fn wf(&self) -> bool {
        forall|i: int| 0 <= i < self.nodes@.len() ==> {
            &&& sorted_entries(#[trigger] self.nodes@[i].entries@)
            &&& sorted_entries(self.nodes@[i].subdirs@)
            &&& inos_below(self.nodes@[i].entries@, self.nodes@.len() as int)
            &&& inos_below(self.nodes@[i].subdirs@, self.nodes@.len() as int)
        }
    }

    /// Every inode other than `d` is unchanged, and `d` kept its kind,
    /// metadata and data.
    pub open spec fn same_except_dir(&self, other: &RamFs, d: int) -> bool {
        &&& self.count() == other.count()
        &&& forall|i: int| 0 <= i < self.count() ==> #[trigger] self.kind(i) == other.kind(i)
            && self.meta(i) == other.meta(i) && self.data(i) == other.data(i)
        &&& forall|i: int| 0 <= i < self.count() && i != d ==> #[trigger] self.dir(i) == other.dir(i)
            && self.subdirs(i) == other.subdirs(i) && self.dir_names(i) == other.dir_names(i)
    }

    /// Every inode other than `a` and `b` is unchanged, and all kept their
    /// kind, metadata and data.
    pub open spec fn same_except_dirs(&self, other: &RamFs, a: int, b: int) -> bool {
        &&& self.count() == other.count()
        &&& forall|i: int| 0 <= i < self.count() ==> #[trigger] self.kind(i) == other.kind(i)
            && self.meta(i) == other.meta(i) && self.data(i) == other.data(i)
        &&& forall|i: int| 0 <= i < self.count() && i != a && i != b ==> #[trigger] self.dir(i) == other.dir(i)
            && self.subdirs(i) == other.subdirs(i) && self.dir_names(i) == other.dir_names(i)
    }

    /// `other` is `self` with one inode appended.
    pub open spec fn appended(&self, other: &RamFs) -> bool {
        &&& other.count() == self.count() + 1
        &&& forall|i: int| 0 <= i < self.count() ==> #[trigger] other.kind(i) == self.kind(i)
            && other.meta(i) == self.meta(i) && other.data(i) == self.data(i)
            && other.dir(i) == self.dir(i) && other.subdirs(i) == self.subdirs(i)
            && other.dir_names(i) == self.dir_names(i)
    }

    /// `other` is `self` with two inodes appended.
    pub open spec fn appended_two(&self, other: &RamFs) -> bool {
        &&& other.count() == self.count() + 2
        &&& forall|i: int| 0 <= i < self.count() ==> #[trigger] other.kind(i) == self.kind(i)
            && other.meta(i) == self.meta(i) && other.data(i) == self.data(i)
            && other.dir(i) == self.dir(i) && other.subdirs(i) == self.subdirs(i)
            && other.dir_names(i) == self.dir_names(i)
    }

    /// An empty arena.
    pub fn new() -> (r: Self)
        ensures
            r.wf(),
            r.count() == 0,
    {
        RamFs { nodes: Vec::new() }
    }

    /// Number of inodes.
    pub fn len(&self) -> (r: usize)
        ensures
            r == self.count(),
    {
        self.nodes.len()
    }

    fn push_node(&mut self, node: Node) -> (ino: usize)
        requires
            old(self).wf(),
            node.entries@.len() == 0,
            node.subdirs@.len() == 0,
            old(self).count() < usize::MAX,
        ensures
            final(self).wf(),
            ino == old(self).count(),
            old(self).appended(final(self)),
            final(self).kind(ino as int) == node.kind,
            final(self).meta(ino as int) == (node.mode, node.uid, node.gid),
            final(self).data(ino as int) == node.data@,
            final(self).dir(ino as int) == Map::<Seq<u8>, usize>::empty(),
            final(self).subdirs(ino as int) == Map::<Seq<u8>, usize>::empty(),
            final(self).dir_names(ino as int) == Seq::<Seq<u8>>::empty(),
    {
        let ino = self.nodes.len();
        self.nodes.push(node);
        proof {
            assert(entry_map(self.nodes@[ino as int].entries@) =~= Map::<Seq<u8>, usize>::empty());
            assert(entry_map(self.nodes@[ino as int].subdirs@) =~= Map::<Seq<u8>, usize>::empty());
            assert(self.dir_names(ino as int) =~= Seq::<Seq<u8>>::empty());
            assert forall|i: int| 0 <= i < old(self).count() implies #[trigger] self.nodes@[i] == old(self).nodes@[i] by {}
            assert forall|i: int| 0 <= i < self.nodes@.len() implies {
                &&& sorted_entries(#[trigger] self.nodes@[i].entries@)
                &&& sorted_entries(self.nodes@[i].subdirs@)
                &&& inos_below(self.nodes@[i].entries@, self.nodes@.len() as int)
                &&& inos_below(self.nodes@[i].subdirs@, self.nodes@.len() as int)
            } by {
                if i < ino {
                    assert(self.nodes@[i] == old(self).nodes@[i]);
                    assert(inos_below(old(self).nodes@[i].entries@, ino as int));
                    assert(inos_below(old(self).nodes@[i].subdirs@, ino as int));
                }
            }
        }
        ino
    }

    /// Creates a directory with the given permission bits and owner.
    pub fn new_dir_with_creds(&mut self, mode: u16, uid: u32, gid: u32) -> (ino: usize)
        requires
            old(self).wf(),
            old(self).count() < usize::MAX,
        ensures
            final(self).wf(),
            ino == old(self).count(),
            old(self).appended(final(self)),
            final(self).kind(ino as int) == InodeKind::Directory,
            final(self).meta(ino as int) == (mode, uid, gid),
            final(self).dir(ino as int) == Map::<Seq<u8>, usize>::empty(),
            final(self).subdirs(ino as int) == Map::<Seq<u8>, usize>::empty(),
    {
        self.push_node(Node {
            kind: InodeKind::Directory,
            mode,
            uid,
            gid,
            data: Vec::new(),
            entries: Vec::new(),
            subdirs: Vec::new(),
        })
    }

    /// Creates a directory with mode `0755` owned by root.
    pub fn new_dir(&mut self) -> (ino: usize)
        requires
            old(self).wf(),
            old(self).count() < usize::MAX,
        ensures
            final(self).wf(),
            ino == old(self).count(),
            old(self).appended(final(self)),
            final(self).kind(ino as int) == InodeKind::Directory,
            final(self).meta(ino as int) == (0o755u16, 0u32, 0u32),
            final(self).dir(ino as int) == Map::<Seq<u8>, usize>::empty(),
            final(self).subdirs(ino as int) == Map::<Seq<u8>, usize>::empty(),
    {
        self.new_dir_with_creds(0o755, 0, 0)
    }

    /// Creates a regular file with the given contents, permission bits and
    /// owner.
    pub fn new_file_with_creds(&mut self, data: Vec<u8>, mode: u16, uid: u32, gid: u32) -> (ino: usize)
        requires
            old(self).wf(),
            old(self).count() < usize::MAX,
        ensures
            final(self).wf(),
            ino == old(self).count(),
            old(self).appended(final(self)),
            final(self).kind(ino as int) == InodeKind::RegularFile,
            final(self).meta(ino as int) == (mode, uid, gid),
            final(self).data(ino as int) == data@,
            final(self).subdirs(ino as int) == Map::<Seq<u8>, usize>::empty(),
    {
        self.push_node(Node {
            kind: InodeKind::RegularFile,
            mode,
            uid,
            gid,
            data,
            entries: Vec::new(),
            subdirs: Vec::new(),
        })
    }

    /// Creates a regular file with mode `0644` owned by root.
    pub fn new_file(&mut self, data: Vec<u8>) -> (ino: usize)
        requires
            old(self).wf(),
            old(self).count() < usize::MAX,
        ensures
            final(self).wf(),
            ino == old(self).count(),
            old(self).appended(final(self)),
            final(self).kind(ino as int) == InodeKind::RegularFile,
            final(self).meta(ino as int) == (0o644u16, 0u32, 0u32),
            final(self).data(ino as int) == data@,
            final(self).subdirs(ino as int) == Map::<Seq<u8>, usize>::empty(),
    {
        self.new_file_with_creds(data, 0o644, 0, 0)
    }

    /// Registers a special node (device, pipe end, epoll instance, proc file).
    pub fn new_special(&mut self, file_type: FileType, id: usize, st_mode: u32) -> (ino: usize)
        requires
            old(self).wf(),
            old(self).count() < usize::MAX,
        ensures
            final(self).wf(),
            ino == old(self).count(),
            old(self).appended(final(self)),
            final(self).kind(ino as int) == (InodeKind::Special { file_type, id, st_mode }),
            final(self).meta(ino as int) == (0u16, 0u32, 0u32),
    {
        self.push_node(Node {
            kind: InodeKind::Special { file_type, id, st_mode },
            mode: 0,
            uid: 0,
            gid: 0,
            data: Vec::new(),
            entries: Vec::new(),
            subdirs: Vec::new(),
        })
    }

    /// Kind of inode `ino`.
    pub fn kind_of(&self, ino: usize) -> (r: InodeKind)
        requires
            ino < self.count(),
        ensures
            r == self.kind(ino as int),
    {
        self.nodes[ino].kind
    }

    /// File type of inode `ino`.
    pub fn file_type(&self, ino: usize) -> (r: FileType)
        requires
            ino < self.count(),
        ensures
            r == kind_file_type(self.kind(ino as int)),
    {
        match self.nodes[ino].kind {
            InodeKind::Directory => FileType::Directory,
            InodeKind::RegularFile => FileType::Regular,
            InodeKind::Special { file_type, .. } => file_type,
        }
    }

    /// Number of entries of directory `dir`.
    pub fn entry_count(&self, dir: usize) -> (r: usize)
        requires
            self.wf(),
            dir < self.count(),
        ensures
            r == self.dir(dir as int).len(),
    {
        proof {
            self.lemma_dir_len(dir as int);
        }
        self.nodes[dir].entries.len()
    }

    proof fn lemma_dir_len(&self, d: int)
        requires
            self.wf(),
            0 <= d < self.count(),
        ensures
            self.dir(d).len() == self.nodes@[d].entries@.len(),
            self.dir(d).dom().finite(),
            self.dir_names(d).len() == self.nodes@[d].entries@.len(),
    {
        let s = self.nodes@[d].entries@;
        assert(sorted_entries(s));
        let names = s.map_values(|e: DirEntry| e.name@);
        assert forall|i: int, j: int| 0 <= i < j < names.len() implies names[i] != names[j] by {
            if names[i] == names[j] {
                crate::vfs::entries::lemma_sorted_unique(s, i, j);
            }
        }
        assert(names.no_duplicates());
        assert(entry_map(s).dom() =~= names.to_set()) by {
            assert forall|k: Seq<u8>| entry_map(s).dom().contains(k) <==> names.to_set().contains(k) by {
                if entry_map(s).dom().contains(k) {
                    let i = choose|i: int| 0 <= i < s.len() && (#[trigger] s[i]).name@ == k;
                    assert(names[i] == k);
                }
                if names.to_set().contains(k) {
                    let i = choose|i: int| 0 <= i < names.len() && names[i] == k;
                    assert(s[i].name@ == k);
                }
            }
        }
        names.unique_seq_to_set();
    }

    /// What a directory lists: each of its names once, in ascending byte
    /// order, and no other name; so the listing has as many entries as the
    /// directory has names.
    pub proof fn lemma_listing(&self, d: int)
        requires
            self.wf(),
            0 <= d < self.count(),
        ensures
            self.dir_names(d).no_duplicates(),
            forall|i: int, j: int| 0 <= i < j < self.dir_names(d).len()
                ==> lex_lt(#[trigger] self.dir_names(d)[i], #[trigger] self.dir_names(d)[j]),
            forall|n: Seq<u8>| #[trigger] self.dir(d).contains_key(n) <==> self.dir_names(d).contains(n),
            self.dir_names(d).len() == self.dir(d).len(),
            self.dir(d).dom().finite(),
    {
        self.lemma_dir_len(d);
        let s = self.nodes@[d].entries@;
        let names = self.dir_names(d);
        assert(sorted_entries(s));
        assert forall|i: int, j: int| 0 <= i < j < names.len() implies lex_lt(#[trigger] names[i], #[trigger] names[j]) by {
            assert(names[i] == s[i].name@);
            assert(names[j] == s[j].name@);
        }
        assert forall|i: int, j: int| 0 <= i < names.len() && 0 <= j < names.len() && i != j
            implies names[i] != names[j] by {
            if names[i] == names[j] {
                crate::vfs::entries::lemma_sorted_unique(s, i, j);
            }
        }
        assert forall|n: Seq<u8>| #[trigger] self.dir(d).contains_key(n) <==> names.contains(n) by {
            if self.dir(d).contains_key(n) {
                let i = choose|i: int| 0 <= i < s.len() && (#[trigger] s[i]).name@ == n;
                assert(names[i] == n);
            }
            if names.contains(n) {
                let i = choose|i: int| 0 <= i < names.len() && names[i] == n;
                assert(s[i].name@ == n);
                assert(has_name(s, n));
            }
        }
    }

    /// Looks `name` up in directory `dir`.
    pub fn lookup(&self, dir: usize, name: &Vec<u8>) -> (r: Result<usize, i32>)
        requires
            self.wf(),
            dir < self.count(),
        ensures
            !self.is_dir(dir as int) ==> r == Err::<usize, i32>(ENOTDIR),
            self.is_dir(dir as int) ==> match r {
                Ok(ino) => self.dir(dir as int).contains_key(name@) && self.dir(dir as int)[name@] == ino,
                Err(e) => e == ENOENT && !self.dir(dir as int).contains_key(name@),
            },
            r matches Ok(ino) ==> ino < self.count(),
    {
        if self.nodes[dir].kind != InodeKind::Directory {
            return Err(ENOTDIR);
        }
        proof {
            assert(sorted_entries(self.nodes@[dir as int].entries@));
        }
        match entries_get(&self.nodes[dir].entries, name) {
            Some(ino) => {
                proof {
                    let s = self.nodes@[dir as int].entries@;
                    let i = choose|i: int| 0 <= i < s.len() && (#[trigger] s[i]).name@ == name@;
                    crate::vfs::entries::lemma_entry_map_at(s, i);
                    assert(s[i].ino < self.count());
                }
                Ok(ino)
            },
            None => Err(ENOENT),
        }
    }

    /// Adds or replaces the entry `name` of directory `dir`.
    pub fn add_child(&mut self, dir: usize, name: &Vec<u8>, ino: usize)
        requires
            old(self).wf(),
            old(self).is_dir(dir as int),
            ino < old(self).count(),
        ensures
            final(self).wf(),
            final(self).same_except_dir(old(self), dir as int),
            final(self).dir(dir as int) == old(self).dir(dir as int).insert(name@, ino),
            final(self).subdirs(dir as int) == old(self).subdirs(dir as int),
    {
        let ghost old_fs = *self;
        let ghost n = self.nodes@.len();
        proof {
            assert(sorted_entries(self.nodes@[dir as int].entries@));
            assert(inos_below(self.nodes@[dir as int].entries@, n as int));
        }
        let node = &mut self.nodes[dir];
        entries_insert(&mut node.entries, name, ino);
        proof {
            assert(inos_below(self.nodes@[dir as int].entries@, n as int));
        }
        proof {
            self.lemma_frame_after_entries_change(&old_fs, dir as int);
        }
    }

    proof fn lemma_frame_after_entries_change(&self, old_fs: &RamFs, d: int)
        requires
            old_fs.wf(),
            0 <= d < old_fs.count(),
            self.nodes@.len() == old_fs.nodes@.len(),
            forall|i: int| 0 <= i < self.nodes@.len() && i != d ==> #[trigger] self.nodes@[i] == old_fs.nodes@[i],
            self.nodes@[d].kind == old_fs.nodes@[d].kind,
            self.nodes@[d].mode == old_fs.nodes@[d].mode,
            self.nodes@[d].uid == old_fs.nodes@[d].uid,
            self.nodes@[d].gid == old_fs.nodes@[d].gid,
            self.nodes@[d].data@ == old_fs.nodes@[d].data@,
            sorted_entries(self.nodes@[d].entries@),
            sorted_entries(self.nodes@[d].subdirs@),
            inos_below(self.nodes@[d].entries@, self.nodes@.len() as int),
            inos_below(self.nodes@[d].subdirs@, self.nodes@.len() as int),
        ensures
            self.wf(),
            self.same_except_dir(old_fs, d),
    {
        assert forall|i: int| 0 <= i < self.count() && i != d implies #[trigger] self.dir(i) == old_fs.dir(i)
            && self.subdirs(i) == old_fs.subdirs(i) && self.dir_names(i) == old_fs.dir_names(i) by {
            assert(self.nodes@[i] == old_fs.nodes@[i]);
        }
        assert forall|i: int| 0 <= i < self.count() implies #[trigger] self.kind(i) == old_fs.kind(i)
            && self.meta(i) == old_fs.meta(i) && self.data(i) == old_fs.data(i) by {
            if i != d {
                assert(self.nodes@[i] == old_fs.nodes@[i]);
            }
        }
        assert forall|i: int| 0 <= i < self.nodes@.len() implies {
            &&& sorted_entries(#[trigger] self.nodes@[i].entries@)
            &&& sorted_entries(self.nodes@[i].subdirs@)
            &&& inos_below(self.nodes@[i].entries@, self.nodes@.len() as int)
            &&& inos_below(self.nodes@[i].subdirs@, self.nodes@.len() as int)
        } by {
            if i != d {
                assert(self.nodes@[i] == old_fs.nodes@[i]);
            }
        }
    }
    /// The error `rename(od, on, nd, nn)` reports, if any.
    pub open spec fn rename_error(&self, od: int, on: Seq<u8>, nd: int, nn: Seq<u8>) -> Option<i32> {
        if !self.is_dir(nd) {
            Some(EXDEV)
        } else if !self.dir(od).contains_key(on) {
            Some(ENOENT)
        } else if od == nd && on == nn {
            None
        } else if self.dir(nd).contains_key(nn) {
            let src = self.dir(od)[on] as int;
            let tgt = self.dir(nd)[nn] as int;
            let src_is_dir = kind_file_type(self.kind(src)) == FileType::Directory;
            let tgt_is_dir = kind_file_type(self.kind(tgt)) == FileType::Directory;
            if src_is_dir && !tgt_is_dir {
                Some(ENOTDIR)
            } else if !src_is_dir && tgt_is_dir {
                Some(EISDIR)
            } else if src_is_dir && tgt_is_dir {
                if self.kind(tgt) == InodeKind::Directory {
                    if tgt == od || tgt == nd || self.dir(tgt).len() > 0 {
                        Some(ENOTEMPTY)
                    } else {
                        None
                    }
                } else {
                    Some(ENOTDIR)
                }
            } else {
                None
            }
        } else {
            None
        }
    }

    /// The subdirectory cache of the target directory after a rename: the
    /// target name dropped, then re-added for the moved entry if the source
    /// name was cached.
    pub open spec fn renamed_subdirs(src_cache: Map<Seq<u8>, usize>, dst_cache: Map<Seq<u8>, usize>, on: Seq<u8>, nn: Seq<u8>) -> Map<Seq<u8>, usize> {
        if src_cache.contains_key(on) {
            dst_cache.remove(nn).insert(nn, src_cache[on])
        } else {
            dst_cache.remove(nn)
        }
    }

    /// `after` is this filesystem once entry `on` of directory `od` has
    /// moved to the name `nn` of directory `nd`, replacing what was there:
    /// nothing changes for the same name, and only the one or two
    /// directories involved change otherwise.
    pub open spec fn moved_entry(&self, after: &RamFs, od: int, on: Seq<u8>, nd: int, nn: Seq<u8>) -> bool {
        let s = self.dir(od)[on];
        &&& od == nd && on == nn ==> *after == *self
        &&& od == nd && on != nn ==> {
            &&& after.same_except_dir(self, od)
            &&& after.dir(od) == self.dir(od).remove(on).insert(nn, s)
            &&& after.subdirs(od) == Self::renamed_subdirs(self.subdirs(od), self.subdirs(od).remove(on), on, nn)
        }
        &&& od != nd ==> {
            &&& after.same_except_dirs(self, od, nd)
            &&& after.dir(od) == self.dir(od).remove(on)
            &&& after.subdirs(od) == self.subdirs(od).remove(on)
            &&& after.dir(nd) == self.dir(nd).insert(nn, s)
            &&& after.subdirs(nd) == Self::renamed_subdirs(self.subdirs(od), self.subdirs(nd), on, nn)
        }
    }

    /// Moves the entry `on` of directory `od` to the name `nn` in directory
    /// `nd`, replacing an existing target of a compatible type; a target
    /// directory must be empty and must not be either parent.
    pub fn rename(&mut self, od: usize, on: &Vec<u8>, nd: usize, nn: &Vec<u8>) -> (r: Result<(), i32>)
        requires
            old(self).wf(),
            old(self).is_dir(od as int),
            nd < old(self).count(),
        ensures
            final(self).wf(),
            match old(self).rename_error(od as int, on@, nd as int, nn@) {
                Some(e) => r == Err::<(), i32>(e) && *final(self) == *old(self),
                None => r is Ok,
            },
            r is Ok ==> old(self).moved_entry(final(self), od as int, on@, nd as int, nn@),
    {
        if self.nodes[nd].kind != InodeKind::Directory {
            return Err(EXDEV);
        }
        let src = match self.lookup(od, on) {
            Ok(i) => i,
            Err(e) => return Err(e),
        };
        if od == nd && names_eq(on, nn) {
            return Ok(());
        }
        match self.lookup(nd, nn) {
            Ok(tgt) => {
                let src_is_dir = self.file_type(src) == FileType::Directory;
                let tgt_is_dir = self.file_type(tgt) == FileType::Directory;
                if src_is_dir && !tgt_is_dir {
                    return Err(ENOTDIR);
                }
                if !src_is_dir && tgt_is_dir {
                    return Err(EISDIR);
                }
                if src_is_dir && tgt_is_dir {
                    if self.nodes[tgt].kind == InodeKind::Directory {
                        if tgt == od || tgt == nd || self.entry_count(tgt) > 0 {
                            return Err(ENOTEMPTY);
                        }
                    } else {
                        return Err(ENOTDIR);
                    }
                }
            },
            Err(_) => {},
        }
        let ghost old_fs = *self;
        let ghost n = self.nodes@.len();
        proof {
            assert(sorted_entries(self.nodes@[od as int].entries@));
            assert(sorted_entries(self.nodes@[od as int].subdirs@));
            assert(sorted_entries(self.nodes@[nd as int].entries@));
            assert(sorted_entries(self.nodes@[nd as int].subdirs@));
            assert(inos_below(self.nodes@[od as int].entries@, n as int));
            assert(inos_below(self.nodes@[od as int].subdirs@, n as int));
            assert(inos_below(self.nodes@[nd as int].entries@, n as int));
            assert(inos_below(self.nodes@[nd as int].subdirs@, n as int));
        }
        {
            let node = &mut self.nodes[od];
            entries_remove(&mut node.entries, on);
        }
        let subdir = {
            let node = &mut self.nodes[od];
            entries_remove(&mut node.subdirs, on)
        };
        proof {
            if od != nd {
                assert(self.nodes@[nd as int] == old_fs.nodes@[nd as int]);
            }
        }
        {
            let node = &mut self.nodes[nd];
            entries_remove(&mut node.entries, nn);
        }
        {
            let node = &mut self.nodes[nd];
            entries_remove(&mut node.subdirs, nn);
        }
        {
            let node = &mut self.nodes[nd];
            entries_insert(&mut node.entries, nn, src);
        }
        match subdir {
            Some(sd) => {
                let node = &mut self.nodes[nd];
                entries_insert(&mut node.subdirs, nn, sd);
            },
            None => {},
        }
        proof {
            assert(inos_below(self.nodes@[od as int].entries@, n as int));
            assert(inos_below(self.nodes@[od as int].subdirs@, n as int));
            assert(inos_below(self.nodes@[nd as int].entries@, n as int));
            assert(inos_below(self.nodes@[nd as int].subdirs@, n as int));
            if od == nd {
                self.lemma_frame_after_entries_change(&old_fs, od as int);
                assert(self.dir(od as int) =~= old_fs.dir(od as int).remove(on@).insert(nn@, old_fs.dir(od as int)[on@]));
                assert(self.subdirs(od as int) =~= Self::renamed_subdirs(
                    old_fs.subdirs(od as int), old_fs.subdirs(od as int).remove(on@), on@, nn@));
            } else {
                self.lemma_frame_after_two_dirs_change(&old_fs, od as int, nd as int);
                assert(self.dir(nd as int) =~= old_fs.dir(nd as int).insert(nn@, old_fs.dir(od as int)[on@]));
            }
        }
        Ok(())
    }

    proof fn lemma_frame_after_two_dirs_change(&self, old_fs: &RamFs, a: int, b: int)
        requires
            old_fs.wf(),
            0 <= a < old_fs.count(),
            0 <= b < old_fs.count(),
            self.nodes@.len() == old_fs.nodes@.len(),
            forall|i: int| 0 <= i < self.nodes@.len() && i != a && i != b ==> #[trigger] self.nodes@[i] == old_fs.nodes@[i],
            forall|i: int| (i == a || i == b) ==> {
                &&& #[trigger] self.nodes@[i].kind == old_fs.nodes@[i].kind
                &&& self.nodes@[i].mode == old_fs.nodes@[i].mode
                &&& self.nodes@[i].uid == old_fs.nodes@[i].uid
                &&& self.nodes@[i].gid == old_fs.nodes@[i].gid
                &&& self.nodes@[i].data@ == old_fs.nodes@[i].data@
                &&& sorted_entries(self.nodes@[i].entries@)
                &&& sorted_entries(self.nodes@[i].subdirs@)
                &&& inos_below(self.nodes@[i].entries@, self.nodes@.len() as int)
                &&& inos_below(self.nodes@[i].subdirs@, self.nodes@.len() as int)
            },
        ensures
            self.wf(),
            self.same_except_dirs(old_fs, a, b),
    {
        assert(self.nodes@[a].kind == old_fs.nodes@[a].kind);
        assert(self.nodes@[b].kind == old_fs.nodes@[b].kind);
        assert forall|i: int| 0 <= i < self.count() && i != a && i != b implies #[trigger] self.dir(i) == old_fs.dir(i)
            && self.subdirs(i) == old_fs.subdirs(i) && self.dir_names(i) == old_fs.dir_names(i) by {
            assert(self.nodes@[i] == old_fs.nodes@[i]);
        }
        assert forall|i: int| 0 <= i < self.count() implies #[trigger] self.kind(i) == old_fs.kind(i)
            && self.meta(i) == old_fs.meta(i) && self.data(i) == old_fs.data(i) by {
            if i != a && i != b {
                assert(self.nodes@[i] == old_fs.nodes@[i]);
            } else {
                assert(self.nodes@[i].kind == old_fs.nodes@[i].kind);
            }
        }
        assert forall|i: int| 0 <= i < self.nodes@.len() implies {
            &&& sorted_entries(#[trigger] self.nodes@[i].entries@)
            &&& sorted_entries(self.nodes@[i].subdirs@)
            &&& inos_below(self.nodes@[i].entries@, self.nodes@.len() as int)
            &&& inos_below(self.nodes@[i].subdirs@, self.nodes@.len() as int)
        } by {
            if i != a && i != b {
                assert(self.nodes@[i] == old_fs.nodes@[i]);
            } else {
                assert(self.nodes@[i].kind == old_fs.nodes@[i].kind);
            }
        }
    }
}

impl RamFs {
    /// Creates the regular file `name` in directory `dir`, or returns the
    /// inode already named so.
    pub fn create_file(&mut self, dir: usize, name: &Vec<u8>, mode: u16, uid: u32, gid: u32) -> (r: Result<usize, i32>)
        requires
            old(self).wf(),
            dir < old(self).count(),
            old(self).count() < usize::MAX,
        ensures
            final(self).wf(),
            !old(self).is_dir(dir as int) ==> r == Err::<usize, i32>(ENOTDIR) && *final(self) == *old(self),
            old(self).is_dir(dir as int) && old(self).dir(dir as int).contains_key(name@) ==>
                r == Ok::<usize, i32>(old(self).dir(dir as int)[name@]) && *final(self) == *old(self),
            old(self).is_dir(dir as int) && !old(self).dir(dir as int).contains_key(name@) ==> {
                &&& r == Ok::<usize, i32>(old(self).count() as usize)
                &&& final(self).count() == old(self).count() + 1
                &&& final(self).kind(old(self).count() as int) == InodeKind::RegularFile
                &&& final(self).meta(old(self).count() as int) == (mode, uid, gid)
                &&& final(self).data(old(self).count() as int) == Seq::<u8>::empty()
                &&& final(self).dir(dir as int) == old(self).dir(dir as int).insert(name@, old(self).count() as usize)
                &&& final(self).subdirs(dir as int) == old(self).subdirs(dir as int)
                &&& forall|i: int| 0 <= i < old(self).count() && i != dir ==> #[trigger] final(self).dir(i) == old(self).dir(i)
                    && final(self).subdirs(i) == old(self).subdirs(i)
                &&& forall|i: int| 0 <= i < old(self).count() ==> #[trigger] final(self).kind(i) == old(self).kind(i)
                    && final(self).meta(i) == old(self).meta(i) && final(self).data(i) == old(self).data(i)
            },
    {
        if self.nodes[dir].kind != InodeKind::Directory {
            return Err(ENOTDIR);
        }
        match self.lookup(dir, name) {
            Ok(existing) => Ok(existing),
            Err(_) => {
                let ghost old_fs = *self;
                let ino = self.new_file_with_creds(Vec::new(), mode, uid, gid);
                let ghost mid = *self;
                self.add_child(dir, name, ino);
                proof {
                    assert forall|i: int| 0 <= i < old_fs.count() && i != dir implies #[trigger] self.dir(i) == old_fs.dir(i)
                        && self.subdirs(i) == old_fs.subdirs(i) by {
                        assert(mid.kind(i) == old_fs.kind(i));
                    }
                    assert forall|i: int| 0 <= i < old_fs.count() implies #[trigger] self.kind(i) == old_fs.kind(i)
                        && self.meta(i) == old_fs.meta(i) && self.data(i) == old_fs.data(i) by {
                        assert(mid.kind(i) == old_fs.kind(i));
                    }
                }
                Ok(ino)
            },
        }
    }

    /// Creates the directory `name` in directory `dir`; fails with `EEXIST`
    /// when the name is taken.
    pub fn create_dir(&mut self, dir: usize, name: &Vec<u8>, mode: u16, uid: u32, gid: u32) -> (r: Result<usize, i32>)
        requires
            old(self).wf(),
            dir < old(self).count(),
            old(self).count() < usize::MAX,
        ensures
            final(self).wf(),
            !old(self).is_dir(dir as int) ==> r == Err::<usize, i32>(ENOTDIR) && *final(self) == *old(self),
            old(self).is_dir(dir as int) && old(self).dir(dir as int).contains_key(name@) ==>
                r == Err::<usize, i32>(EEXIST) && *final(self) == *old(self),
            old(self).is_dir(dir as int) && !old(self).dir(dir as int).contains_key(name@) ==> {
                &&& r == Ok::<usize, i32>(old(self).count() as usize)
                &&& final(self).count() == old(self).count() + 1
                &&& final(self).kind(old(self).count() as int) == InodeKind::Directory
                &&& final(self).meta(old(self).count() as int) == (mode, uid, gid)
                &&& final(self).dir(old(self).count() as int) == Map::<Seq<u8>, usize>::empty()
                &&& final(self).dir(dir as int) == old(self).dir(dir as int).insert(name@, old(self).count() as usize)
                &&& final(self).subdirs(dir as int) == old(self).subdirs(dir as int).insert(name@, old(self).count() as usize)
                &&& forall|i: int| 0 <= i < old(self).count() && i != dir ==> #[trigger] final(self).dir(i) == old(self).dir(i)
                    && final(self).subdirs(i) == old(self).subdirs(i) && final(self).dir_names(i) == old(self).dir_names(i)
                &&& forall|i: int| 0 <= i < old(self).count() ==> #[trigger] final(self).kind(i) == old(self).kind(i)
                    && final(self).meta(i) == old(self).meta(i) && final(self).data(i) == old(self).data(i)
            },
    {
        if self.nodes[dir].kind != InodeKind::Directory {
            return Err(ENOTDIR);
        }
        match self.lookup(dir, name) {
            Ok(_) => Err(EEXIST),
            Err(_) => {
                let ghost old_fs = *self;
                let ino = self.new_dir_with_creds(mode, uid, gid);
                let ghost mid = *self;
                self.add_child(dir, name, ino);
                let ghost mid2 = *self;
                self.add_subdir(dir, name, ino);
                proof {
                    assert forall|i: int| 0 <= i < old_fs.count() && i != dir implies #[trigger] self.dir(i) == old_fs.dir(i)
                        && self.subdirs(i) == old_fs.subdirs(i) && self.dir_names(i) == old_fs.dir_names(i) by {
                        assert(mid.kind(i) == old_fs.kind(i));
                        assert(mid.dir(i) == old_fs.dir(i));
                        assert(mid2.dir(i) == mid.dir(i));
                        assert(self.dir(i) == mid2.dir(i));
                        assert(mid2.subdirs(i) == mid.subdirs(i));
                        assert(self.subdirs(i) == mid2.subdirs(i));
                        assert(mid.dir_names(i) == old_fs.dir_names(i));
                        assert(mid2.dir_names(i) == mid.dir_names(i));
                    }
                    assert(mid.dir(dir as int) == old_fs.dir(dir as int));
                    assert(mid.subdirs(dir as int) == old_fs.subdirs(dir as int));
                    assert(self.dir(dir as int) == old_fs.dir(dir as int).insert(name@, ino));
                    assert(self.subdirs(dir as int) == old_fs.subdirs(dir as int).insert(name@, ino));
                    assert forall|i: int| 0 <= i < old_fs.count() implies #[trigger] self.kind(i) == old_fs.kind(i)
                        && self.meta(i) == old_fs.meta(i) && self.data(i) == old_fs.data(i) by {
                        assert(mid.kind(i) == old_fs.kind(i));
                    }
                }
                Ok(ino)
            },
        }
    }

    fn add_subdir(&mut self, dir: usize, name: &Vec<u8>, ino: usize)
        requires
            old(self).wf(),
            old(self).is_dir(dir as int),
            ino < old(self).count(),
        ensures
            final(self).wf(),
            final(self).same_except_dir(old(self), dir as int),
            final(self).dir(dir as int) == old(self).dir(dir as int),
            final(self).dir_names(dir as int) == old(self).dir_names(dir as int),
            final(self).subdirs(dir as int) == old(self).subdirs(dir as int).insert(name@, ino),
    {
        let ghost old_fs = *self;
        let ghost n = self.nodes@.len();
        proof {
            assert(sorted_entries(self.nodes@[dir as int].entries@));
            assert(sorted_entries(self.nodes@[dir as int].subdirs@));
            assert(inos_below(self.nodes@[dir as int].subdirs@, n as int));
            assert(inos_below(self.nodes@[dir as int].entries@, n as int));
        }
        let node = &mut self.nodes[dir];
        entries_insert(&mut node.subdirs, name, ino);
        proof {
            assert(inos_below(self.nodes@[dir as int].subdirs@, n as int));
            self.lemma_frame_after_entries_change(&old_fs, dir as int);
        }
    }

    /// Removes the entry `name` of directory `dir` (and its cached subdirectory).
    pub fn unlink(&mut self, dir: usize, name: &Vec<u8>) -> (r: Result<(), i32>)
        requires
            old(self).wf(),
            dir < old(self).count(),
        ensures
            final(self).wf(),
            !old(self).is_dir(dir as int) ==> r == Err::<(), i32>(ENOTDIR) && *final(self) == *old(self),
            old(self).is_dir(dir as int) && !old(self).dir(dir as int).contains_key(name@) ==>
                r == Err::<(), i32>(ENOENT) && *final(self) == *old(self),
            old(self).is_dir(dir as int) && old(self).dir(dir as int).contains_key(name@) ==> {
                &&& r is Ok
                &&& final(self).same_except_dir(old(self), dir as int)
                &&& final(self).dir(dir as int) == old(self).dir(dir as int).remove(name@)
                &&& final(self).subdirs(dir as int) == old(self).subdirs(dir as int).remove(name@)
            },
    {
        if self.nodes[dir].kind != InodeKind::Directory {
            return Err(ENOTDIR);
        }
        if self.lookup(dir, name).is_err() {
            return Err(ENOENT);
        }
        let ghost old_fs = *self;
        let ghost n = self.nodes@.len();
        proof {
            assert(sorted_entries(self.nodes@[dir as int].entries@));
            assert(sorted_entries(self.nodes@[dir as int].subdirs@));
            assert(inos_below(self.nodes@[dir as int].subdirs@, n as int));
            assert(inos_below(self.nodes@[dir as int].entries@, n as int));
        }
        let removed = {
            let node = &mut self.nodes[dir];
            entries_remove(&mut node.entries, name)
        };
        match removed {
            Some(_) => {
                let node = &mut self.nodes[dir];
                entries_remove(&mut node.subdirs, name);
                proof {
                    assert(inos_below(self.nodes@[dir as int].subdirs@, n as int));
                    assert(inos_below(self.nodes@[dir as int].entries@, n as int));
                    self.lemma_frame_after_entries_change(&old_fs, dir as int);
                }
                Ok(())
            },
            None => {
                proof {
                    assert(false);
                }
                Err(ENOENT)
            },
        }
    }

    /// Points `name` in directory `dir` at `ino`, replacing any previous
    /// entry (whose cached subdirectory is dropped).
    pub fn link_entry(&mut self, dir: usize, name: &Vec<u8>, ino: usize) -> (r: Result<(), i32>)
        requires
            old(self).wf(),
            dir < old(self).count(),
            ino < old(self).count(),
        ensures
            final(self).wf(),
            !old(self).is_dir(dir as int) ==> r == Err::<(), i32>(ENOTDIR) && *final(self) == *old(self),
            old(self).is_dir(dir as int) ==> {
                &&& r is Ok
                &&& final(self).same_except_dir(old(self), dir as int)
                &&& final(self).dir(dir as int) == old(self).dir(dir as int).insert(name@, ino)
                &&& final(self).subdirs(dir as int) == if old(self).dir(dir as int).contains_key(name@) {
                    old(self).subdirs(dir as int).remove(name@)
                } else {
                    old(self).subdirs(dir as int)
                }
            },
    {
        if self.nodes[dir].kind != InodeKind::Directory {
            return Err(ENOTDIR);
        }
        let ghost old_fs = *self;
        let ghost n = self.nodes@.len();
        proof {
            assert(sorted_entries(self.nodes@[dir as int].entries@));
            assert(sorted_entries(self.nodes@[dir as int].subdirs@));
            assert(inos_below(self.nodes@[dir as int].subdirs@, n as int));
            assert(inos_below(self.nodes@[dir as int].entries@, n as int));
        }
        let was_new = {
            let node = &mut self.nodes[dir];
            entries_insert(&mut node.entries, name, ino)
        };
        if !was_new {
            let node = &mut self.nodes[dir];
            entries_remove(&mut node.subdirs, name);
        }
        proof {
            assert(inos_below(self.nodes@[dir as int].subdirs@, n as int));
            assert(inos_below(self.nodes@[dir as int].entries@, n as int));
            self.lemma_frame_after_entries_change(&old_fs, dir as int);
        }
        Ok(())
    }

    /// Returns the cached subdirectory `name` of `dir`, creating a fresh
    /// directory (mode `0755`, root-owned) and linking it when not cached.
    pub fn get_or_create_subdir(&mut self, dir: usize, name: &Vec<u8>) -> (r: usize)
        requires
            old(self).wf(),
            old(self).is_dir(dir as int),
            old(self).count() < usize::MAX,
        ensures
            final(self).wf(),
            old(self).subdirs(dir as int).contains_key(name@) ==> r == old(self).subdirs(dir as int)[name@]
                && *final(self) == *old(self),
            !old(self).subdirs(dir as int).contains_key(name@) ==> {
                &&& r == old(self).count()
                &&& final(self).count() == old(self).count() + 1
                &&& final(self).kind(r as int) == InodeKind::Directory
                &&& final(self).meta(r as int) == (0o755u16, 0u32, 0u32)
                &&& final(self).dir(r as int) == Map::<Seq<u8>, usize>::empty()
                &&& final(self).subdirs(r as int) == Map::<Seq<u8>, usize>::empty()
                &&& final(self).dir(dir as int) == old(self).dir(dir as int).insert(name@, r)
                &&& final(self).subdirs(dir as int) == old(self).subdirs(dir as int).insert(name@, r)
                &&& forall|i: int| 0 <= i < old(self).count() && i != dir ==> #[trigger] final(self).dir(i) == old(self).dir(i)
                    && final(self).subdirs(i) == old(self).subdirs(i)
                &&& forall|i: int| 0 <= i < old(self).count() ==> #[trigger] final(self).kind(i) == old(self).kind(i)
                    && final(self).meta(i) == old(self).meta(i) && final(self).data(i) == old(self).data(i)
            },
            r < final(self).count(),
            final(self).kind(r as int) == InodeKind::Directory || old(self).subdirs(dir as int).contains_key(name@),
    {
        proof {
            assert(sorted_entries(self.nodes@[dir as int].entries@));
            assert(sorted_entries(self.nodes@[dir as int].subdirs@));
            assert(inos_below(self.nodes@[dir as int].subdirs@, self.count() as int));
        }
        match entries_get(&self.nodes[dir].subdirs, name) {
            Some(d) => {
                proof {
                    let s = self.nodes@[dir as int].subdirs@;
                    let i = choose|i: int| 0 <= i < s.len() && (#[trigger] s[i]).name@ == name@;
                    crate::vfs::entries::lemma_entry_map_at(s, i);
                    assert(inos_below(s, self.count() as int));
                    assert(s[i].ino < self.count());
                }
                d
            },
            None => {
                let ghost old_fs = *self;
                let d = self.new_dir();
                let ghost mid = *self;
                self.add_subdir(dir, name, d);
                let ghost mid2 = *self;
                self.add_child(dir, name, d);
                proof {
                    assert(mid2.dir(d as int) == mid.dir(d as int));
                    assert(self.dir(d as int) == mid2.dir(d as int));
                    assert(d != dir);
                    assert(mid2.dir(d as int) == mid.dir(d as int) && mid2.subdirs(d as int) == mid.subdirs(d as int));
                    assert(self.dir(d as int) == mid2.dir(d as int) && self.subdirs(d as int) == mid2.subdirs(d as int));
                    assert(mid.subdirs(d as int) == Map::<Seq<u8>, usize>::empty());
                    assert(mid.dir(dir as int) == old_fs.dir(dir as int));
                    assert(mid.subdirs(dir as int) == old_fs.subdirs(dir as int));
                    assert(mid2.dir(dir as int) == mid.dir(dir as int));
                    assert(self.dir(dir as int) == mid2.dir(dir as int).insert(name@, d));
                    assert(self.subdirs(dir as int) == mid2.subdirs(dir as int));
                    assert(mid2.kind(d as int) == mid.kind(d as int));
                    assert(self.kind(d as int) == mid2.kind(d as int));
                }
                proof {
                    assert forall|i: int| 0 <= i < old_fs.count() && i != dir implies #[trigger] self.dir(i) == old_fs.dir(i)
                        && self.subdirs(i) == old_fs.subdirs(i) by {
                        assert(mid.kind(i) == old_fs.kind(i));
                    }
                    assert forall|i: int| 0 <= i < old_fs.count() implies #[trigger] self.kind(i) == old_fs.kind(i)
                        && self.meta(i) == old_fs.meta(i) && self.data(i) == old_fs.data(i) by {
                        assert(mid.kind(i) == old_fs.kind(i));
                    }
                }
                d
            },
        }
    }

    /// Empties regular file `ino`; other inodes are left as they are.
    pub fn truncate(&mut self, ino: usize)
        requires
            old(self).wf(),
            ino < old(self).count(),
        ensures
            final(self).wf(),
            final(self).count() == old(self).count(),
            forall|i: int| 0 <= i < old(self).count() ==> #[trigger] final(self).kind(i) == old(self).kind(i)
                && final(self).meta(i) == old(self).meta(i) && final(self).dir(i) == old(self).dir(i)
                && final(self).subdirs(i) == old(self).subdirs(i) && final(self).dir_names(i) == old(self).dir_names(i),
            forall|i: int| 0 <= i < old(self).count() && i != ino ==> #[trigger] final(self).data(i) == old(self).data(i),
            old(self).kind(ino as int) == InodeKind::RegularFile ==> final(self).data(ino as int) == Seq::<u8>::empty(),
            old(self).kind(ino as int) != InodeKind::RegularFile ==> final(self).data(ino as int) == old(self).data(ino as int),
    {
        if self.nodes[ino].kind == InodeKind::RegularFile {
            let ghost old_fs = *self;
            let node = &mut self.nodes[ino];
            node.data.clear();
            proof {
                assert forall|i: int| 0 <= i < self.nodes@.len() implies {
                    &&& sorted_entries(#[trigger] self.nodes@[i].entries@)
                    &&& sorted_entries(self.nodes@[i].subdirs@)
                    &&& inos_below(self.nodes@[i].entries@, self.nodes@.len() as int)
                    &&& inos_below(self.nodes@[i].subdirs@, self.nodes@.len() as int)
                } by {
                    if i != ino {
                        assert(self.nodes@[i] == old_fs.nodes@[i]);
                    }
                }
                assert forall|i: int| 0 <= i < old_fs.count() && i != ino implies #[trigger] self.data(i) == old_fs.data(i) by {
                    assert(self.nodes@[i] == old_fs.nodes@[i]);
                }
                assert forall|i: int| 0 <= i < old_fs.count() implies #[trigger] self.kind(i) == old_fs.kind(i)
                    && self.meta(i) == old_fs.meta(i) && self.dir(i) == old_fs.dir(i)
                    && self.subdirs(i) == old_fs.subdirs(i) && self.dir_names(i) == old_fs.dir_names(i) by {
                    if i != ino {
                        assert(self.nodes@[i] == old_fs.nodes@[i]);
                    }
                }
            }
        }
    }

    /// The contents of a file fit in memory.
    pub proof fn lemma_data_len(&self, i: int)
        requires
            0 <= i < self.count(),
        ensures
            self.data(i).len() <= usize::MAX,
    {
        assert(self.nodes@[i].data.len() == self.nodes@[i].data@.len());
    }

    /// Size of inode `ino`: the byte count of a regular file, zero otherwise.
    pub fn size_of(&self, ino: usize) -> (r: usize)
        requires
            ino < self.count(),
        ensures
            r == (if self.kind(ino as int) == InodeKind::RegularFile { self.data(ino as int).len() } else { 0 }),
    {
        if self.nodes[ino].kind == InodeKind::RegularFile {
            self.nodes[ino].data.len()
        } else {
            0
        }
    }

    /// File status of inode `ino`.
    pub fn stat(&self, ino: usize) -> (r: Stat)
        requires
            ino < self.count(),
        ensures
            r == self.spec_stat(ino as int),
    {
        let node = &self.nodes[ino];
        match node.kind {
            InodeKind::Directory => Stat {
                st_mode: S_IFDIR | (node.mode as u32),
                st_uid: node.uid,
                st_gid: node.gid,
                st_size: 0,
            },
            InodeKind::RegularFile => Stat {
                st_mode: S_IFREG | (node.mode as u32),
                st_uid: node.uid,
                st_gid: node.gid,
                st_size: node.data.len() as i64,
            },
            InodeKind::Special { st_mode, .. } => Stat { st_mode, st_uid: 0, st_gid: 0, st_size: 0 },
        }
    }

    /// What `stat` reports for inode `i`.
    pub open spec fn spec_stat(&self, i: int) -> Stat {
        let (mode, uid, gid) = self.meta(i);
        match self.kind(i) {
            InodeKind::Directory => Stat { st_mode: S_IFDIR | (mode as u32), st_uid: uid, st_gid: gid, st_size: 0 },
            InodeKind::RegularFile => Stat {
                st_mode: S_IFREG | (mode as u32),
                st_uid: uid,
                st_gid: gid,
                st_size: self.data(i).len() as i64,
            },
            InodeKind::Special { st_mode, .. } => Stat { st_mode, st_uid: 0, st_gid: 0, st_size: 0 },
        }
    }

    /// Reads up to `buf.len()` bytes of regular file `ino` from `offset`;
    /// directories fail with `EISDIR`.
    pub fn read(&self, ino: usize, offset: usize, buf: &mut Vec<u8>) -> (r: Result<usize, i32>)
        requires
            ino < self.count(),
            !(self.kind(ino as int) is Special),
        ensures
            self.kind(ino as int) == InodeKind::Directory ==> r == Err::<usize, i32>(EISDIR) && final(buf)@ == old(buf)@,
            self.kind(ino as int) == InodeKind::RegularFile ==> {
                let d = self.data(ino as int);
                let n = if offset >= d.len() { 0 } else if old(buf)@.len() < d.len() - offset { old(buf)@.len() as int } else { d.len() - offset };
                &&& r == Ok::<usize, i32>(n as usize)
                &&& offset >= d.len() ==> final(buf)@ == old(buf)@
                &&& offset < d.len() ==> final(buf)@ == d.subrange(offset as int, offset + n) + old(buf)@.subrange(n, old(buf)@.len() as int)
            },
    {
        let node = &self.nodes[ino];
        if node.kind == InodeKind::Directory {
            return Err(EISDIR);
        }
        let len = node.data.len();
        if offset >= len {
            return Ok(0);
        }
        let available = len - offset;
        let to_copy = if buf.len() < available { buf.len() } else { available };
        let ghost b0 = buf@;
        let mut i: usize = 0;
        while i < to_copy
            invariant
                0 <= i <= to_copy,
                to_copy <= buf@.len(),
                len == node.data@.len(),
                offset < len,
                offset + to_copy <= len,
                buf@.len() == b0.len(),
                forall|j: int| 0 <= j < i ==> buf@[j] == node.data@[offset + j],
                forall|j: int| i <= j < b0.len() ==> buf@[j] == b0[j],
            decreases to_copy - i,
        {
            buf.set(i, node.data[offset + i]);
            i += 1;
        }
        proof {
            assert(buf@ =~= node.data@.subrange(offset as int, offset + to_copy) + b0.subrange(to_copy as int, b0.len() as int));
        }
        Ok(to_copy)
    }

    /// Writes `buf` into regular file `ino` at `offset`, zero-extending the
    /// file when the write ends past it; directories fail with `EISDIR`.
    pub fn write(&mut self, ino: usize, offset: usize, buf: &Vec<u8>) -> (r: Result<usize, i32>)
        requires
            old(self).wf(),
            ino < old(self).count(),
            !(old(self).kind(ino as int) is Special),
            offset + buf@.len() <= usize::MAX,
        ensures
            final(self).wf(),
            final(self).count() == old(self).count(),
            forall|i: int| 0 <= i < old(self).count() ==> #[trigger] final(self).kind(i) == old(self).kind(i)
                && final(self).meta(i) == old(self).meta(i) && final(self).dir(i) == old(self).dir(i)
                && final(self).subdirs(i) == old(self).subdirs(i) && final(self).dir_names(i) == old(self).dir_names(i),
            forall|i: int| 0 <= i < old(self).count() && i != ino ==> #[trigger] final(self).data(i) == old(self).data(i),
            old(self).kind(ino as int) == InodeKind::Directory ==> r == Err::<usize, i32>(EISDIR)
                && *final(self) == *old(self),
            old(self).kind(ino as int) == InodeKind::RegularFile ==> {
                let d = old(self).data(ino as int);
                &&& r == Ok::<usize, i32>(buf@.len() as usize)
                &&& final(self).data(ino as int) == spec_write_at(d, offset as int, buf@)
            },
    {
        if self.nodes[ino].kind == InodeKind::Directory {
            return Err(EISDIR);
        }
        let ghost old_fs = *self;
        let ghost d0 = self.nodes@[ino as int].data@;
        let end = offset + buf.len();
        {
            let node = &mut self.nodes[ino];
            if end > node.data.len() {
                node.data.resize(end, 0u8);
            }
        }
        let ghost d1 = self.nodes@[ino as int].data@;
        proof {
            assert forall|j: int| 0 <= j < d1.len() implies d1[j] == (if j < d0.len() { d0[j] } else { 0u8 }) by {
                if j < d0.len() && end > d0.len() {
                    assert(d1.subrange(0, d0.len() as int)[j] == d1[j]);
                }
            }
        }
        let mut i: usize = 0;
        while i < buf.len()
            invariant
                0 <= i <= buf@.len(),
                ino < self.nodes@.len(),
                end == offset + buf@.len(),
                self.nodes@.len() == old_fs.nodes@.len(),
                forall|k: int| 0 <= k < self.nodes@.len() && k != ino ==> #[trigger] self.nodes@[k] == old_fs.nodes@[k],
                self.nodes@[ino as int].kind == old_fs.nodes@[ino as int].kind,
                self.nodes@[ino as int].mode == old_fs.nodes@[ino as int].mode,
                self.nodes@[ino as int].uid == old_fs.nodes@[ino as int].uid,
                self.nodes@[ino as int].gid == old_fs.nodes@[ino as int].gid,
                self.nodes@[ino as int].entries@ == old_fs.nodes@[ino as int].entries@,
                self.nodes@[ino as int].subdirs@ == old_fs.nodes@[ino as int].subdirs@,
                self.nodes@[ino as int].data@.len() == d1.len(),
                end <= d1.len(),
                forall|j: int| 0 <= j < offset ==> self.nodes@[ino as int].data@[j] == d1[j],
                forall|j: int| offset <= j < offset + i ==> self.nodes@[ino as int].data@[j] == buf@[j - offset],
                forall|j: int| offset + i <= j < d1.len() ==> self.nodes@[ino as int].data@[j] == d1[j],
            decreases buf@.len() - i,
        {
            let b = buf[i];
            let node = &mut self.nodes[ino];
            node.data.set(offset + i, b);
            i += 1;
        }
        proof {
            let w = spec_write_at(d0, offset as int, buf@);
            let nd = self.nodes@[ino as int].data@;
            assert(nd.len() == w.len());
            assert forall|j: int| 0 <= j < w.len() implies nd[j] == w[j] by {
                if offset <= j < offset + buf@.len() {
                } else if j < offset {
                    assert(nd[j] == d1[j]);
                } else {
                    assert(nd[j] == d1[j]);
                }
            }
            assert(nd =~= w);
            assert forall|i: int| 0 <= i < self.nodes@.len() implies {
                &&& sorted_entries(#[trigger] self.nodes@[i].entries@)
                &&& sorted_entries(self.nodes@[i].subdirs@)
                &&& inos_below(self.nodes@[i].entries@, self.nodes@.len() as int)
                &&& inos_below(self.nodes@[i].subdirs@, self.nodes@.len() as int)
            } by {
                assert(sorted_entries(old_fs.nodes@[i].entries@));
                if i != ino {
                    assert(self.nodes@[i] == old_fs.nodes@[i]);
                }
            }
            assert forall|i: int| 0 <= i < old_fs.count() && i != ino implies #[trigger] self.data(i) == old_fs.data(i) by {
                assert(self.nodes@[i] == old_fs.nodes@[i]);
            }
            assert forall|i: int| 0 <= i < old_fs.count() implies #[trigger] self.kind(i) == old_fs.kind(i)
                && self.meta(i) == old_fs.meta(i) && self.dir(i) == old_fs.dir(i)
                && self.subdirs(i) == old_fs.subdirs(i) && self.dir_names(i) == old_fs.dir_names(i) by {
                if i != ino {
                    assert(self.nodes@[i] == old_fs.nodes@[i]);
                }
            }
        }
        Ok(buf.len())
    }
}

/// `d` with `b` written at `offset`, zero-filling any gap past its end.
pub open spec fn spec_write_at(d: Seq<u8>, offset: int, b: Seq<u8>) -> Seq<u8> {
    let len = if offset + b.len() > d.len() { offset + b.len() } else { d.len() as int };
    Seq::new(len as nat, |j: int|
        if offset <= j < offset + b.len() { b[j - offset] } else if j < d.len() { d[j] } else { 0u8 })
}

/// The `d_type` reported for an inode of file type `t`.
pub open spec fn spec_dtype(t: FileType) -> u8 {
    match t {
        FileType::Directory => DT_DIR,
        FileType::CharacterDevice => DT_CHR,
        FileType::Fifo => DT_FIFO,
        _ => DT_REG,
    }
}

impl RamFs {
    /// Lists directory `dir` in name order.
    pub fn readdir(&self, dir: usize) -> (r: Result<Vec<Dirent64>, i32>)
        requires
            self.wf(),
            dir < self.count(),
        ensures
            !self.is_dir(dir as int) ==> r is Err && r->Err_0 == ENOTDIR,
            self.is_dir(dir as int) ==> r is Ok && {
                let v = r->Ok_0@;
                &&& v.len() == self.dir_names(dir as int).len()
                &&& v.len() == self.dir(dir as int).len()
                &&& forall|j: int| 0 <= j < v.len() ==> {
                    let name = #[trigger] self.dir_names(dir as int)[j];
                    &&& v[j].d_name@ == spec_dirent_name(name)
                    &&& v[j].d_type == spec_dtype(kind_file_type(self.kind(self.dir(dir as int)[name] as int)))
                }
            },
    {
        if self.nodes[dir].kind != InodeKind::Directory {
            return Err(ENOTDIR);
        }
        proof {
            self.lemma_listing(dir as int);
        }
        let ents = &self.nodes[dir].entries;
        proof {
            assert(sorted_entries(ents@));
            assert(inos_below(ents@, self.count() as int));
        }
        let mut list: Vec<Dirent64> = Vec::new();
        let n = ents.len();
        let mut i: usize = 0;
        while i < n
            invariant
                n == ents@.len(),
                ents@ == self.nodes@[dir as int].entries@,
                sorted_entries(ents@),
                inos_below(ents@, self.count() as int),
                0 <= i <= n,
                list@.len() == i,
                forall|j: int| 0 <= j < i ==> {
                    &&& (#[trigger] list@[j]).d_name@ == spec_dirent_name(ents@[j].name@)
                    &&& list@[j].d_type == spec_dtype(kind_file_type(self.kind(ents@[j].ino as int)))
                },
            decreases n - i,
        {
            let e = &ents[i];
            let ft = self.file_type(e.ino);
            let d_type = if ft == FileType::Directory {
                DT_DIR
            } else if ft == FileType::CharacterDevice {
                DT_CHR
            } else if ft == FileType::Fifo {
                DT_FIFO
            } else {
                DT_REG
            };
            list.push(create_dirent(&e.name, d_type));
            i += 1;
        }
        proof {
            assert forall|j: int| 0 <= j < list@.len() implies {
                let name = #[trigger] self.dir_names(dir as int)[j];
                &&& list@[j].d_name@ == spec_dirent_name(name)
                &&& list@[j].d_type == spec_dtype(kind_file_type(self.kind(self.dir(dir as int)[name] as int)))
            } by {
                crate::vfs::entries::lemma_entry_map_at(ents@, j);
            }
        }
        Ok(list)
    }
}

} // verus!

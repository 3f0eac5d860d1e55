//! Unpacking the boot archive (ustar) into the in-memory filesystem.

use vstd::prelude::*;
use crate::vfs::ramfs::{InodeKind, RamFs};

verus! {

/// Size of a tar block.
pub const TAR_BLOCK: usize = 512;

/// The value of the octal digits of `bytes` from `i` on, starting from
/// `acc`: digits shift in three bits at a time, a NUL or space ends the
/// number, other bytes are skipped.
pub open spec fn octal_from(bytes: Seq<u8>, i: int, acc: u64) -> u64
    decreases bytes.len() - i,
{
    if i < 0 || i >= bytes.len() {
        acc
    } else if 48 <= bytes[i] <= 55 {
        octal_from(bytes, i + 1, ((acc << 3u64) | ((bytes[i] - 48) as u64)) as u64)
    } else if bytes[i] == 0 || bytes[i] == 32 {
        acc
    } else {
        octal_from(bytes, i + 1, acc)
    }
}

/// Parses an octal number field of a tar header (a 64-bit value).
pub fn parse_octal(bytes: &[u8]) -> (r: usize)
    ensures
        r == octal_from(bytes@, 0, 0) as usize,
{
    let mut val: u64 = 0;
    let mut i: usize = 0;
    while i < bytes.len()
        invariant
            i <= bytes@.len(),
            octal_from(bytes@, 0, 0) == octal_from(bytes@, i as int, val),
        decreases bytes@.len() - i,
    {
        let b = bytes[i];
        if b >= 48 && b <= 55 {
            val = (val << 3u64) | ((b - 48) as u64);
        } else if b == 0 || b == 32 {
            return val as usize;
        }
        i += 1;
    }
    val as usize
}

/// Twelve octal digits stay below 2^36.
proof fn lemma_octal_bound(bytes: Seq<u8>, i: int, acc: u64)
    requires
        0 <= i <= bytes.len(),
        bytes.len() <= 12,
        (acc as int) < pow8(i),
    ensures
        (octal_from(bytes, i, acc) as int) < pow8(bytes.len() as int),
    decreases bytes.len() - i,
{
    lemma_pow8_mono(i, bytes.len() as int);
    if i < bytes.len() {
        if 48 <= bytes[i] <= 55 {
            let d = (bytes[i] - 48) as u64;
            let next = ((acc << 3u64) | d) as u64;
            lemma_pow8_mono(i + 1, 12);
            assert(pow8(i + 1) == 8 * pow8(i));
            lemma_pow8_12();
            assert((acc as int) < 0x10_0000_0000);
            assert(next == acc * 8 + d && (acc * 8 + d) < 8 * (acc + 1)) by (bit_vector)
                requires acc < 0x10_0000_0000u64, d < 8, next == ((acc << 3u64) | d) as u64;
            lemma_octal_bound(bytes, i + 1, next);
        } else if !(bytes[i] == 0 || bytes[i] == 32) {
            lemma_octal_bound(bytes, i + 1, acc);
        }
    }
}

/// `8^n`.
pub open spec fn pow8(n: int) -> int
    decreases n,
{
    if n <= 0 { 1 } else { 8 * pow8(n - 1) }
}

proof fn lemma_pow8_12()
    ensures
        pow8(12) == 0x10_0000_0000,
{
    reveal_with_fuel(pow8, 13);
}

proof fn lemma_pow8_mono(a: int, b: int)
    requires
        0 <= a <= b,
    ensures
        pow8(a) <= pow8(b),
        pow8(a) >= 1,
    decreases b - a,
{
    if a < b {
        lemma_pow8_mono(a, b - 1);
    } else {
        lemma_pow8_pos(a);
    }
}

proof fn lemma_pow8_pos(a: int)
    ensures
        pow8(a) >= 1,
    decreases a,
{
    if a > 0 {
        lemma_pow8_pos(a - 1);
    }
}

/// Whether `bytes` is valid UTF-8 (what `core::str::from_utf8` decides).
pub uninterp spec fn utf8_valid(bytes: Seq<u8>) -> bool;

/// `core::str::from_utf8` succeeds on `bytes` exactly when they are valid
/// UTF-8; only success is reported.
#[verifier::external_body]
pub(crate) fn is_utf8(bytes: &[u8]) -> (r: bool)
    ensures
        r == utf8_valid(bytes@),
{
    core::str::from_utf8(bytes).is_ok()
}

/// The block `[off, off + 512)` is all zero bytes.
pub open spec fn zero_block(data: Seq<u8>, off: int) -> bool {
    forall|i: int| off <= i < off + TAR_BLOCK ==> data[i] == 0
}

/// The name of the header at `off`: its 100-byte field up to the first NUL.
pub open spec fn header_name(data: Seq<u8>, off: int) -> Seq<u8> {
    let field = data.subrange(off, off + 100);
    field.take(first_nul(field, 0))
}

/// Index of the first NUL of `s` from `i` on, or its length.
pub open spec fn first_nul(s: Seq<u8>, i: int) -> int
    decreases s.len() - i,
{
    if i < 0 || i >= s.len() { s.len() as int } else if s[i] == 0 { i } else { first_nul(s, i + 1) }
}

/// `s` without leading and trailing slashes.
pub open spec fn trim_slashes(s: Seq<u8>) -> Seq<u8>
    decreases s.len(),
{
    if s.len() > 0 && s[0] == 47 {
        trim_slashes(s.drop_first())
    } else if s.len() > 0 && s.last() == 47 {
        trim_slashes(s.drop_last())
    } else {
        s
    }
}

/// The payload size declared by the header at `off`.
pub open spec fn header_size(data: Seq<u8>, off: int) -> usize {
    octal_from(data.subrange(off + 124, off + 136), 0, 0) as usize
}

/// What unpacking the archive from `off` on reports: the number of regular
/// files, or the first error. The scan stops at the end of the data or at
/// an all-zero block.
pub open spec fn tar_outcome(data: Seq<u8>, off: int) -> Result<nat, &'static str>
    decreases data.len() + TAR_BLOCK - off,
{
    if off < 0 || off + TAR_BLOCK > data.len() || zero_block(data, off) {
        Ok(0)
    } else if !utf8_valid(header_name(data, off)) {
        Err("Invalid UTF-8 filename in tar")
    } else if off + TAR_BLOCK + header_size(data, off) > data.len() {
        Err("Tar file entry payload truncated")
    } else {
        let name = header_name(data, off);
        let is_dir = data[off + 156] == 53 || (name.len() > 0 && name.last() == 47);
        let files: nat = if trim_slashes(name).len() > 0 && !is_dir { 1 } else { 0 };
        let next = off + TAR_BLOCK + padded(header_size(data, off));
        proof {
            lemma_padded(header_size(data, off));
        }
        match tar_outcome(data, next) {
            Ok(n) => Ok(n + files),
            Err(e) => Err(e),
        }
    }
}

/// The payloads of the regular-file entries from `off` on, in archive
/// order, up to the end of the archive or its first bad entry.
pub open spec fn tar_payloads(data: Seq<u8>, off: int) -> Seq<Seq<u8>>
    decreases data.len() + TAR_BLOCK - off,
{
    if off < 0 || off + TAR_BLOCK > data.len() || zero_block(data, off) {
        Seq::empty()
    } else if !utf8_valid(header_name(data, off)) {
        Seq::empty()
    } else if off + TAR_BLOCK + header_size(data, off) > data.len() {
        Seq::empty()
    } else {
        let name = header_name(data, off);
        let is_dir = data[off + 156] == 53 || (name.len() > 0 && name.last() == 47);
        let start = off + TAR_BLOCK;
        let here: Seq<Seq<u8>> = if trim_slashes(name).len() > 0 && !is_dir {
            seq![data.subrange(start, start + header_size(data, off))]
        } else {
            Seq::empty()
        };
        let next = start + padded(header_size(data, off));
        proof {
            lemma_padded(header_size(data, off));
        }
        here + tar_payloads(data, next)
    }
}

/// Every inode of `a` is still in `b`, with its kind and contents.
pub open spec fn keeps_files(a: RamFs, b: RamFs) -> bool {
    &&& a.count() <= b.count()
    &&& forall|i: int| 0 <= i < a.count() ==> #[trigger] b.kind(i) == a.kind(i) && b.data(i) == a.data(i)
}

/// Some regular file numbered `from` or above holds `payload`.
pub open spec fn holds_file(fs: RamFs, from: int, payload: Seq<u8>) -> bool {
    exists|i: int| from <= i < fs.count() && fs.kind(i) == InodeKind::RegularFile && #[trigger] fs.data(i) == payload
}

/// Each of `payloads` is held by a regular file numbered `from` or above.
pub open spec fn holds_payloads(fs: RamFs, from: int, payloads: Seq<Seq<u8>>) -> bool {
    forall|k: int| 0 <= k < payloads.len() ==> holds_file(fs, from, #[trigger] payloads[k])
}

proof fn lemma_keeps_trans(a: RamFs, b: RamFs, c: RamFs)
    requires
        keeps_files(a, b),
        keeps_files(b, c),
    ensures
        keeps_files(a, c),
{
    assert forall|i: int| 0 <= i < a.count() implies #[trigger] c.kind(i) == a.kind(i) && c.data(i) == a.data(i) by {
        assert(b.kind(i) == a.kind(i));
        assert(c.kind(i) == b.kind(i));
    }
}

proof fn lemma_keeps_holds(a: RamFs, b: RamFs, from: int, p: Seq<u8>)
    requires
        0 <= from,
        keeps_files(a, b),
        holds_file(a, from, p),
    ensures
        holds_file(b, from, p),
{
    let i = choose|i: int| from <= i < a.count() && a.kind(i) == InodeKind::RegularFile && #[trigger] a.data(i) == p;
    assert(b.kind(i) == a.kind(i));
    assert(b.data(i) == p);
}

proof fn lemma_keeps_payloads(a: RamFs, b: RamFs, from: int, ps: Seq<Seq<u8>>)
    requires
        0 <= from,
        keeps_files(a, b),
        holds_payloads(a, from, ps),
    ensures
        holds_payloads(b, from, ps),
{
    assert forall|k: int| 0 <= k < ps.len() implies holds_file(b, from, #[trigger] ps[k]) by {
        lemma_keeps_holds(a, b, from, ps[k]);
    }
}

/// `size` rounded up to whole blocks.
pub open spec fn padded(size: usize) -> nat {
    ((size + 511) / 512 * 512) as nat
}

/// A size rounded up to whole blocks grows by less than a block.
pub proof fn lemma_padded(size: usize)
    ensures
        size <= padded(size) <= size + 511,
{
    let q = (size + 511) / 512;
    assert(q * 512 <= size + 511 && q * 512 + 512 > size + 511) by (nonlinear_arith)
        requires q == (size + 511) / 512, size >= 0;
}

/// Every cached subdirectory of every directory is a directory.
pub open spec fn subdirs_are_dirs(fs: RamFs) -> bool {
    forall|i: int, k: Seq<u8>| 0 <= i < fs.count() && #[trigger] fs.subdirs(i).contains_key(k)
        ==> fs.is_dir(fs.subdirs(i)[k] as int)
}

/// Unpacks a ustar archive into directory `root` of `fs`: each header names
/// a path relative to `root`; directories on the way are found or created,
/// and a regular file entry adds a file holding its payload. Returns the
/// number of files added, or the first error. Inodes already in `fs` keep
/// their kind and contents; on success every file entry's payload is held
/// by a new regular file.
pub fn unpack_tar_archive(tar_data: &[u8], fs: &mut RamFs, root: usize) -> (r: Result<usize, &'static str>)
    requires
        old(fs).wf(),
        subdirs_are_dirs(*old(fs)),
        old(fs).is_dir(root as int),
        old(fs).count() + tar_data@.len() + 0x10_0000_0000 + 1024 <= usize::MAX,
    ensures
        final(fs).wf(),
        subdirs_are_dirs(*final(fs)),
        match tar_outcome(tar_data@, 0) {
            Ok(n) => r == Ok::<usize, &'static str>(n as usize),
            Err(e) => r == Err::<usize, &'static str>(e),
        },
        keeps_files(*old(fs), *final(fs)),
        r is Ok ==> tar_payloads(tar_data@, 0).len() == r->Ok_0
            && holds_payloads(*final(fs), old(fs).count() as int, tar_payloads(tar_data@, 0)),
{
    let len = tar_data.len();
    let ghost fs0 = *fs;
    let ghost count0 = fs.count();
    let ghost mut done: Seq<Seq<u8>> = Seq::empty();
    let mut offset: usize = 0;
    let mut files: usize = 0;
    while offset + TAR_BLOCK <= len
        invariant
            len == tar_data@.len(),
            fs.wf(),
            subdirs_are_dirs(*fs),
            fs.is_dir(root as int),
            count0 == fs0.count(),
            fs0 == *old(fs),
            count0 + len + 0x10_0000_0000 + 1024 <= usize::MAX,
            fs.count() <= count0 + offset,
            offset <= len + 511,
            files <= offset,
            keeps_files(fs0, *fs),
            done.len() == files,
            holds_payloads(*fs, count0 as int, done),
            ({
                match tar_outcome(tar_data@, 0) {
                    Ok(n) => match tar_outcome(tar_data@, offset as int) {
                        Ok(m) => n == m + files
                            && tar_payloads(tar_data@, 0) == done + tar_payloads(tar_data@, offset as int),
                        Err(_) => false,
                    },
                    Err(e) => tar_outcome(tar_data@, offset as int) == Err::<nat, &'static str>(e),
                }
            }),
        ensures
            fs.wf(),
            subdirs_are_dirs(*fs),
            keeps_files(fs0, *fs),
            done.len() == files,
            holds_payloads(*fs, count0 as int, done),
            tar_outcome(tar_data@, offset as int) == Ok::<nat, &'static str>(0),
            tar_payloads(tar_data@, offset as int) == Seq::<Seq<u8>>::empty(),
            ({
                match tar_outcome(tar_data@, 0) {
                    Ok(n) => n == files && tar_payloads(tar_data@, 0) == done,
                    Err(_) => false,
                }
            }),
        decreases len + 512 - offset,
    {
        // An all-zero block ends the archive.
        let mut all_zero = true;
        let mut z: usize = 0;
        while z < TAR_BLOCK
            invariant
                offset + TAR_BLOCK <= len,
                len == tar_data@.len(),
                z <= TAR_BLOCK,
                all_zero == forall|i: int| offset <= i < offset + z ==> tar_data@[i] == 0,
            decreases TAR_BLOCK - z,
        {
            if tar_data[offset + z] != 0 {
                all_zero = false;
            }
            z += 1;
        }
        if all_zero {
            proof {
                assert(zero_block(tar_data@, offset as int));
            }
            break;
        }
        let mut name_len: usize = 0;
        while name_len < 100 && tar_data[offset + name_len] != 0
            invariant
                offset + TAR_BLOCK <= len,
                len == tar_data@.len(),
                name_len <= 100,
                first_nul(tar_data@.subrange(offset as int, offset + 100), 0)
                    == first_nul(tar_data@.subrange(offset as int, offset + 100), name_len as int),
            decreases 100 - name_len,
        {
            name_len += 1;
        }
        let name: Vec<u8> = slice_to_vec(tar_data, offset, offset + name_len);
        proof {
            assert(name@ =~= header_name(tar_data@, offset as int));
        }
        if !is_utf8(name.as_slice()) {
            return Err("Invalid UTF-8 filename in tar");
        }
        let size_field: Vec<u8> = slice_to_vec(tar_data, offset + 124, offset + 136);
        let size = parse_octal(size_field.as_slice());
        proof {
            assert(size_field@ =~= tar_data@.subrange(offset + 124, offset + 136));
            lemma_octal_bound(size_field@, 0, 0);
            lemma_pow8_12();
        }
        let typeflag = tar_data[offset + 156];
        let header_off = offset;
        offset = offset + TAR_BLOCK;
        if offset + size > len {
            return Err("Tar file entry payload truncated");
        }
        let is_dir = typeflag == 53 || (name_len > 0 && name[name_len - 1] == 47);
        let trimmed = trim_slashes_exec(&name);
        let ghost before = *fs;
        let ghost done_before = done;
        if trimmed.len() > 0 {
            let added = unpack_path(fs, root, &trimmed, is_dir, tar_data, offset, offset + size);
            proof {
                lemma_keeps_trans(fs0, before, *fs);
                lemma_keeps_payloads(before, *fs, count0 as int, done);
            }
            if added {
                files = files + 1;
                proof {
                    let p = tar_data@.subrange(offset as int, offset + size);
                    done = done.push(p);
                    assert forall|k: int| 0 <= k < done.len() implies holds_file(*fs, count0 as int, #[trigger] done[k]) by {
                        if k < done_before.len() {
                            assert(done[k] == done_before[k]);
                        } else {
                            let i = choose|i: int| before.count() <= i < fs.count() && fs.kind(i) == InodeKind::RegularFile
                                && #[trigger] fs.data(i) == p;
                            assert(fs.data(i) == done[k]);
                        }
                    }
                }
            }
            proof {
                assert(added == !is_dir);
            }
        }
        let blocks = (size + 511) / 512;
        assert(blocks * 512 <= size + 511) by (nonlinear_arith)
            requires blocks == (size + 511) / 512;
        offset = offset + blocks * 512;
        proof {
            assert(offset == header_off + TAR_BLOCK + padded(header_size(tar_data@, header_off as int)));
            assert(!zero_block(tar_data@, header_off as int));
        }
    }
    Ok(files)
}

/// A vector of `bytes[lo..hi]`.
fn slice_to_vec(bytes: &[u8], lo: usize, hi: usize) -> (r: Vec<u8>)
    requires
        lo <= hi <= bytes@.len(),
    ensures
        r@ == bytes@.subrange(lo as int, hi as int),
{
    let mut v: Vec<u8> = Vec::new();
    let mut i = lo;
    while i < hi
        invariant
            lo <= i <= hi,
            hi <= bytes@.len(),
            v@ == bytes@.subrange(lo as int, i as int),
        decreases hi - i,
    {
        v.push(bytes[i]);
        proof {
            assert(v@ =~= bytes@.subrange(lo as int, i as int + 1));
        }
        i += 1;
    }
    v
}

/// `s` without leading and trailing slashes.
fn trim_slashes_exec(s: &Vec<u8>) -> (r: Vec<u8>)
    ensures
        r@ == trim_slashes(s@),
        r@.len() <= s@.len(),
{
    let mut lo: usize = 0;
    let mut hi: usize = s.len();
    proof {
        assert(s@.subrange(0, s@.len() as int) =~= s@);
    }
    while lo < hi && s[lo] == 47
        invariant
            lo <= hi <= s@.len(),
            hi == s@.len(),
            trim_slashes(s@) == trim_slashes(s@.subrange(lo as int, hi as int)),
        decreases hi - lo,
    {
        proof {
            assert(s@.subrange(lo as int, hi as int).drop_first() =~= s@.subrange(lo as int + 1, hi as int));
        }
        lo += 1;
    }
    while lo < hi && s[hi - 1] == 47
        invariant
            lo <= hi <= s@.len(),
            trim_slashes(s@) == trim_slashes(s@.subrange(lo as int, hi as int)),
            lo < hi ==> s@[lo as int] != 47,
        decreases hi - lo,
    {
        proof {
            let t = s@.subrange(lo as int, hi as int);
            assert(t.drop_last() =~= s@.subrange(lo as int, hi as int - 1));
            assert(t[0] != 47);
        }
        hi -= 1;
    }
    proof {
        let t = s@.subrange(lo as int, hi as int);
        if t.len() > 0 {
            assert(t[0] == s@[lo as int]);
            assert(t.last() == s@[hi - 1]);
        }
    }
    slice_to_vec(s.as_slice(), lo, hi)
}

/// Walks the `/`-separated components of `path` from `root`: every
/// component but the last, and the last when `is_dir`, is a directory found
/// or created under the current one; otherwise the last component is added
/// as a file holding `data[lo..hi]`. Returns whether a file was added.
fn unpack_path(fs: &mut RamFs, root: usize, path: &Vec<u8>, is_dir: bool, data: &[u8], lo: usize, hi: usize) -> (added: bool)
    requires
        old(fs).wf(),
        subdirs_are_dirs(*old(fs)),
        old(fs).is_dir(root as int),
        path@.len() > 0,
        lo <= hi <= data@.len(),
        old(fs).count() + path@.len() + 1 < usize::MAX,
    ensures
        final(fs).wf(),
        subdirs_are_dirs(*final(fs)),
        final(fs).is_dir(root as int),
        final(fs).count() <= old(fs).count() + path@.len() + 1,
        added == !is_dir,
        keeps_files(*old(fs), *final(fs)),
        added ==> holds_file(*final(fs), old(fs).count() as int, data@.subrange(lo as int, hi as int)),
{
    let mut current = root;
    let mut start: usize = 0;
    let mut i: usize = 0;
    let n = path.len();
    while i < n
        invariant
            n == path@.len(),
            start <= i <= n,
            fs.wf(),
            subdirs_are_dirs(*fs),
            fs.is_dir(current as int),
            fs.is_dir(root as int),
            fs.count() <= old(fs).count() + i,
            old(fs).count() + path@.len() + 1 < usize::MAX,
            keeps_files(*old(fs), *fs),
        decreases n - i,
    {
        if path[i] == 47 {
            let comp = slice_to_vec(path.as_slice(), start, i);
            let ghost before = *fs;
            current = enter_subdir(fs, current, &comp, root);
            proof {
                lemma_keeps_trans(*old(fs), before, *fs);
            }
            start = i + 1;
        }
        i += 1;
    }
    let last = slice_to_vec(path.as_slice(), start, n);
    let ghost walked = *fs;
    if is_dir {
        let _ = enter_subdir(fs, current, &last, root);
        proof {
            lemma_keeps_trans(*old(fs), walked, *fs);
        }
        false
    } else {
        let payload = slice_to_vec(data, lo, hi);
        let f = fs.new_file(payload);
        proof {
            lemma_append_keeps(walked, *fs);
            lemma_keeps_trans(*old(fs), walked, *fs);
        }
        let ghost mid = *fs;
        fs.add_child(current, &last, f);
        proof {
            lemma_same_except_keeps(mid, *fs, current as int);
            lemma_keeps_trans(*old(fs), mid, *fs);
            assert(fs.kind(f as int) == InodeKind::RegularFile);
            assert(fs.data(f as int) == data@.subrange(lo as int, hi as int));
        }
        true
    }
}

/// Finds or creates subdirectory `name` of `dir`: a cached subdirectory of
/// that name is returned and nothing changes; otherwise a new empty
/// directory is appended, linked and cached under `name` in `dir`.
fn enter_subdir(fs: &mut RamFs, dir: usize, name: &Vec<u8>, root: usize) -> (r: usize)
    requires
        old(fs).wf(),
        subdirs_are_dirs(*old(fs)),
        old(fs).is_dir(dir as int),
        old(fs).is_dir(root as int),
        old(fs).count() < usize::MAX,
    ensures
        old(fs).subdirs(dir as int).contains_key(name@) ==> r == old(fs).subdirs(dir as int)[name@]
            && *final(fs) == *old(fs),
        !old(fs).subdirs(dir as int).contains_key(name@) ==> {
            &&& r == old(fs).count()
            &&& final(fs).count() == old(fs).count() + 1
            &&& final(fs).dir(r as int) == Map::<Seq<u8>, usize>::empty()
            &&& final(fs).dir(dir as int) == old(fs).dir(dir as int).insert(name@, r)
            &&& final(fs).subdirs(dir as int) == old(fs).subdirs(dir as int).insert(name@, r)
        },
        final(fs).wf(),
        subdirs_are_dirs(*final(fs)),
        final(fs).is_dir(r as int),
        final(fs).is_dir(root as int),
        final(fs).count() <= old(fs).count() + 1,
        keeps_files(*old(fs), *final(fs)),
{
    let ghost before = *fs;
    let d = fs.get_or_create_subdir(dir, name);
    proof {
        if before.subdirs(dir as int).contains_key(name@) {
            assert(before.is_dir(before.subdirs(dir as int)[name@] as int));
        } else {
            assert(fs.kind(root as int) == before.kind(root as int));
            assert forall|i: int, k: Seq<u8>| 0 <= i < fs.count() && #[trigger] fs.subdirs(i).contains_key(k)
                implies fs.is_dir(fs.subdirs(i)[k] as int) by {
                if i == dir {
                    if k != name@ {
                        assert(before.subdirs(i).contains_key(k));
                        let t = before.subdirs(i)[k] as int;
                        assert(before.is_dir(t));
                        assert(fs.kind(t) == before.kind(t));
                    }
                } else if i < before.count() {
                    assert(fs.dir(i) == before.dir(i));
                    assert(before.subdirs(i).contains_key(k));
                    let t = before.subdirs(i)[k] as int;
                    assert(before.is_dir(t));
                    assert(fs.kind(t) == before.kind(t));
                } else {
                    assert(i == d);
                    assert(fs.subdirs(i) == Map::<Seq<u8>, usize>::empty());
                }
            }
        }
    }
    d
}

proof fn lemma_append_keeps(a: RamFs, b: RamFs)
    requires
        a.appended(&b),
        subdirs_are_dirs(a),
        b.subdirs(a.count() as int) == Map::<Seq<u8>, usize>::empty(),
    ensures
        subdirs_are_dirs(b),
        forall|i: int| a.is_dir(i) ==> #[trigger] b.is_dir(i),
        keeps_files(a, b),
{
    assert forall|i: int, k: Seq<u8>| 0 <= i < b.count() && #[trigger] b.subdirs(i).contains_key(k)
        implies b.is_dir(b.subdirs(i)[k] as int) by {
        if i < a.count() {
            assert(b.kind(i) == a.kind(i));
            assert(a.subdirs(i).contains_key(k));
            let t = a.subdirs(i)[k] as int;
            assert(a.is_dir(t));
            assert(b.kind(t) == a.kind(t));
        }
    }
    assert forall|i: int| a.is_dir(i) implies #[trigger] b.is_dir(i) by {
        assert(b.kind(i) == a.kind(i));
    }
}

proof fn lemma_same_except_keeps(a: RamFs, b: RamFs, d: int)
    requires
        b.same_except_dir(&a, d),
        b.subdirs(d) == a.subdirs(d),
        subdirs_are_dirs(a),
    ensures
        subdirs_are_dirs(b),
        forall|i: int| a.is_dir(i) ==> #[trigger] b.is_dir(i),
        keeps_files(a, b),
{
    assert forall|i: int, k: Seq<u8>| 0 <= i < b.count() && #[trigger] b.subdirs(i).contains_key(k)
        implies b.is_dir(b.subdirs(i)[k] as int) by {
        if i != d {
            assert(b.dir(i) == a.dir(i));
        }
        assert(a.subdirs(i).contains_key(k));
        let t = a.subdirs(i)[k] as int;
        assert(a.is_dir(t));
        assert(b.kind(t) == a.kind(t));
    }
    assert forall|i: int| a.is_dir(i) implies #[trigger] b.is_dir(i) by {
        assert(b.kind(i) == a.kind(i));
    }
}

} // verus!

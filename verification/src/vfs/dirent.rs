//! 64-bit directory entries as returned by `getdents64`.

use vstd::prelude::*;

verus! {

/// Capacity of the name field of a directory entry, NUL included.
pub const DIRENT_NAME_LEN: usize = 256;

/// A directory entry record.
#[derive(Debug)]
pub struct Dirent64 {
    /// Inode number.
    pub d_ino: u64,
    /// Offset of the next entry.
    pub d_off: i64,
    /// Length of this record.
    pub d_reclen: u16,
    /// Entry type (`DT_*`).
    pub d_type: u8,
    /// NUL-terminated name, `DIRENT_NAME_LEN` bytes.
    pub d_name: Vec<u8>,
}

/// The name field for `name`: at most 255 bytes of it, then zeros.
pub open spec fn spec_dirent_name(name: Seq<u8>) -> Seq<u8> {
    let len = if name.len() < DIRENT_NAME_LEN - 1 { name.len() as int } else { DIRENT_NAME_LEN - 1 };
    Seq::new(DIRENT_NAME_LEN as nat, |j: int| if j < len { name[j] } else { 0u8 })
}

/// Builds a directory entry of type `d_type` named `name`, truncated to 255
/// bytes and NUL-terminated.
pub fn create_dirent(name: &Vec<u8>, d_type: u8) -> (r: Dirent64)
    ensures
        r.d_type == d_type,
        r.d_ino == 0,
        r.d_off == 0,
        r.d_reclen == 0,
        r.d_name@ == spec_dirent_name(name@),
{
    let len = if name.len() < DIRENT_NAME_LEN - 1 { name.len() } else { DIRENT_NAME_LEN - 1 };
    let mut d_name: Vec<u8> = Vec::new();
    let mut i: usize = 0;
    while i < DIRENT_NAME_LEN
        invariant
            0 <= i <= DIRENT_NAME_LEN,
            len <= name@.len(),
            len == (if name@.len() < DIRENT_NAME_LEN - 1 { name@.len() as int } else { DIRENT_NAME_LEN - 1 }),
            d_name@.len() == i,
            forall|j: int| 0 <= j < i ==> d_name@[j] == (if j < len { name@[j] } else { 0u8 }),
        decreases DIRENT_NAME_LEN - i,
    {
        if i < len {
            d_name.push(name[i]);
        } else {
            d_name.push(0u8);
        }
        i += 1;
    }
    proof {
        assert(d_name@ =~= spec_dirent_name(name@));
    }
    Dirent64 { d_ino: 0, d_off: 0, d_reclen: 0, d_type, d_name }
}

} // verus!

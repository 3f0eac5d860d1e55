//! Checks on user-space pointers before the kernel touches user memory.
//!
//! A user range is accepted only if it lies wholly below `USER_SPACE_END`
//! and every page it touches passes the page-table check of the current
//! address space. That check reads live page tables, so callers hand it in
//! as a function of the page address and the access kind.

use vstd::prelude::*;
use core::marker::PhantomData;

verus! {

/// Exclusive upper bound of the user half of the address space.
pub const USER_SPACE_END: u64 = 0x0000_8000_0000_0000;
/// Longest NUL-terminated string copied in from user space.
pub const USER_STR_MAX: usize = 4096;
/// Offset bits within a 4 KiB page.
pub const PAGE_MASK: usize = 0xFFF;

/// Why a user-memory access was refused.
#[derive(Debug, Clone, Copy, PartialEq, Eq, Structural)]
pub enum UserAccessError {
    /// The address was zero.
    NullPointer,
    /// The range reaches into the kernel half.
    OutOfUserRange,
    /// The end of the range does not fit in an address.
    Overflow,
    /// A page of the range is not mapped for user access.
    NotMapped,
    /// A page of the range is read-only and a write was asked for.
    NotWritable,
    /// No NUL within the buffer given for a string.
    TooLong,
}

/// The page holding `addr`.
pub open spec fn page_base(addr: usize) -> usize {
    addr & !PAGE_MASK
}

/// Number of pages checked for the range `[addr, end)`.
pub open spec fn pages_to_check(addr: usize, end: usize) -> nat {
    if end <= page_base(addr) { 0 } else { ((end - page_base(addr) + PAGE_MASK) / 4096) as nat }
}

/// The `k`-th page checked for a range starting at `addr`.
pub open spec fn checked_page(addr: usize, k: int) -> int {
    page_base(addr) + k * 4096
}

/// The range `[addr, addr + len)` is non-empty and lies in user space.
pub open spec fn in_user_space(addr: usize, len: usize) -> bool {
    len > 0 && addr + len <= USER_SPACE_END && addr + len <= usize::MAX
}

/// Validates that `[addr, addr + len)` is user memory: an empty range is
/// accepted; otherwise the end must not overflow and must not pass
/// `USER_SPACE_END`, and `page_ok` must accept every page from the one
/// holding `addr` to the one holding the last byte, in order. The first
/// refusal is returned.
pub fn validate_user_range<F: Fn(usize, bool) -> Result<(), UserAccessError>>(
    addr: usize,
    len: usize,
    need_write: bool,
    page_ok: F,
) -> (r: Result<(), UserAccessError>)
    requires
        forall|p: usize, w: bool| call_requires(page_ok, (p, w)),
    ensures
        len == 0 ==> r is Ok,
        len > 0 && addr + len > usize::MAX ==> r == Err::<(), UserAccessError>(UserAccessError::Overflow),
        len > 0 && addr + len <= usize::MAX && addr + len > USER_SPACE_END
            ==> r == Err::<(), UserAccessError>(UserAccessError::OutOfUserRange),
        in_user_space(addr, len) && r is Ok ==> forall|k: int|
            0 <= k < pages_to_check(addr, (addr + len) as usize)
                ==> call_ensures(page_ok, (#[trigger] checked_page(addr, k) as usize, need_write), Ok(())),
        in_user_space(addr, len) && r is Err ==> exists|k: int|
            0 <= k < pages_to_check(addr, (addr + len) as usize)
                && (call_ensures(page_ok, (#[trigger] checked_page(addr, k) as usize, need_write), r)
                    || (r == Err::<(), UserAccessError>(UserAccessError::Overflow) && checked_page(addr, k) + 4096 > usize::MAX))
                && forall|j: int| 0 <= j < k
                    ==> call_ensures(page_ok, (#[trigger] checked_page(addr, j) as usize, need_write), Ok(())),
{
    if len == 0 {
        return Ok(());
    }
    let end = match addr.checked_add(len) {
        Some(e) => e,
        None => return Err(UserAccessError::Overflow),
    };
    if end as u64 > USER_SPACE_END {
        return Err(UserAccessError::OutOfUserRange);
    }
    let base = addr & !PAGE_MASK;
    let mut page = base;
    let ghost mut k: int = 0;
    proof {
        assert(base <= addr && addr - base < 4096 && base % 4096 == 0) by (bit_vector)
            requires base == addr & !0xFFFusize;
    }
    while page < end
        invariant
            len > 0,
            end == addr + len,
            end <= USER_SPACE_END,
            base == page_base(addr),
            base <= addr,
            base % 4096 == 0,
            page == checked_page(addr, k),
            page < end + 4096,
            0 <= k,
            k <= pages_to_check(addr, end),
            page < end ==> k < pages_to_check(addr, end),
            page >= end ==> k == pages_to_check(addr, end),
            forall|p: usize, w: bool| call_requires(page_ok, (p, w)),
            forall|j: int| 0 <= j < k
                ==> call_ensures(page_ok, (#[trigger] checked_page(addr, j) as usize, need_write), Ok(())),
        decreases end + 4096 - page,
    {
        let res = page_ok(page, need_write);
        let u = match res {
            Ok(u) => u,
            Err(e) => return Err(e),
        };
        assert(res == Ok::<(), UserAccessError>(u));
        assert(checked_page(addr, k) as usize == page);
        assert(call_ensures(page_ok, (checked_page(addr, k) as usize, need_write), Ok::<(), UserAccessError>(())));
        page = match page.checked_add(4096) {
            Some(p) => p,
            None => return Err(UserAccessError::Overflow),
        };
        proof {
            k = k + 1;
        }
    }
    Ok(())
}

/// A checked pointer to one `T` in user space: non-null, and the whole
/// object lies below `USER_SPACE_END`.
pub struct UserPtr<T> {
    addr: usize,
    _marker: PhantomData<T>,
}

impl<T> UserPtr<T> {
    /// The user address held.
    pub closed spec fn spec_addr(&self) -> usize {
        self.addr
    }

    /// Checks `addr` for a `T`: it must be non-null, its end must not
    /// overflow, and it must end at or below `USER_SPACE_END`.
    pub fn from_raw(addr: usize) -> (r: Result<Self, UserAccessError>)
        ensures
            addr == 0 ==> r == Err::<Self, UserAccessError>(UserAccessError::NullPointer),
            addr != 0 && addr + vstd::layout::size_of::<T>() > usize::MAX
                ==> r == Err::<Self, UserAccessError>(UserAccessError::Overflow),
            addr != 0 && addr + vstd::layout::size_of::<T>() <= usize::MAX
                && addr + vstd::layout::size_of::<T>() > USER_SPACE_END
                ==> r == Err::<Self, UserAccessError>(UserAccessError::OutOfUserRange),
            r is Ok <==> (addr != 0 && addr + vstd::layout::size_of::<T>() <= USER_SPACE_END
                && addr + vstd::layout::size_of::<T>() <= usize::MAX),
            r matches Ok(p) ==> p.spec_addr() == addr,
    {
        if addr == 0 {
            return Err(UserAccessError::NullPointer);
        }
        let size = core::mem::size_of::<T>();
        let end = match addr.checked_add(size) {
            Some(e) => e,
            None => return Err(UserAccessError::Overflow),
        };
        if end as u64 > USER_SPACE_END {
            return Err(UserAccessError::OutOfUserRange);
        }
        Ok(UserPtr { addr, _marker: PhantomData })
    }

    /// The user address.
    pub fn addr(&self) -> (r: usize)
        ensures
            r == self.spec_addr(),
    {
        self.addr
    }

    /// Checks the pages of the object without accessing it; the result is
    /// that of `validate_user_range` on the object's bytes.
    pub fn validate<F: Fn(usize, bool) -> Result<(), UserAccessError>>(&self, need_write: bool, page_ok: F)
        -> (r: Result<(), UserAccessError>)
        requires
            forall|p: usize, w: bool| call_requires(page_ok, (p, w)),
        ensures
            vstd::layout::size_of::<T>() == 0 ==> r is Ok,
            in_user_space(self.spec_addr(), vstd::layout::size_of::<T>() as usize) && r is Ok ==> forall|k: int|
                0 <= k < pages_to_check(self.spec_addr(), (self.spec_addr() + vstd::layout::size_of::<T>()) as usize)
                    ==> call_ensures(page_ok, (#[trigger] checked_page(self.spec_addr(), k) as usize, need_write), Ok(())),
            in_user_space(self.spec_addr(), vstd::layout::size_of::<T>() as usize) && r is Err ==> exists|k: int|
                0 <= k < pages_to_check(self.spec_addr(), (self.spec_addr() + vstd::layout::size_of::<T>()) as usize)
                    && (call_ensures(page_ok, (#[trigger] checked_page(self.spec_addr(), k) as usize, need_write), r)
                        || r == Err::<(), UserAccessError>(UserAccessError::Overflow)),
            self.spec_addr() + vstd::layout::size_of::<T>() > usize::MAX ==> r == Err::<(), UserAccessError>(UserAccessError::Overflow),
    {
        validate_user_range(self.addr, core::mem::size_of::<T>(), need_write, page_ok)
    }
}

/// A checked user byte buffer: when non-empty, non-null and wholly below
/// `USER_SPACE_END`.
pub struct UserSlice {
    addr: usize,
    len: usize,
}

impl UserSlice {
    /// The user address held.
    pub closed spec fn spec_addr(&self) -> usize {
        self.addr
    }

    /// The length held.
    pub closed spec fn spec_len(&self) -> usize {
        self.len
    }

    /// Checks a user buffer: an empty one is always accepted; otherwise the
    /// address must be non-null and the end must neither overflow nor pass
    /// `USER_SPACE_END`.
    pub fn from_raw(addr: usize, len: usize) -> (r: Result<Self, UserAccessError>)
        ensures
            len > 0 && addr == 0 ==> r == Err::<Self, UserAccessError>(UserAccessError::NullPointer),
            len > 0 && addr != 0 && addr + len > usize::MAX
                ==> r == Err::<Self, UserAccessError>(UserAccessError::Overflow),
            len > 0 && addr != 0 && addr + len <= usize::MAX && addr + len > USER_SPACE_END
                ==> r == Err::<Self, UserAccessError>(UserAccessError::OutOfUserRange),
            r is Ok <==> (len == 0 || (addr != 0 && addr + len <= USER_SPACE_END && addr + len <= usize::MAX)),
            r matches Ok(s) ==> s.spec_addr() == addr && s.spec_len() == len,
    {
        if len > 0 && addr == 0 {
            return Err(UserAccessError::NullPointer);
        }
        if len > 0 {
            let end = match addr.checked_add(len) {
                Some(e) => e,
                None => return Err(UserAccessError::Overflow),
            };
            if end as u64 > USER_SPACE_END {
                return Err(UserAccessError::OutOfUserRange);
            }
        }
        Ok(UserSlice { addr, len })
    }

    /// The buffer length in bytes.
    pub fn len(&self) -> (r: usize)
        ensures
            r == self.spec_len(),
    {
        self.len
    }

    /// Whether the buffer is empty.
    pub fn is_empty(&self) -> (r: bool)
        ensures
            r == (self.spec_len() == 0),
    {
        self.len == 0
    }

    /// Checks the pages of the whole buffer without copying; the result is
    /// that of `validate_user_range` on the buffer.
    pub fn validate<F: Fn(usize, bool) -> Result<(), UserAccessError>>(&self, need_write: bool, page_ok: F)
        -> (r: Result<(), UserAccessError>)
        requires
            forall|p: usize, w: bool| call_requires(page_ok, (p, w)),
        ensures
            self.spec_len() == 0 ==> r is Ok,
            in_user_space(self.spec_addr(), self.spec_len()) && r is Ok ==> forall|k: int|
                0 <= k < pages_to_check(self.spec_addr(), (self.spec_addr() + self.spec_len()) as usize)
                    ==> call_ensures(page_ok, (#[trigger] checked_page(self.spec_addr(), k) as usize, need_write), Ok(())),
            in_user_space(self.spec_addr(), self.spec_len()) && r is Err ==> exists|k: int|
                0 <= k < pages_to_check(self.spec_addr(), (self.spec_addr() + self.spec_len()) as usize)
                    && (call_ensures(page_ok, (#[trigger] checked_page(self.spec_addr(), k) as usize, need_write), r)
                        || r == Err::<(), UserAccessError>(UserAccessError::Overflow)),
    {
        validate_user_range(self.addr, self.len, need_write, page_ok)
    }

    /// Checks the length side of a copy: the kernel buffer must hold at
    /// least the user length.
    pub fn check_kernel_len(&self, kernel_len: usize) -> (r: Result<usize, UserAccessError>)
        ensures
            kernel_len < self.spec_len() ==> r == Err::<usize, UserAccessError>(UserAccessError::Overflow),
            kernel_len >= self.spec_len() ==> r == Ok::<usize, UserAccessError>(self.spec_len()),
    {
        if kernel_len < self.len {
            return Err(UserAccessError::Overflow);
        }
        Ok(self.len)
    }
}

} // verus!

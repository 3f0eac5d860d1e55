//! The ELF64 loader: header checks, the loadable segments, and the System V
//! initial user stack (strings, argv, envp, auxiliary vector).
//!
//! Mapping memory and writing it belong to the address space; here the
//! loader decides what is mapped where and what bytes go where.

use vstd::prelude::*;
use crate::abi::{AT_ENTRY, AT_NULL, AT_PAGESZ, AT_PHDR, AT_PHENT, AT_PHNUM};
use crate::mm::flags::PageFlags;

verus! {

/// ELF identification: 64-bit class.
pub const ELF_CLASS_64: u8 = 2;
/// ELF identification: little-endian data.
pub const ELF_DATA_2LSB: u8 = 1;
/// Machine: x86-64.
pub const EM_X86_64: u16 = 0x3E;
/// Program header type: loadable segment.
pub const PT_LOAD: u32 = 1;
/// Segment flag: executable.
pub const PF_X: u32 = 1;
/// Segment flag: writable.
pub const PF_W: u32 = 2;
/// Segment flag: readable.
pub const PF_R: u32 = 4;
/// Top of the user stack.
pub const USER_STACK_TOP: u64 = 0x0000_7FFF_FFFF_0000;
/// Size of the user stack (128 KiB).
pub const USER_STACK_SIZE: u64 = 0x2_0000;
/// Size of an ELF64 file header.
pub const ELF_HEADER_SIZE: usize = 64;
/// Size of an ELF64 program header.
pub const PHDR_SIZE: usize = 56;

/// The ELF64 file header.
#[derive(Debug, Clone, Copy, PartialEq, Eq, Structural)]
pub struct Elf64Header {
    pub e_type: u16,
    pub e_machine: u16,
    pub e_version: u32,
    pub e_entry: u64,
    pub e_phoff: u64,
    pub e_shoff: u64,
    pub e_flags: u32,
    pub e_ehsize: u16,
    pub e_phentsize: u16,
    pub e_phnum: u16,
    pub e_shentsize: u16,
    pub e_shnum: u16,
    pub e_shstrndx: u16,
}

/// An ELF64 program header.
#[derive(Debug, Clone, Copy, PartialEq, Eq, Structural)]
pub struct Elf64Phdr {
    pub p_type: u32,
    pub p_flags: u32,
    pub p_offset: u64,
    pub p_vaddr: u64,
    pub p_paddr: u64,
    pub p_filesz: u64,
    pub p_memsz: u64,
    pub p_align: u64,
}

/// The little-endian value of the `n` bytes of `s` from `off`.
pub open spec fn le(s: Seq<u8>, off: int, n: nat) -> nat
    decreases n,
{
    if n == 0 { 0 } else { s[off] as nat + 256 * le(s, off + 1, (n - 1) as nat) }
}

/// `256^n`.
pub open spec fn pow256(n: nat) -> nat
    decreases n,
{
    if n == 0 { 1 } else { 256 * pow256((n - 1) as nat) }
}

proof fn lemma_le_bound(s: Seq<u8>, off: int, n: nat)
    ensures
        le(s, off, n) < pow256(n),
    decreases n,
{
    if n > 0 {
        lemma_le_bound(s, off + 1, (n - 1) as nat);
        let r = le(s, off + 1, (n - 1) as nat);
        let b = s[off] as nat;
        assert(b < 256);
        assert(b + 256 * r < 256 * pow256((n - 1) as nat)) by (nonlinear_arith)
            requires b < 256, r < pow256((n - 1) as nat);
    }
}

proof fn lemma_pow256_8()
    ensures
        pow256(2) == 0x1_0000,
        pow256(4) == 0x1_0000_0000,
        pow256(8) == 0x1_0000_0000_0000_0000,
{
    reveal_with_fuel(pow256, 9);
}

/// Reads the `n`-byte (`n` at most 8) little-endian value at `off`.
fn read_le(bytes: &[u8], off: usize, n: usize) -> (r: u64)
    requires
        n <= 8,
        off + n <= bytes@.len(),
    ensures
        r as nat == le(bytes@, off as int, n as nat),
{
    let mut v: u64 = 0;
    let mut k: usize = n;
    let blen = bytes.len();
    assert(off + n <= usize::MAX) by {
        assert(bytes@.len() == blen);
    }
    proof {
        lemma_pow256_8();
    }
    while k > 0
        invariant
            k <= n <= 8,
            off + n <= bytes@.len(),
            off + n <= usize::MAX,
            v as nat == le(bytes@, (off + k) as int, (n - k) as nat),
        decreases k,
    {
        k -= 1;
        let b = bytes[off + k];
        proof {
            lemma_le_bound(bytes@, (off + k + 1) as int, (n - k - 1) as nat);
            lemma_pow_mono((n - k - 1) as nat, 7);
            lemma_pow256_8();
            reveal_with_fuel(pow256, 9);
            assert(pow256(7) == 0x100_0000_0000_0000);
            assert((b as nat) + 256 * (v as nat) <= 0xFFFF_FFFF_FFFF_FFFF) by (nonlinear_arith)
                requires b < 256, (v as nat) < 0x100_0000_0000_0000;
        }
        v = (b as u64) + 256 * v;
    }
    v
}

proof fn lemma_pow_mono(a: nat, b: nat)
    requires
        a <= b,
    ensures
        pow256(a) <= pow256(b),
    decreases b,
{
    if a < b {
        lemma_pow_mono(a, (b - 1) as nat);
    }
}

/// The header stored at the start of `s` (meaningful when `s` holds 64 bytes).
pub open spec fn spec_header(s: Seq<u8>) -> Elf64Header {
    Elf64Header {
        e_type: le(s, 16, 2) as u16,
        e_machine: le(s, 18, 2) as u16,
        e_version: le(s, 20, 4) as u32,
        e_entry: le(s, 24, 8) as u64,
        e_phoff: le(s, 32, 8) as u64,
        e_shoff: le(s, 40, 8) as u64,
        e_flags: le(s, 48, 4) as u32,
        e_ehsize: le(s, 52, 2) as u16,
        e_phentsize: le(s, 54, 2) as u16,
        e_phnum: le(s, 56, 2) as u16,
        e_shentsize: le(s, 58, 2) as u16,
        e_shnum: le(s, 60, 2) as u16,
        e_shstrndx: le(s, 62, 2) as u16,
    }
}

/// The program header stored at `off` of `s`.
pub open spec fn spec_phdr(s: Seq<u8>, off: int) -> Elf64Phdr {
    Elf64Phdr {
        p_type: le(s, off, 4) as u32,
        p_flags: le(s, off + 4, 4) as u32,
        p_offset: le(s, off + 8, 8) as u64,
        p_vaddr: le(s, off + 16, 8) as u64,
        p_paddr: le(s, off + 24, 8) as u64,
        p_filesz: le(s, off + 32, 8) as u64,
        p_memsz: le(s, off + 40, 8) as u64,
        p_align: le(s, off + 48, 8) as u64,
    }
}

/// Why the header of `s` is refused, if it is.
pub open spec fn header_error(s: Seq<u8>) -> Option<&'static str> {
    if s.len() < ELF_HEADER_SIZE {
        Some("ELF file too small for header")
    } else if !(s[0] == 0x7F && s[1] == 0x45 && s[2] == 0x4C && s[3] == 0x46) {
        Some("Invalid ELF magic")
    } else if s[4] != ELF_CLASS_64 {
        Some("Not a 64-bit ELF")
    } else if s[5] != ELF_DATA_2LSB {
        Some("Not a little-endian ELF")
    } else if spec_header(s).e_machine != EM_X86_64 {
        Some("Not an x86_64 ELF")
    } else {
        None
    }
}

/// Reads and checks the file header: the file must hold one, with the ELF
/// magic, 64-bit class, little-endian data and the x86-64 machine.
pub fn parse_elf_header(bytes: &[u8]) -> (r: Result<Elf64Header, &'static str>)
    ensures
        match header_error(bytes@) {
            Some(e) => r == Err::<Elf64Header, &'static str>(e),
            None => r == Ok::<Elf64Header, &'static str>(spec_header(bytes@)),
        },
{
    if bytes.len() < ELF_HEADER_SIZE {
        return Err("ELF file too small for header");
    }
    if !(bytes[0] == 0x7F && bytes[1] == 0x45 && bytes[2] == 0x4C && bytes[3] == 0x46) {
        return Err("Invalid ELF magic");
    }
    if bytes[4] != ELF_CLASS_64 {
        return Err("Not a 64-bit ELF");
    }
    if bytes[5] != ELF_DATA_2LSB {
        return Err("Not a little-endian ELF");
    }
    let h = Elf64Header {
        e_type: read_le(bytes, 16, 2) as u16,
        e_machine: read_le(bytes, 18, 2) as u16,
        e_version: read_le(bytes, 20, 4) as u32,
        e_entry: read_le(bytes, 24, 8),
        e_phoff: read_le(bytes, 32, 8),
        e_shoff: read_le(bytes, 40, 8),
        e_flags: read_le(bytes, 48, 4) as u32,
        e_ehsize: read_le(bytes, 52, 2) as u16,
        e_phentsize: read_le(bytes, 54, 2) as u16,
        e_phnum: read_le(bytes, 56, 2) as u16,
        e_shentsize: read_le(bytes, 58, 2) as u16,
        e_shnum: read_le(bytes, 60, 2) as u16,
        e_shstrndx: read_le(bytes, 62, 2) as u16,
    };
    if h.e_machine != EM_X86_64 {
        return Err("Not an x86_64 ELF");
    }
    Ok(h)
}

/// Reads the program header at `off`, if it lies within the file.
pub fn read_phdr(bytes: &[u8], off: usize) -> (r: Option<Elf64Phdr>)
    ensures
        off + PHDR_SIZE <= bytes@.len() ==> r == Some(spec_phdr(bytes@, off as int)),
        off + PHDR_SIZE > bytes@.len() ==> r is None,
{
    if off > bytes.len() || bytes.len() - off < PHDR_SIZE {
        return None;
    }
    Some(Elf64Phdr {
        p_type: read_le(bytes, off, 4) as u32,
        p_flags: read_le(bytes, off + 4, 4) as u32,
        p_offset: read_le(bytes, off + 8, 8),
        p_vaddr: read_le(bytes, off + 16, 8),
        p_paddr: read_le(bytes, off + 24, 8),
        p_filesz: read_le(bytes, off + 32, 8),
        p_memsz: read_le(bytes, off + 40, 8),
        p_align: read_le(bytes, off + 48, 8),
    })
}

/// One loadable segment: map `memsz` bytes at `vaddr` with `flags`, then
/// copy the file bytes `[file_offset, file_offset + filesz)` there.
#[derive(Debug, Clone, Copy, PartialEq, Eq, Structural)]
pub struct SegmentLoad {
    pub vaddr: u64,
    pub memsz: u64,
    pub flags: PageFlags,
    pub file_offset: u64,
    pub filesz: u64,
}

/// The page flags of a segment: present, user, writable with `PF_W`,
/// executable with `PF_X`.
pub open spec fn segment_flags(p_flags: u32) -> PageFlags {
    PageFlags { present: true, writable: p_flags & PF_W != 0, user: true, no_exec: p_flags & PF_X == 0 }
}

/// What program header `i` asks of the loader: `Ok(None)` for a header
/// that is not loadable, the segment to load, or the error.
pub open spec fn spec_segment(s: Seq<u8>, h: Elf64Header, i: int) -> Result<Option<SegmentLoad>, &'static str> {
    let off = h.e_phoff + i * h.e_phentsize;
    if off + PHDR_SIZE > s.len() {
        Err("Program header out of bounds")
    } else {
        let p = spec_phdr(s, off);
        if p.p_type != PT_LOAD {
            Ok(None)
        } else if p.p_offset + p.p_filesz > s.len() {
            Err("Segment data out of bounds in ELF file")
        } else {
            Ok(Some(SegmentLoad {
                vaddr: p.p_vaddr,
                memsz: p.p_memsz,
                flags: segment_flags(p.p_flags),
                file_offset: p.p_offset,
                filesz: p.p_filesz,
            }))
        }
    }
}

/// Program header `i` of the file checked by `parse_elf_header` into `h`.
pub fn elf_segment(bytes: &[u8], h: &Elf64Header, i: u16) -> (r: Result<Option<SegmentLoad>, &'static str>)
    requires
        i < h.e_phnum,
        h.e_phoff + 0x1_0000 * 0x1_0000 <= u64::MAX,
    ensures
        r == spec_segment(bytes@, *h, i as int),
{
    assert((i as u64) * (h.e_phentsize as u64) <= 0xFFFF * 0xFFFF) by (nonlinear_arith)
        requires i <= 0xFFFF, h.e_phentsize <= 0xFFFF;
    let off64: u64 = h.e_phoff + (i as u64) * (h.e_phentsize as u64);
    if off64 > bytes.len() as u64 {
        return Err("Program header out of bounds");
    }
    let off = off64 as usize;
    let p = match read_phdr(bytes, off) {
        Some(p) => p,
        None => return Err("Program header out of bounds"),
    };
    if p.p_type != PT_LOAD {
        return Ok(None);
    }
    if p.p_offset > bytes.len() as u64 || p.p_filesz > bytes.len() as u64 - p.p_offset {
        return Err("Segment data out of bounds in ELF file");
    }
    Ok(Some(SegmentLoad {
        vaddr: p.p_vaddr,
        memsz: p.p_memsz,
        flags: PageFlags { present: true, writable: p.p_flags & PF_W != 0, user: true, no_exec: p.p_flags & PF_X == 0 },
        file_offset: p.p_offset,
        filesz: p.p_filesz,
    }))
}

/// The address of the program header table in memory: the first loaded
/// segment whose file bytes contain the table's file offset places it.
pub open spec fn spec_phdr_vaddr(cur: u64, phoff: u64, seg: SegmentLoad) -> u64 {
    if phoff >= seg.file_offset && phoff < seg.file_offset + seg.filesz && cur == 0 {
        (seg.vaddr + (phoff - seg.file_offset)) as u64
    } else {
        cur
    }
}

/// Updates the program header table address after loading `seg`.
pub fn update_phdr_vaddr(cur: u64, phoff: u64, seg: &SegmentLoad) -> (r: u64)
    requires
        seg.vaddr + seg.filesz <= u64::MAX,
    ensures
        r == spec_phdr_vaddr(cur, phoff, *seg),
{
    if phoff >= seg.file_offset && phoff - seg.file_offset < seg.filesz && cur == 0 {
        seg.vaddr + (phoff - seg.file_offset)
    } else {
        cur
    }
}

/// The segments the first `n` program headers load, in order, and the
/// program header table address they give; or the first error. A loaded
/// segment whose end would pass the 64-bit range is refused.
pub open spec fn plan_segments(s: Seq<u8>, h: Elf64Header, n: int) -> Result<(Seq<SegmentLoad>, u64), &'static str>
    decreases n,
{
    if n <= 0 {
        Ok((Seq::empty(), 0u64))
    } else {
        match plan_segments(s, h, n - 1) {
            Err(e) => Err(e),
            Ok((segs, pv)) => match spec_segment(s, h, n - 1) {
                Err(e) => Err(e),
                Ok(None) => Ok((segs, pv)),
                Ok(Some(g)) => if g.vaddr + g.filesz > u64::MAX {
                    Err("Segment address out of range")
                } else {
                    Ok((segs.push(g), spec_phdr_vaddr(pv, h.e_phoff, g)))
                },
            },
        }
    }
}

/// What loading an executable takes: its entry point, its program header
/// table (where it lands in memory, entry size, count) and the segments to
/// map and fill, in program-header order.
pub struct LoadPlan {
    pub entry: u64,
    pub phdr_vaddr: u64,
    pub phentsize: u16,
    pub phnum: u16,
    pub segments: Vec<SegmentLoad>,
}

/// Checks an executable image and lists what loading it takes: the
/// header errors of `parse_elf_header`, then each program header in turn
/// (`spec_segment`'s errors); loadable segments are collected.
pub fn elf_load_plan(bytes: &[u8]) -> (r: Result<LoadPlan, &'static str>)
    ensures
        match header_error(bytes@) {
            Some(e) => r == Err::<LoadPlan, &'static str>(e),
            None => {
                let h = spec_header(bytes@);
                if h.e_phnum > 0 && h.e_phoff + 0x1_0000 * 0x1_0000 > u64::MAX {
                    r == Err::<LoadPlan, &'static str>("Program header out of bounds")
                } else {
                    match plan_segments(bytes@, h, h.e_phnum as int) {
                        Err(e) => r == Err::<LoadPlan, &'static str>(e),
                        Ok((segs, pv)) => r matches Ok(p) && p.segments@ == segs && p.phdr_vaddr == pv
                            && p.entry == h.e_entry && p.phentsize == h.e_phentsize && p.phnum == h.e_phnum,
                    }
                }
            },
        },
{
    let h = match parse_elf_header(bytes) {
        Ok(h) => h,
        Err(e) => return Err(e),
    };
    if h.e_phnum > 0 && h.e_phoff > u64::MAX - 0x1_0000 * 0x1_0000 {
        return Err("Program header out of bounds");
    }
    let mut segments: Vec<SegmentLoad> = Vec::new();
    let mut pv: u64 = 0;
    let mut i: u16 = 0;
    while i < h.e_phnum
        invariant
            h == spec_header(bytes@),
            header_error(bytes@) is None,
            h.e_phnum > 0 ==> h.e_phoff + 0x1_0000 * 0x1_0000 <= u64::MAX,
            i <= h.e_phnum,
            plan_segments(bytes@, h, i as int) == Ok::<(Seq<SegmentLoad>, u64), &'static str>((segments@, pv)),
        decreases h.e_phnum - i,
    {
        match elf_segment(bytes, &h, i) {
            Err(e) => {
                proof {
                    assert(plan_segments(bytes@, h, i as int + 1) == Err::<(Seq<SegmentLoad>, u64), &'static str>(e));
                    lemma_plan_err_sticks(bytes@, h, i as int + 1, h.e_phnum as int);
                }
                return Err(e);
            },
            Ok(None) => {},
            Ok(Some(g)) => {
                if g.vaddr > u64::MAX - g.filesz {
                    proof {
                        assert(plan_segments(bytes@, h, i as int + 1) == Err::<(Seq<SegmentLoad>, u64), &'static str>("Segment address out of range"));
                        lemma_plan_err_sticks(bytes@, h, i as int + 1, h.e_phnum as int);
                    }
                    return Err("Segment address out of range");
                }
                pv = update_phdr_vaddr(pv, h.e_phoff, &g);
                segments.push(g);
            },
        }
        i += 1;
    }
    Ok(LoadPlan { entry: h.e_entry, phdr_vaddr: pv, phentsize: h.e_phentsize, phnum: h.e_phnum, segments })
}

proof fn lemma_plan_err_sticks(s: Seq<u8>, h: Elf64Header, k: int, m: int)
    requires
        0 <= k <= m,
        plan_segments(s, h, k) is Err,
    ensures
        plan_segments(s, h, m) == plan_segments(s, h, k),
    decreases m - k,
{
    if m > k {
        lemma_plan_err_sticks(s, h, k, m - 1);
    }
}

/// The initial user stack: the bytes to write (address, data) in order,
/// and the resulting stack pointer.
pub struct StackImage {
    pub writes: Vec<(u64, Vec<u8>)>,
    pub rsp: u64,
}

/// Bottom of the user stack.
pub open spec fn stack_bottom() -> u64 {
    (USER_STACK_TOP - USER_STACK_SIZE) as u64
}

/// The stack pointer after pushing strings `strs` (each with its NUL)
/// from `sp` down, or `None` when one does not fit above the stack bottom.
pub open spec fn push_strings(sp: u64, strs: Seq<Seq<u8>>) -> Option<u64>
    decreases strs.len(),
{
    if strs.len() == 0 {
        Some(sp)
    } else {
        match push_strings(sp, strs.drop_last()) {
            Some(s) => if s < stack_bottom() + strs.last().len() + 1 {
                None
            } else {
                Some((s - (strs.last().len() + 1)) as u64)
            },
            None => None,
        }
    }
}

/// The eight little-endian bytes of `v`.
pub open spec fn le8(v: u64) -> Seq<u8> {
    Seq::new(8, |i: int| ((v >> (8 * i) as u64) & 0xFF) as u8)
}

/// The little-endian bytes of `v`.
pub fn u64_bytes(v: u64) -> (r: Vec<u8>)
    ensures
        r@ == le8(v),
{
    let mut out: Vec<u8> = Vec::new();
    let mut i: u64 = 0;
    while i < 8
        invariant
            i <= 8,
            out@.len() == i,
            forall|j: int| 0 <= j < i ==> #[trigger] out@[j] == ((v >> (8 * j) as u64) & 0xFF) as u8,
        decreases 8 - i,
    {
        out.push(((v >> (8 * i)) & 0xFF) as u8);
        i += 1;
    }
    proof {
        assert(out@ =~= le8(v));
    }
    out
}

/// Where string `i` of `strs`, pushed from `USER_STACK_TOP` down, starts.
pub open spec fn str_addr(strs: Seq<Seq<u8>>, i: int) -> u64 {
    push_strings(USER_STACK_TOP, strs.take(i + 1)).unwrap()
}

/// Auxiliary vector entry `k` (key, value): page size, entry point,
/// program headers, their entry size and count, terminator.
pub open spec fn aux_entry(k: int, entry: u64, phdr: u64, phent: u64, phnum: u64) -> (u64, u64) {
    if k == 0 { (AT_PAGESZ, 4096u64) }
    else if k == 1 { (AT_ENTRY, entry) }
    else if k == 2 { (AT_PHDR, phdr) }
    else if k == 3 { (AT_PHENT, phent) }
    else if k == 4 { (AT_PHNUM, phnum) }
    else { (AT_NULL, 0u64) }
}

/// Bytes of the pointer frame for `na` arguments and `ne` environment
/// strings: argc, the argv pointers and a null, the envp pointers and a
/// null, six auxiliary pairs.
pub open spec fn frame_bytes(na: int, ne: int) -> int {
    8 * (1 + (na + 1) + (ne + 1) + 12)
}

/// The writes of a stack whose frame starts at `a`: first the strings
/// (environment, then arguments, each with its NUL, from the top down),
/// then from the top of the frame down the auxiliary pairs (value above
/// key, last pair first), a null, the envp pointers (last first), a null,
/// the argv pointers (last first), and `argc` at `a`.
pub open spec fn stack_layout(w: Seq<(u64, Seq<u8>)>, a: u64, es: Seq<Seq<u8>>, as_: Seq<Seq<u8>>,
    entry: u64, phdr: u64, phent: u64, phnum: u64) -> bool {
    let ne = es.len() as int;
    let na = as_.len() as int;
    let all = es + as_;
    let f = ne + na;
    &&& w.len() == f + 12 + ne + na + 3
    &&& forall|i: int| 0 <= i < f ==> #[trigger] w[i] == (str_addr(all, i), all[i].push(0u8))
    &&& forall|k: int| 0 <= k < 6 ==> #[trigger] w[f + 2 * (5 - k)]
        == ((a + 8 * (na + ne + 3) + 16 * k + 8) as u64, le8(aux_entry(k, entry, phdr, phent, phnum).1))
    &&& forall|k: int| 0 <= k < 6 ==> #[trigger] w[f + 2 * (5 - k) + 1]
        == ((a + 8 * (na + ne + 3) + 16 * k) as u64, le8(aux_entry(k, entry, phdr, phent, phnum).0))
    &&& w[f + 12] == ((a + 8 * (na + ne + 2)) as u64, le8(0))
    &&& forall|e: int| 0 <= e < ne ==> #[trigger] w[f + 13 + (ne - 1 - e)] == ((a + 8 * (na + 2 + e)) as u64, le8(str_addr(all, e)))
    &&& w[f + 13 + ne] == ((a + 8 * (na + 1)) as u64, le8(0))
    &&& forall|j: int| 0 <= j < na ==> #[trigger] w[f + 14 + ne + (na - 1 - j)] == ((a + 8 * (1 + j)) as u64, le8(str_addr(all, ne + j)))
    &&& w[f + 14 + ne + na] == (a, le8(na as u64))
}

/// Lays out the System V initial stack from `USER_STACK_TOP` down:
/// environment strings, then argument strings (each NUL-terminated), then,
/// from a 16-byte aligned stack pointer up, `argc`, the argv pointers and a
/// null, the envp pointers and a null, and the auxiliary vector (page size,
/// entry, program headers, their entry size and count, terminator); see
/// `stack_layout`. Fails when the strings or the frame do not fit in the
/// stack.
pub fn setup_user_stack(
    entry_point: u64,
    phdr_vaddr: u64,
    phentsize: u64,
    phnum: u64,
    argv: &Vec<Vec<u8>>,
    envp: &Vec<Vec<u8>>,
) -> (r: Result<StackImage, &'static str>)
    ensures
        ({
            let es = envp@.map_values(|e: Vec<u8>| e@);
            let as_ = argv@.map_values(|a: Vec<u8>| a@);
            match push_strings(USER_STACK_TOP, es) {
                None => r == Err::<StackImage, &'static str>("Environment list exceeds user stack limit (E2BIG)"),
                Some(_) => match push_strings(USER_STACK_TOP, es + as_) {
                    None => r == Err::<StackImage, &'static str>("Argument list exceeds user stack limit (E2BIG)"),
                    Some(send) => {
                        let sp8 = send & !0x7u64;
                        let total = frame_bytes(as_.len() as int, es.len() as int);
                        if sp8 < total {
                            r == Err::<StackImage, &'static str>("Stack pointer underflow")
                        } else {
                            let a = ((sp8 - total) as u64) & !0xFu64;
                            if a < stack_bottom() {
                                r == Err::<StackImage, &'static str>("User stack frame exceeds user stack limit (E2BIG)")
                            } else {
                                &&& r matches Ok(img)
                                &&& img.rsp == a
                                &&& a % 16 == 0
                                &&& stack_layout(img.writes@.map_values(|p: (u64, Vec<u8>)| (p.0, p.1@)), a, es, as_, entry_point, phdr_vaddr, phentsize, phnum)
                            }
                        }
                    },
                },
            }
        }),
{
    let top = USER_STACK_TOP;
    let bottom = USER_STACK_TOP - USER_STACK_SIZE;
    let mut sp = top;
    let mut writes: Vec<(u64, Vec<u8>)> = Vec::new();
    let ghost es = envp@.map_values(|e: Vec<u8>| e@);
    let ghost as_ = argv@.map_values(|a: Vec<u8>| a@);
    let ghost all = es + as_;
    let ghost wv = Seq::<(u64, Seq<u8>)>::empty();
    let mut envp_ptrs: Vec<u64> = Vec::new();
    let mut i: usize = 0;
    while i < envp.len()
        invariant
            i <= envp@.len(),
            es == envp@.map_values(|e: Vec<u8>| e@),
            all == es + argv@.map_values(|a: Vec<u8>| a@),
            bottom == stack_bottom(),
            push_strings(top, es.take(i as int)) == Some(sp),
            bottom <= sp <= top,
            top - sp >= i,
            envp_ptrs@.len() == i,
            writes@.len() == i,
            top == USER_STACK_TOP,
            forall|t: int| 0 <= t < i ==> #[trigger] writes@[t].0 == str_addr(all, t) && writes@[t].1@ == all[t].push(0u8),
            forall|t: int| 0 <= t < i ==> #[trigger] envp_ptrs@[t] == str_addr(all, t),
        decreases envp@.len() - i,
    {
        let bytes = &envp[i];
        proof {
            assert(es.take(i as int + 1).drop_last() =~= es.take(i as int));
            assert(es.take(i as int + 1).last() == bytes@);
        }
        if sp < bottom || sp - bottom <= (bytes.len() as u64) {
            proof {
                assert(es.take(i as int + 1).len() == i + 1);
                assert(es.take(i as int + 1).take(i as int + 1) =~= es.take(i as int + 1));
                lemma_push_strings_none_extends(top, es.take(i as int + 1), es);
            }
            return Err("Environment list exceeds user stack limit (E2BIG)");
        }
        sp = sp - ((bytes.len() as u64) + 1);
        proof {
            assert(all.take(i as int + 1) =~= es.take(i as int + 1));
            assert(all[i as int] == bytes@);
        }
        let mut s = bytes.clone();
        s.push(0u8);
        writes.push((sp, s));
        envp_ptrs.push(sp);
        i += 1;
    }
    proof {
        assert(es.take(envp@.len() as int) =~= es);
    }
    let mut argv_ptrs: Vec<u64> = Vec::new();
    let mut j: usize = 0;
    while j < argv.len()
        invariant
            j <= argv@.len(),
            es == envp@.map_values(|e: Vec<u8>| e@),
            as_ == argv@.map_values(|a: Vec<u8>| a@),
            all == es + as_,
            bottom == stack_bottom(),
            push_strings(top, es) is Some,
            push_strings(top, es + as_.take(j as int)) == Some(sp),
            bottom <= sp <= top,
            top - sp >= es.len() + j,
            top == USER_STACK_TOP,
            writes@.len() == es.len() + j,
            argv_ptrs@.len() == j,
            envp_ptrs@.len() == es.len(),
            forall|t: int| 0 <= t < es.len() + j ==> #[trigger] writes@[t].0 == str_addr(all, t) && writes@[t].1@ == all[t].push(0u8),
            forall|t: int| 0 <= t < es.len() ==> #[trigger] envp_ptrs@[t] == str_addr(all, t),
            forall|t: int| 0 <= t < j ==> #[trigger] argv_ptrs@[t] == str_addr(all, es.len() + t),
        decreases argv@.len() - j,
    {
        let bytes = &argv[j];
        proof {
            assert((es + as_.take(j as int + 1)).drop_last() =~= es + as_.take(j as int));
            assert((es + as_.take(j as int + 1)).last() == bytes@);
        }
        if sp < bottom || sp - bottom <= (bytes.len() as u64) {
            proof {
                assert((es + as_).take(es.len() + j + 1) =~= es + as_.take(j as int + 1));
                lemma_push_strings_none_extends(top, es + as_.take(j as int + 1), es + as_);
            }
            return Err("Argument list exceeds user stack limit (E2BIG)");
        }
        sp = sp - ((bytes.len() as u64) + 1);
        proof {
            assert(all.take(es.len() + j + 1) =~= es + as_.take(j as int + 1));
            assert(all[es.len() + j] == bytes@);
        }
        let mut s = bytes.clone();
        s.push(0u8);
        writes.push((sp, s));
        argv_ptrs.push(sp);
        j += 1;
    }
    proof {
        assert(as_.take(argv@.len() as int) =~= as_);
    }
    let ghost w0 = writes@;
    let ghost f: int = (es.len() + as_.len()) as int;
    let sp_strings = sp;
    sp = sp & !0x7u64;
    assert(sp <= sp_strings && sp_strings - sp < 8) by (bit_vector)
        requires sp == sp_strings & !0x7u64;
    let auxv: Vec<(u64, u64)> = vec![
        (AT_PAGESZ, 4096u64),
        (AT_ENTRY, entry_point),
        (AT_PHDR, phdr_vaddr),
        (AT_PHENT, phentsize),
        (AT_PHNUM, phnum),
        (AT_NULL, 0u64),
    ];
    let nargs = argv_ptrs.len();
    let nenvs = envp_ptrs.len();
    let total_words: u64 = 1 + (nargs as u64 + 1) + (nenvs as u64 + 1) + 12;
    let total_bytes: u64 = total_words * 8;
    if sp < total_bytes {
        return Err("Stack pointer underflow");
    }
    let target_sp = sp - total_bytes;
    let aligned_sp = target_sp & !0xFu64;
    if aligned_sp < bottom {
        return Err("User stack frame exceeds user stack limit (E2BIG)");
    }
    proof {
        assert(aligned_sp <= target_sp && target_sp - aligned_sp < 16 && aligned_sp % 16 == 0) by (bit_vector)
            requires aligned_sp == target_sp & !0xFu64;
    }
    let padding = target_sp - aligned_sp;
    sp = sp - padding;
    let ghost base: int = aligned_sp + 8 * (nargs + nenvs + 3);
    proof {
        assert(sp == aligned_sp + total_bytes);
        assert(auxv@[0] == aux_entry(0, entry_point, phdr_vaddr, phentsize, phnum));
        assert(auxv@[1] == aux_entry(1, entry_point, phdr_vaddr, phentsize, phnum));
        assert(auxv@[2] == aux_entry(2, entry_point, phdr_vaddr, phentsize, phnum));
        assert(auxv@[3] == aux_entry(3, entry_point, phdr_vaddr, phentsize, phnum));
        assert(auxv@[4] == aux_entry(4, entry_point, phdr_vaddr, phentsize, phnum));
        assert(auxv@[5] == aux_entry(5, entry_point, phdr_vaddr, phentsize, phnum));
    }
    // The auxiliary vector, last pair first.
    let mut k: usize = 6;
    while k > 0
        invariant
            k <= 6,
            auxv@.len() == 6,
            forall|q: int| 0 <= q < 6 ==> #[trigger] auxv@[q] == aux_entry(q, entry_point, phdr_vaddr, phentsize, phnum),
            sp == aligned_sp + total_bytes - 16 * (6 - k),
            aligned_sp >= bottom,
            total_bytes == 8 * (1 + (nargs + 1) + (nenvs + 1) + 12),
            base == aligned_sp + 8 * (nargs + nenvs + 3),
            f == nargs + nenvs,
            writes@.len() == f + 2 * (6 - k),
            forall|t: int| 0 <= t < f ==> #[trigger] writes@[t] == w0[t],
            forall|q: int| k <= q < 6 ==> #[trigger] writes@[f + 2 * (5 - q)].0 == base + 16 * q + 8
                && writes@[f + 2 * (5 - q)].1@ == le8(aux_entry(q, entry_point, phdr_vaddr, phentsize, phnum).1),
            forall|q: int| k <= q < 6 ==> #[trigger] writes@[f + 2 * (5 - q) + 1].0 == base + 16 * q
                && writes@[f + 2 * (5 - q) + 1].1@ == le8(aux_entry(q, entry_point, phdr_vaddr, phentsize, phnum).0),
        decreases k,
    {
        k -= 1;
        let (key, val) = auxv[k];
        sp = sp - 8;
        writes.push((sp, u64_bytes(val)));
        sp = sp - 8;
        writes.push((sp, u64_bytes(key)));
    }
    let ghost w1 = writes@;
    sp = sp - 8;
    writes.push((sp, u64_bytes(0)));
    let mut e: usize = nenvs;
    while e > 0
        invariant
            e <= nenvs,
            nenvs == envp_ptrs@.len(),
            nenvs == es.len(),
            f == nargs + nenvs,
            sp == aligned_sp + 8 * (1 + (nargs + 1) + e),
            aligned_sp >= bottom,
            writes@.len() == f + 13 + (nenvs - e),
            forall|t: int| 0 <= t < f + 13 ==> #[trigger] writes@[t] == if t < f + 12 { w1[t] } else { (((aligned_sp + 8 * (nargs + nenvs + 2)) as u64), writes@[f + 12].1) },
            writes@[f + 12].1@ == le8(0),
            forall|q: int| 0 <= q < es.len() ==> #[trigger] envp_ptrs@[q] == str_addr(all, q),
            forall|q: int| e <= q < nenvs ==> #[trigger] writes@[f + 13 + (nenvs - 1 - q)].0 == aligned_sp + 8 * (nargs + 2 + q)
                && writes@[f + 13 + (nenvs - 1 - q)].1@ == le8(str_addr(all, q)),
        decreases e,
    {
        e -= 1;
        sp = sp - 8;
        writes.push((sp, u64_bytes(envp_ptrs[e])));
    }
    let ghost w2 = writes@;
    sp = sp - 8;
    writes.push((sp, u64_bytes(0)));
    let mut a: usize = nargs;
    while a > 0
        invariant
            a <= nargs,
            nargs == argv_ptrs@.len(),
            nargs == as_.len(),
            nenvs == es.len(),
            f == nargs + nenvs,
            sp == aligned_sp + 8 * (1 + a),
            aligned_sp >= bottom,
            writes@.len() == f + 14 + nenvs + (nargs - a),
            forall|t: int| 0 <= t < f + 13 + nenvs ==> #[trigger] writes@[t] == w2[t],
            writes@[f + 13 + nenvs].0 == aligned_sp + 8 * (nargs + 1),
            writes@[f + 13 + nenvs].1@ == le8(0),
            forall|q: int| 0 <= q < nargs ==> #[trigger] argv_ptrs@[q] == str_addr(all, nenvs + q),
            forall|q: int| a <= q < nargs ==> #[trigger] writes@[f + 14 + nenvs + (nargs - 1 - q)].0 == aligned_sp + 8 * (1 + q)
                && writes@[f + 14 + nenvs + (nargs - 1 - q)].1@ == le8(str_addr(all, nenvs + q)),
        decreases a,
    {
        a -= 1;
        sp = sp - 8;
        writes.push((sp, u64_bytes(argv_ptrs[a])));
    }
    sp = sp - 8;
    let argc = argv.len() as u64;
    writes.push((sp, u64_bytes(argc)));
    if sp != aligned_sp {
        return Err("Stack alignment computation mismatch");
    }
    proof {
        let wm = writes@.map_values(|p: (u64, Vec<u8>)| (p.0, p.1@));
        assert(wm.len() == writes@.len());
        assert forall|t: int| 0 <= t < wm.len() implies #[trigger] wm[t] == (writes@[t].0, writes@[t].1@) by {}
    }
    Ok(StackImage { writes, rsp: sp })
}

proof fn lemma_push_strings_none_extends(sp: u64, pre: Seq<Seq<u8>>, full: Seq<Seq<u8>>)
    requires
        push_strings(sp, pre) is None,
        pre.len() <= full.len(),
        full.take(pre.len() as int) == pre,
    ensures
        push_strings(sp, full) is None,
    decreases full.len(),
{
    if full.len() > pre.len() {
        assert(full.drop_last().take(pre.len() as int) =~= pre);
        lemma_push_strings_none_extends(sp, pre, full.drop_last());
    } else {
        assert(full =~= pre);
    }
}

} // verus!

//! What the loader's results amount to: which headers it accepts, what a
//! load plan maps (each segment's placement and page permissions as its
//! program header gives them), and the auxiliary vector it builds.

use vstd::prelude::*;
use crate::services::elf::{
    aux_entry, header_error, plan_segments, spec_header, spec_phdr, spec_segment, Elf64Header, SegmentLoad,
};

verus! {

/// Program header `i` is loadable and `g` maps it: the header's placement,
/// pages present and user-accessible, writable exactly when the header's
/// flags have `PF_W` (bit 2) and executable exactly when they have `PF_X`
/// (bit 1), whatever the other bits.
pub open spec fn maps_header(s: Seq<u8>, h: Elf64Header, i: int, g: SegmentLoad) -> bool {
    let p = spec_phdr(s, h.e_phoff + i * h.e_phentsize);
    &&& p.p_type == 1
    &&& g.vaddr == p.p_vaddr
    &&& g.memsz == p.p_memsz
    &&& g.file_offset == p.p_offset
    &&& g.filesz == p.p_filesz
    &&& g.flags.present && g.flags.user
    &&& g.flags.writable == (p.p_flags & 2 != 0)
    &&& g.flags.no_exec == (p.p_flags & 1 == 0)
}

/// A loadable program header gives a segment that maps it (`maps_header`).
pub proof fn lemma_segment_permissions(s: Seq<u8>, h: Elf64Header, i: int)
    ensures
        spec_segment(s, h, i) matches Ok(Some(g)) ==> maps_header(s, h, i, g),
{
}

/// Each segment of a plan maps a loadable program header among the first
/// `n` (`maps_header`): its pages are writable exactly when that header
/// has `PF_W` and executable exactly when it has `PF_X`.
pub proof fn lemma_planned_segment_permissions(s: Seq<u8>, h: Elf64Header, n: int, k: int)
    requires
        plan_segments(s, h, n) is Ok,
        0 <= k < plan_segments(s, h, n)->Ok_0.0.len(),
    ensures
        exists|i: int| 0 <= i < n && #[trigger] maps_header(s, h, i, plan_segments(s, h, n)->Ok_0.0[k]),
    decreases n,
{
    let segs = plan_segments(s, h, n)->Ok_0.0;
    let segs0 = plan_segments(s, h, n - 1)->Ok_0.0;
    lemma_segment_permissions(s, h, n - 1);
    if k < segs0.len() {
        lemma_planned_segment_permissions(s, h, n - 1, k);
        assert(segs[k] == segs0[k]);
        let i = choose|i: int| 0 <= i < n - 1 && #[trigger] maps_header(s, h, i, segs0[k]);
        assert(maps_header(s, h, i, segs[k]));
    } else {
        assert(maps_header(s, h, n - 1, segs[k]));
    }
}

/// Every loadable program header among the first `n` is mapped by some
/// segment of a plan that succeeds: none is skipped.
pub proof fn lemma_plan_maps_every_loadable_header(s: Seq<u8>, h: Elf64Header, n: int, i: int)
    requires
        plan_segments(s, h, n) is Ok,
        0 <= i < n,
        spec_phdr(s, h.e_phoff + i * h.e_phentsize).p_type == 1,
    ensures
        exists|k: int| 0 <= k < plan_segments(s, h, n)->Ok_0.0.len()
            && #[trigger] maps_header(s, h, i, plan_segments(s, h, n)->Ok_0.0[k]),
    decreases n,
{
    let segs = plan_segments(s, h, n)->Ok_0.0;
    let segs0 = plan_segments(s, h, n - 1)->Ok_0.0;
    if i < n - 1 {
        lemma_plan_maps_every_loadable_header(s, h, n - 1, i);
        let k = choose|k: int| 0 <= k < segs0.len() && #[trigger] maps_header(s, h, i, segs0[k]);
        assert(segs[k] == segs0[k]);
        assert(maps_header(s, h, i, segs[k]));
    } else {
        lemma_segment_permissions(s, h, n - 1);
        let k = segs0.len() as int;
        assert(segs[k] == spec_segment(s, h, n - 1)->Ok_0->Some_0);
        assert(maps_header(s, h, i, segs[k]));
    }
}

/// The headers the loader accepts: at least 64 bytes, the magic
/// `7F 'E' 'L' 'F'`, class 2 (64-bit), data 1 (little-endian) and machine
/// 62 (x86-64); nothing else is checked.
pub proof fn lemma_accepted_headers(s: Seq<u8>)
    ensures
        (header_error(s) is None) == (s.len() >= 64 && s[0] == 0x7F && s[1] == 0x45 && s[2] == 0x4C && s[3] == 0x46
            && s[4] == 2 && s[5] == 1 && spec_header(s).e_machine == 62),
{
}

/// The auxiliary vector: page size 4096 (key 6), the entry point (key 9),
/// the program headers' address (key 3), entry size (key 4) and count
/// (key 5), in that order, ended by the null pair (key 0, value 0).
pub proof fn lemma_aux_vector(entry: u64, phdr: u64, phent: u64, phnum: u64)
    ensures
        aux_entry(0, entry, phdr, phent, phnum) == (6u64, 4096u64),
        aux_entry(1, entry, phdr, phent, phnum) == (9u64, entry),
        aux_entry(2, entry, phdr, phent, phnum) == (3u64, phdr),
        aux_entry(3, entry, phdr, phent, phnum) == (4u64, phent),
        aux_entry(4, entry, phdr, phent, phnum) == (5u64, phnum),
        aux_entry(5, entry, phdr, phent, phnum) == (0u64, 0u64),
{
}

/// Segment `g`'s file bytes hold file offset `off`.
pub open spec fn holds_offset(g: SegmentLoad, off: u64) -> bool {
    g.file_offset <= off < g.file_offset + g.filesz
}

/// Where a plan puts the program header table: a non-zero address is that
/// of the table's file offset inside a planned segment whose file bytes
/// hold it; when no planned segment holds it, the address is zero.
pub proof fn lemma_phdr_address(s: Seq<u8>, h: Elf64Header, n: int)
    requires
        plan_segments(s, h, n) is Ok,
    ensures
        ({
            let segs = plan_segments(s, h, n)->Ok_0.0;
            let pv = plan_segments(s, h, n)->Ok_0.1;
            &&& pv != 0 ==> exists|k: int| 0 <= k < segs.len() && #[trigger] holds_offset(segs[k], h.e_phoff)
                && pv == segs[k].vaddr + (h.e_phoff - segs[k].file_offset)
            &&& (forall|k: int| 0 <= k < segs.len() ==> !#[trigger] holds_offset(segs[k], h.e_phoff)) ==> pv == 0
        }),
    decreases n,
{
    if n > 0 {
        lemma_phdr_address(s, h, n - 1);
        let segs0 = plan_segments(s, h, n - 1)->Ok_0.0;
        let segs = plan_segments(s, h, n)->Ok_0.0;
        let pv = plan_segments(s, h, n)->Ok_0.1;
        if segs.len() > segs0.len() {
            let g = segs[segs0.len() as int];
            assert forall|k: int| 0 <= k < segs0.len() implies #[trigger] segs[k] == segs0[k] by {}
            if pv != 0 {
                if holds_offset(g, h.e_phoff) && plan_segments(s, h, n - 1)->Ok_0.1 == 0 {
                    assert(holds_offset(segs[segs0.len() as int], h.e_phoff));
                } else {
                    let k = choose|k: int| 0 <= k < segs0.len() && #[trigger] holds_offset(segs0[k], h.e_phoff)
                        && plan_segments(s, h, n - 1)->Ok_0.1 == segs0[k].vaddr + (h.e_phoff - segs0[k].file_offset);
                    assert(holds_offset(segs[k], h.e_phoff));
                }
            }
            if forall|k: int| 0 <= k < segs.len() ==> !#[trigger] holds_offset(segs[k], h.e_phoff) {
                assert(!holds_offset(segs[segs0.len() as int], h.e_phoff));
                assert forall|k: int| 0 <= k < segs0.len() implies !#[trigger] holds_offset(segs0[k], h.e_phoff) by {
                    assert(!holds_offset(segs[k], h.e_phoff));
                }
            }
        }
    }
}

} // verus!

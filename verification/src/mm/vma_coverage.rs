//! What the region-list operations do to each address: which protection and
//! flags cover it afterwards.

use vstd::prelude::*;
use crate::mm::vma::{
    InsertPass, Vma, covers, covers_range, cut_out, in_vma, insert_pass, insert_pass_result, insert_step, merge_adjacent, same_attrs, spec_insert_vma,
    spec_remove_range, spec_segments, vmas_wf,
};

verus! {

/// Some region of `s` covers address `a` with protection `p` and flags `f`.
pub open spec fn covered_with(s: Seq<Vma>, a: int, p: u32, f: u32) -> bool {
    exists|i: int| 0 <= i < s.len() && #[trigger] in_vma(s[i], a) && s[i].prot == p && s[i].flags == f
}

/// Region `v` meets `[lo, hi)`.
pub open spec fn overlaps(v: Vma, lo: int, hi: int) -> bool {
    v.start < hi && v.end > lo
}

/// Every region of `s` is non-empty.
pub open spec fn all_nonempty(s: Seq<Vma>) -> bool {
    forall|i: int| 0 <= i < s.len() ==> (#[trigger] s[i]).start < s[i].end
}

pub proof fn lemma_cov_push(s: Seq<Vma>, v: Vma)
    ensures
        forall|a: int, p: u32, f: u32| #[trigger] covered_with(s.push(v), a, p, f)
            <==> (covered_with(s, a, p, f) || (in_vma(v, a) && v.prot == p && v.flags == f)),
{
    assert forall|a: int, p: u32, f: u32| #[trigger] covered_with(s.push(v), a, p, f)
        <==> (covered_with(s, a, p, f) || (in_vma(v, a) && v.prot == p && v.flags == f)) by {
        let t = s.push(v);
        if covered_with(t, a, p, f) {
            let i = choose|i: int| 0 <= i < t.len() && #[trigger] in_vma(t[i], a) && t[i].prot == p && t[i].flags == f;
            if i < s.len() {
                assert(t[i] == s[i]);
            }
        }
        if covered_with(s, a, p, f) {
            let i = choose|i: int| 0 <= i < s.len() && #[trigger] in_vma(s[i], a) && s[i].prot == p && s[i].flags == f;
            assert(t[i] == s[i]);
        }
        if in_vma(v, a) && v.prot == p && v.flags == f {
            assert(t[s.len() as int] == v);
        }
    }
}

pub proof fn lemma_cov_empty()
    ensures
        forall|a: int, p: u32, f: u32| !#[trigger] covered_with(Seq::<Vma>::empty(), a, p, f),
{
}

/// What holds after the insertion pass has seen the regions `pre`: the
/// current range contains `[start, end)` and reaches beyond it only over
/// regions of the new attributes; before the new region is emitted, the
/// output holds exactly what `pre` covers below the current range; after,
/// it holds the current range with the new attributes and what `pre`
/// covers elsewhere.
pub open spec fn pass_inv(st: InsertPass, pre: Seq<Vma>, start: usize, end: usize, prot: u32, flags: u32) -> bool {
    &&& st.cur_start <= start && start < end && end <= st.cur_end
    &&& all_nonempty(st.out)
    &&& (st.cur_start < start ==> exists|j: int| 0 <= j < pre.len() && (#[trigger] pre[j]).start == st.cur_start && pre[j].end > start)
    &&& (st.cur_end > end ==> exists|j: int| 0 <= j < pre.len() && (#[trigger] pre[j]).end == st.cur_end && pre[j].start < end)
    &&& forall|a: int, p: u32, f: u32| st.cur_start <= a < st.cur_end && !(start <= a < end)
        ==> (#[trigger] covered_with(pre, a, p, f) <==> p == prot && f == flags)
    &&& if !st.inserted {
        &&& forall|a: int, p: u32, f: u32| #![trigger covered_with(st.out, a, p, f)] #![trigger covered_with(pre, a, p, f)]
            a < st.cur_start ==> (covered_with(st.out, a, p, f) <==> covered_with(pre, a, p, f))
        &&& forall|a: int, p: u32, f: u32| a >= st.cur_start ==> !#[trigger] covered_with(st.out, a, p, f)
        &&& forall|a: int, p: u32, f: u32| st.cur_start <= a < st.cur_end && #[trigger] covered_with(pre, a, p, f)
            ==> p == prot && f == flags
        &&& forall|a: int, p: u32, f: u32| a >= st.cur_end ==> !#[trigger] covered_with(pre, a, p, f)
    } else {
        &&& forall|a: int, p: u32, f: u32| #![trigger covered_with(st.out, a, p, f)] #![trigger covered_with(pre, a, p, f)]
            covered_with(st.out, a, p, f) <==> (if st.cur_start <= a < st.cur_end { p == prot && f == flags } else { covered_with(pre, a, p, f) })
        &&& exists|j: int| 0 <= j < pre.len() && (#[trigger] pre[j]).end > st.cur_start
        &&& (exists|i: int| 0 <= i < pre.len() && overlaps(#[trigger] pre[i], start as int, end as int) && !same_attrs(pre[i], prot, flags))
            || (exists|j: int| 0 <= j < pre.len() && (#[trigger] pre[j]).start >= st.cur_end)
    }
}

/// A region after all of `pre` (in a sorted list) lies above each of them.
proof fn lemma_last_above(pre: Seq<Vma>, v: Vma)
    requires
        vmas_wf(pre.push(v)),
    ensures
        v.start < v.end,
        forall|j: int| 0 <= j < pre.len() ==> (#[trigger] pre[j]).end <= v.start && pre[j].start < pre[j].end,
        forall|a: int, p: u32, f: u32| a >= v.start ==> !#[trigger] covered_with(pre, a, p, f),
        vmas_wf(pre),
{
    let t = pre.push(v);
    assert(t[pre.len() as int] == v);
    assert forall|j: int| 0 <= j < pre.len() implies (#[trigger] pre[j]).end <= v.start && pre[j].start < pre[j].end by {
        assert(t[j] == pre[j]);
    }
    assert forall|a: int, p: u32, f: u32| a >= v.start implies !#[trigger] covered_with(pre, a, p, f) by {
        if covered_with(pre, a, p, f) {
            let i = choose|i: int| 0 <= i < pre.len() && #[trigger] in_vma(pre[i], a) && pre[i].prot == p && pre[i].flags == f;
            assert(pre[i].end <= v.start);
        }
    }
    assert forall|i: int, j: int| 0 <= i < j < pre.len() implies (#[trigger] pre[i]).end <= (#[trigger] pre[j]).start by {
        assert(t[i] == pre[i] && t[j] == pre[j]);
    }
}

proof fn lemma_open_before(st: InsertPass, pre: Seq<Vma>, v: Vma, start: usize, end: usize, prot: u32, flags: u32)
    requires
        pass_inv(st, pre, start, end, prot, flags),
        !st.inserted,
        vmas_wf(pre.push(v)),
        v.end <= st.cur_start,
    ensures
        pass_inv(insert_step(st, v, prot, flags), pre.push(v), start, end, prot, flags),
{
    lemma_last_above(pre, v);
    lemma_cov_push(st.out, v);
    lemma_cov_push(pre, v);
    let t = pre.push(v);
    let n = insert_step(st, v, prot, flags);
    assert(n.out == st.out.push(v));
    assert forall|i: int| 0 <= i < n.out.len() implies (#[trigger] n.out[i]).start < n.out[i].end by {
        if i < st.out.len() {
            assert(n.out[i] == st.out[i]);
        }
    }
    if st.cur_start < start {
        let j = choose|j: int| 0 <= j < pre.len() && (#[trigger] pre[j]).start == st.cur_start && pre[j].end > start;
        assert(t[j] == pre[j]);
    }
    if st.cur_end > end {
        let j = choose|j: int| 0 <= j < pre.len() && (#[trigger] pre[j]).end == st.cur_end && pre[j].start < end;
        assert(t[j] == pre[j]);
    }
}

proof fn lemma_open_after(st: InsertPass, pre: Seq<Vma>, v: Vma, start: usize, end: usize, prot: u32, flags: u32)
    requires
        pass_inv(st, pre, start, end, prot, flags),
        !st.inserted,
        vmas_wf(pre.push(v)),
        st.cur_start < v.end,
        v.start >= st.cur_end,
    ensures
        pass_inv(insert_step(st, v, prot, flags), pre.push(v), start, end, prot, flags),
{
    lemma_last_above(pre, v);
    let nr = Vma { start: st.cur_start, end: st.cur_end, prot, flags };
    lemma_cov_push(st.out, nr);
    lemma_cov_push(st.out.push(nr), v);
    lemma_cov_push(pre, v);
    let t = pre.push(v);
    let n = insert_step(st, v, prot, flags);
    assert(n.out == st.out.push(nr).push(v));
    assert forall|i: int| 0 <= i < n.out.len() implies (#[trigger] n.out[i]).start < n.out[i].end by {
        if i < st.out.len() {
            assert(n.out[i] == st.out[i]);
        }
    }
    assert(t[pre.len() as int] == v);
    if st.cur_start < start {
        let j = choose|j: int| 0 <= j < pre.len() && (#[trigger] pre[j]).start == st.cur_start && pre[j].end > start;
        assert(t[j] == pre[j]);
    }
    if st.cur_end > end {
        let j = choose|j: int| 0 <= j < pre.len() && (#[trigger] pre[j]).end == st.cur_end && pre[j].start < end;
        assert(t[j] == pre[j]);
    }
}

proof fn lemma_open_absorb(st: InsertPass, pre: Seq<Vma>, v: Vma, start: usize, end: usize, prot: u32, flags: u32)
    requires
        pass_inv(st, pre, start, end, prot, flags),
        !st.inserted,
        vmas_wf(pre.push(v)),
        st.cur_start < v.end,
        v.start < st.cur_end,
        same_attrs(v, prot, flags),
    ensures
        pass_inv(insert_step(st, v, prot, flags), pre.push(v), start, end, prot, flags),
{
    lemma_last_above(pre, v);
    lemma_cov_push(pre, v);
    let t = pre.push(v);
    let n = insert_step(st, v, prot, flags);
    assert(t[pre.len() as int] == v);
    assert(n.out == st.out);
    if st.cur_start < start {
        let j = choose|j: int| 0 <= j < pre.len() && (#[trigger] pre[j]).start == st.cur_start && pre[j].end > start;
        assert(t[j] == pre[j]);
        assert(pre[j].end <= v.start);
    }
    if st.cur_end > end {
        let j = choose|j: int| 0 <= j < pre.len() && (#[trigger] pre[j]).end == st.cur_end && pre[j].start < end;
        assert(t[j] == pre[j]);
        assert(pre[j].end <= v.start);
    }
    assert forall|a: int, p: u32, f: u32| n.cur_start <= a < n.cur_end && !(start <= a < end)
        implies (#[trigger] covered_with(t, a, p, f) <==> p == prot && f == flags) by {
        if st.cur_start <= a < st.cur_end {
        } else if a < st.cur_start {
            assert(in_vma(v, a));
        } else {
            assert(in_vma(v, a));
        }
    }
    assert forall|a: int, p: u32, f: u32| a >= n.cur_start implies !#[trigger] covered_with(n.out, a, p, f) by {
        if a < st.cur_start {
            assert(covered_with(st.out, a, p, f) <==> covered_with(pre, a, p, f));
        }
    }
}

proof fn lemma_open_split(st: InsertPass, pre: Seq<Vma>, v: Vma, start: usize, end: usize, prot: u32, flags: u32)
    requires
        pass_inv(st, pre, start, end, prot, flags),
        !st.inserted,
        vmas_wf(pre.push(v)),
        st.cur_start < v.end,
        v.start < st.cur_end,
        !same_attrs(v, prot, flags),
    ensures
        pass_inv(insert_step(st, v, prot, flags), pre.push(v), start, end, prot, flags),
{
    lemma_last_above(pre, v);
    lemma_cov_push(pre, v);
    let t = pre.push(v);
    let n = insert_step(st, v, prot, flags);
    assert(t[pre.len() as int] == v);
    let nr = Vma { start: st.cur_start, end: st.cur_end, prot, flags };
    let lv = Vma { start: v.start, end: st.cur_start, prot: v.prot, flags: v.flags };
    let rv = Vma { start: st.cur_end, end: v.end, prot: v.prot, flags: v.flags };
    let o1 = if v.start < st.cur_start { st.out.push(lv) } else { st.out };
    let o2 = o1.push(nr);
    lemma_cov_push(st.out, lv);
    lemma_cov_push(o1, nr);
    lemma_cov_push(o2, rv);
    assert(n.out == if v.end > st.cur_end { o2.push(rv) } else { o2 });
    assert forall|i: int| 0 <= i < n.out.len() implies (#[trigger] n.out[i]).start < n.out[i].end by {
        if i < st.out.len() {
            assert(n.out[i] == st.out[i]);
        }
    }
    if st.cur_start < start {
        let j = choose|j: int| 0 <= j < pre.len() && (#[trigger] pre[j]).start == st.cur_start && pre[j].end > start;
        assert(t[j] == pre[j]);
        assert(pre[j].end <= v.start);
    }
    if st.cur_end > end {
        let j = choose|j: int| 0 <= j < pre.len() && (#[trigger] pre[j]).end == st.cur_end && pre[j].start < end;
        assert(t[j] == pre[j]);
        assert(pre[j].end <= v.start);
    }
    assert(overlaps(t[pre.len() as int], start as int, end as int));
    assert forall|a: int, p: u32, f: u32| #![trigger covered_with(n.out, a, p, f)] #![trigger covered_with(t, a, p, f)]
        covered_with(n.out, a, p, f) <==> (if n.cur_start <= a < n.cur_end { p == prot && f == flags } else { covered_with(t, a, p, f) }) by {
        if a < st.cur_start {
            assert(covered_with(st.out, a, p, f) <==> covered_with(pre, a, p, f));
        } else if a >= st.cur_end {
            assert(!covered_with(st.out, a, p, f));
            assert(!covered_with(pre, a, p, f));
        } else {
            assert(!covered_with(st.out, a, p, f));
        }
    }
}

/// Once the new region is emitted, every later region starts above the
/// current range's start, and none reaches into the range's widening.
proof fn lemma_closed_facts(st: InsertPass, pre: Seq<Vma>, v: Vma, start: usize, end: usize, prot: u32, flags: u32)
    requires
        pass_inv(st, pre, start, end, prot, flags),
        st.inserted,
        vmas_wf(pre.push(v)),
    ensures
        v.start > st.cur_start,
        v.start > start || st.cur_start == start,
        v.start >= st.cur_end || st.cur_end == end,
{
    lemma_last_above(pre, v);
    let j = choose|j: int| 0 <= j < pre.len() && (#[trigger] pre[j]).end > st.cur_start;
    assert(pre[j].end <= v.start);
    if st.cur_start < start {
        let j = choose|j: int| 0 <= j < pre.len() && (#[trigger] pre[j]).start == st.cur_start && pre[j].end > start;
        assert(pre[j].end <= v.start);
    }
    if st.cur_end > end {
        let j = choose|j: int| 0 <= j < pre.len() && (#[trigger] pre[j]).end == st.cur_end && pre[j].start < end;
        assert(pre[j].end <= v.start);
    }
}

/// Carries the witnesses of `pass_inv` over to `pre.push(v)`.
proof fn lemma_witnesses_carry(st: InsertPass, pre: Seq<Vma>, v: Vma, start: usize, end: usize, prot: u32, flags: u32)
    requires
        pass_inv(st, pre, start, end, prot, flags),
        st.inserted,
    ensures
        st.cur_start < start ==> exists|j: int| 0 <= j < pre.push(v).len() && (#[trigger] pre.push(v)[j]).start == st.cur_start
            && pre.push(v)[j].end > start,
        st.cur_end > end ==> exists|j: int| 0 <= j < pre.push(v).len() && (#[trigger] pre.push(v)[j]).end == st.cur_end
            && pre.push(v)[j].start < end,
        exists|j: int| 0 <= j < pre.push(v).len() && (#[trigger] pre.push(v)[j]).end > st.cur_start,
        (exists|i: int| 0 <= i < pre.push(v).len() && overlaps(#[trigger] pre.push(v)[i], start as int, end as int)
            && !same_attrs(pre.push(v)[i], prot, flags))
            || (exists|j: int| 0 <= j < pre.push(v).len() && (#[trigger] pre.push(v)[j]).start >= st.cur_end),
{
    let t = pre.push(v);
    if st.cur_start < start {
        let j = choose|j: int| 0 <= j < pre.len() && (#[trigger] pre[j]).start == st.cur_start && pre[j].end > start;
        assert(t[j] == pre[j]);
    }
    if st.cur_end > end {
        let j = choose|j: int| 0 <= j < pre.len() && (#[trigger] pre[j]).end == st.cur_end && pre[j].start < end;
        assert(t[j] == pre[j]);
    }
    let j = choose|j: int| 0 <= j < pre.len() && (#[trigger] pre[j]).end > st.cur_start;
    assert(t[j] == pre[j]);
    if exists|i: int| 0 <= i < pre.len() && overlaps(#[trigger] pre[i], start as int, end as int) && !same_attrs(pre[i], prot, flags) {
        let i = choose|i: int| 0 <= i < pre.len() && overlaps(#[trigger] pre[i], start as int, end as int) && !same_attrs(pre[i], prot, flags);
        assert(t[i] == pre[i]);
    } else {
        let j = choose|j: int| 0 <= j < pre.len() && (#[trigger] pre[j]).start >= st.cur_end;
        assert(t[j] == pre[j]);
    }
}

proof fn lemma_closed_step(st: InsertPass, pre: Seq<Vma>, v: Vma, start: usize, end: usize, prot: u32, flags: u32)
    requires
        pass_inv(st, pre, start, end, prot, flags),
        st.inserted,
        vmas_wf(pre.push(v)),
    ensures
        pass_inv(insert_step(st, v, prot, flags), pre.push(v), start, end, prot, flags),
{
    lemma_last_above(pre, v);
    lemma_closed_facts(st, pre, v, start, end, prot, flags);
    lemma_witnesses_carry(st, pre, v, start, end, prot, flags);
    lemma_cov_push(pre, v);
    let t = pre.push(v);
    let n = insert_step(st, v, prot, flags);
    assert(t[pre.len() as int] == v);
    if v.start >= st.cur_end {
        lemma_cov_push(st.out, v);
        assert(n.out == st.out.push(v));
        assert forall|i: int| 0 <= i < n.out.len() implies (#[trigger] n.out[i]).start < n.out[i].end by {
            if i < st.out.len() {
                assert(n.out[i] == st.out[i]);
            }
        }
    } else {
        let rv = Vma { start: st.cur_end, end: v.end, prot: v.prot, flags: v.flags };
        lemma_cov_push(st.out, rv);
        assert(n.out == if v.end > st.cur_end { st.out.push(rv) } else { st.out });
        assert forall|i: int| 0 <= i < n.out.len() implies (#[trigger] n.out[i]).start < n.out[i].end by {
            if i < st.out.len() {
                assert(n.out[i] == st.out[i]);
            }
        }
    }
}

proof fn lemma_pass_step(st: InsertPass, pre: Seq<Vma>, v: Vma, start: usize, end: usize, prot: u32, flags: u32)
    requires
        pass_inv(st, pre, start, end, prot, flags),
        vmas_wf(pre.push(v)),
    ensures
        pass_inv(insert_step(st, v, prot, flags), pre.push(v), start, end, prot, flags),
{
    if st.inserted {
        lemma_closed_step(st, pre, v, start, end, prot, flags);
    } else if v.end <= st.cur_start {
        lemma_open_before(st, pre, v, start, end, prot, flags);
    } else if v.start >= st.cur_end {
        lemma_open_after(st, pre, v, start, end, prot, flags);
    } else if same_attrs(v, prot, flags) {
        lemma_open_absorb(st, pre, v, start, end, prot, flags);
    } else {
        lemma_open_split(st, pre, v, start, end, prot, flags);
    }
}

proof fn lemma_pass_inv(s: Seq<Vma>, start: usize, end: usize, prot: u32, flags: u32)
    requires
        vmas_wf(s),
        start < end,
    ensures
        pass_inv(insert_pass(s, start, end, prot, flags), s, start, end, prot, flags),
    decreases s.len(),
{
    if s.len() == 0 {
        lemma_cov_empty();
    } else {
        let pre = s.drop_last();
        let v = s.last();
        assert(pre.push(v) =~= s);
        lemma_last_above(pre, v);
        lemma_pass_inv(pre, start, end, prot, flags);
        lemma_pass_step(insert_pass(pre, start, end, prot, flags), pre, v, start, end, prot, flags);
    }
}

/// The regions the insertion pass emits cover `[start, end)` with the new
/// attributes and every other address as `s` did.
proof fn lemma_pass_result(s: Seq<Vma>, start: usize, end: usize, prot: u32, flags: u32)
    requires
        vmas_wf(s),
        start < end,
    ensures
        all_nonempty(insert_pass_result(s, start, end, prot, flags)),
        forall|a: int, p: u32, f: u32| #[trigger] covered_with(insert_pass_result(s, start, end, prot, flags), a, p, f)
            <==> (if start <= a < end { p == prot && f == flags } else { covered_with(s, a, p, f) }),
{
    lemma_pass_inv(s, start, end, prot, flags);
    let st = insert_pass(s, start, end, prot, flags);
    let r = insert_pass_result(s, start, end, prot, flags);
    if st.inserted {
        assert(r == st.out);
    } else {
        let nr = Vma { start: st.cur_start, end: st.cur_end, prot, flags };
        assert(r == st.out.push(nr));
        lemma_cov_push(st.out, nr);
        assert forall|i: int| 0 <= i < r.len() implies (#[trigger] r[i]).start < r[i].end by {
            if i < st.out.len() {
                assert(r[i] == st.out[i]);
            }
        }
    }
    assert forall|a: int, p: u32, f: u32| #[trigger] covered_with(r, a, p, f)
        <==> (if start <= a < end { p == prot && f == flags } else { covered_with(s, a, p, f) }) by {
        if st.inserted {
            assert(covered_with(st.out, a, p, f) <==> (if st.cur_start <= a < st.cur_end { p == prot && f == flags } else { covered_with(s, a, p, f) }));
        } else if a < st.cur_start {
            assert(covered_with(st.out, a, p, f) <==> covered_with(s, a, p, f));
        } else {
            assert(!covered_with(st.out, a, p, f));
        }
    }
}

/// Fusing touching regions of equal attributes changes what covers no
/// address.
proof fn lemma_merge_keeps(t: Seq<Vma>)
    requires
        all_nonempty(t),
    ensures
        all_nonempty(merge_adjacent(t)),
        forall|a: int, p: u32, f: u32| #[trigger] covered_with(merge_adjacent(t), a, p, f) <==> covered_with(t, a, p, f),
    decreases t.len(),
{
    if t.len() > 0 {
        let pre = t.drop_last();
        let v = t.last();
        assert(pre.push(v) =~= t);
        assert forall|i: int| 0 <= i < pre.len() implies (#[trigger] pre[i]).start < pre[i].end by {
            assert(t[i] == pre[i]);
        }
        assert(v == t[t.len() - 1]);
        lemma_merge_keeps(pre);
        lemma_cov_push(pre, v);
        let m = merge_adjacent(pre);
        if m.len() > 0 && m.last().end == v.start && same_attrs(m.last(), v.prot, v.flags) {
            let k = m.len() - 1;
            let w = Vma { end: v.end, ..m.last() };
            let r = m.update(k, w);
            assert(merge_adjacent(t) == r);
            assert(m[k] == m.last());
            assert forall|a: int, p: u32, f: u32| #[trigger] covered_with(r, a, p, f)
                <==> (covered_with(m, a, p, f) || (in_vma(v, a) && v.prot == p && v.flags == f)) by {
                if covered_with(r, a, p, f) {
                    let i = choose|i: int| 0 <= i < r.len() && #[trigger] in_vma(r[i], a) && r[i].prot == p && r[i].flags == f;
                    if i == k {
                        if a < m.last().end {
                            assert(in_vma(m[k], a));
                        }
                    } else {
                        assert(r[i] == m[i]);
                    }
                }
                if covered_with(m, a, p, f) {
                    let i = choose|i: int| 0 <= i < m.len() && #[trigger] in_vma(m[i], a) && m[i].prot == p && m[i].flags == f;
                    if i == k {
                        assert(in_vma(r[k], a));
                    } else {
                        assert(r[i] == m[i]);
                    }
                }
                if in_vma(v, a) && v.prot == p && v.flags == f {
                    assert(in_vma(r[k], a));
                }
            }
            assert forall|i: int| 0 <= i < r.len() implies (#[trigger] r[i]).start < r[i].end by {
                if i != k {
                    assert(r[i] == m[i]);
                }
            }
        } else {
            lemma_cov_push(m, v);
            assert(merge_adjacent(t) == m.push(v));
            assert forall|i: int| 0 <= i < m.push(v).len() implies (#[trigger] m.push(v)[i]).start < m.push(v)[i].end by {
                if i < m.len() {
                    assert(m.push(v)[i] == m[i]);
                }
            }
        }
    }
}

/// What `insert_vma(start, end, prot, flags)` does to each address: the
/// addresses of `[start, end)` are covered with `prot`/`flags`, every other
/// address keeps what covered it, and no two touching regions carry equal
/// attributes.
pub proof fn lemma_insert_vma_coverage(s: Seq<Vma>, start: usize, end: usize, prot: u32, flags: u32)
    requires
        vmas_wf(s),
    ensures
        start < end ==> no_touching_twins(spec_insert_vma(s, start, end, prot, flags)),
        forall|a: int, p: u32, f: u32| #[trigger] covered_with(spec_insert_vma(s, start, end, prot, flags), a, p, f)
            <==> (if start <= a < end { p == prot && f == flags } else { covered_with(s, a, p, f) }),
{
    if start < end {
        lemma_pass_result(s, start, end, prot, flags);
        lemma_merge_keeps(insert_pass_result(s, start, end, prot, flags));
        lemma_merge_no_twins(insert_pass_result(s, start, end, prot, flags));
    }
}

pub proof fn lemma_cov_concat(x: Seq<Vma>, y: Seq<Vma>)
    ensures
        forall|a: int, p: u32, f: u32| #[trigger] covered_with(x + y, a, p, f)
            <==> (covered_with(x, a, p, f) || covered_with(y, a, p, f)),
{
    assert forall|a: int, p: u32, f: u32| #[trigger] covered_with(x + y, a, p, f)
        <==> (covered_with(x, a, p, f) || covered_with(y, a, p, f)) by {
        let t = x + y;
        if covered_with(t, a, p, f) {
            let i = choose|i: int| 0 <= i < t.len() && #[trigger] in_vma(t[i], a) && t[i].prot == p && t[i].flags == f;
            if i < x.len() {
                assert(t[i] == x[i]);
            } else {
                assert(t[i] == y[i - x.len()]);
            }
        }
        if covered_with(x, a, p, f) {
            let i = choose|i: int| 0 <= i < x.len() && #[trigger] in_vma(x[i], a) && x[i].prot == p && x[i].flags == f;
            assert(t[i] == x[i]);
        }
        if covered_with(y, a, p, f) {
            let i = choose|i: int| 0 <= i < y.len() && #[trigger] in_vma(y[i], a) && y[i].prot == p && y[i].flags == f;
            assert(t[i + x.len()] == y[i]);
        }
    }
}

/// What `remove_vma_range(start, end)` does to each address: the addresses
/// of `[start, end)` are no longer covered, every other address keeps what
/// covered it.
pub proof fn lemma_remove_range_coverage(s: Seq<Vma>, start: usize, end: usize)
    ensures
        forall|a: int, p: u32, f: u32| #[trigger] covered_with(spec_remove_range(s, start, end), a, p, f)
            <==> (covered_with(s, a, p, f) && !(start <= a < end)),
    decreases s.len(),
{
    if s.len() == 0 {
        lemma_cov_empty();
    } else {
        let pre = s.drop_last();
        let v = s.last();
        assert(pre.push(v) =~= s);
        lemma_remove_range_coverage(pre, start, end);
        lemma_cov_push(pre, v);
        let c = cut_out(v, start, end);
        lemma_cov_concat(spec_remove_range(pre, start, end), c);
        assert forall|a: int, p: u32, f: u32| #[trigger] covered_with(c, a, p, f)
            <==> (in_vma(v, a) && v.prot == p && v.flags == f && !(start <= a < end)) by {
            if v.end <= start || v.start >= end {
                assert(c == seq![v]);
                lemma_cov_push(Seq::<Vma>::empty(), v);
                lemma_cov_empty();
                assert(seq![v] == Seq::<Vma>::empty().push(v));
            } else {
                let left: Seq<Vma> = if v.start < start {
                    seq![Vma { start: v.start, end: start, prot: v.prot, flags: v.flags }]
                } else {
                    Seq::empty()
                };
                let right: Seq<Vma> = if v.end > end {
                    seq![Vma { start: end, end: v.end, prot: v.prot, flags: v.flags }]
                } else {
                    Seq::empty()
                };
                assert(c == left + right);
                lemma_cov_concat(left, right);
                lemma_cov_empty();
                lemma_cov_push(Seq::<Vma>::empty(), Vma { start: v.start, end: start, prot: v.prot, flags: v.flags });
                lemma_cov_push(Seq::<Vma>::empty(), Vma { start: end, end: v.end, prot: v.prot, flags: v.flags });
                assert(seq![Vma { start: v.start, end: start, prot: v.prot, flags: v.flags }]
                    == Seq::<Vma>::empty().push(Vma { start: v.start, end: start, prot: v.prot, flags: v.flags }));
                assert(seq![Vma { start: end, end: v.end, prot: v.prot, flags: v.flags }]
                    == Seq::<Vma>::empty().push(Vma { start: end, end: v.end, prot: v.prot, flags: v.flags }));
            }
        }
    }
}

/// The part of region `v` inside `[start, end)`, with `v`'s flags.
pub open spec fn seg_of(v: Vma, start: usize, end: usize) -> (usize, usize, u32) {
    (if v.start > start { v.start } else { start }, if v.end < end { v.end } else { end }, v.flags)
}

/// Segment `g` contains address `a`.
pub open spec fn seg_has(g: (usize, usize, u32), a: int) -> bool {
    g.0 <= a < g.1
}

/// One of the first `k` segments contains `a`.
pub open spec fn done_below(segs: Seq<(usize, usize, u32)>, k: int, a: int) -> bool {
    exists|j: int| 0 <= j < k && #[trigger] seg_has(segs[j], a)
}

/// What covers `a` once `mprotect_range(start, end, new_prot)` went through
/// on `s`: inside the range, the new protection with the flags that covered
/// it; elsewhere, what covered it.
pub open spec fn reprotected(s: Seq<Vma>, start: usize, end: usize, new_prot: u32, a: int, p: u32, f: u32) -> bool {
    if start <= a < end {
        p == new_prot && exists|q: u32| #[trigger] covered_with(s, a, q, f)
    } else {
        covered_with(s, a, p, f)
    }
}

/// Each segment is the non-empty overlap of a region with the range.
pub proof fn lemma_segments_origin(s: Seq<Vma>, start: usize, end: usize)
    ensures
        forall|j: int| 0 <= j < spec_segments(s, start, end).len() ==> {
            &&& exists|i: int| 0 <= i < s.len() && seg_of(#[trigger] s[i], start, end) == spec_segments(s, start, end)[j]
            &&& (#[trigger] spec_segments(s, start, end)[j]).0 < spec_segments(s, start, end)[j].1
            &&& start <= spec_segments(s, start, end)[j].0 && spec_segments(s, start, end)[j].1 <= end
        },
    decreases s.len(),
{
    if s.len() > 0 {
        let pre = s.drop_last();
        let v = s.last();
        lemma_segments_origin(pre, start, end);
        let sp = spec_segments(pre, start, end);
        let sg = spec_segments(s, start, end);
        let g = seg_of(v, start, end);
        if g.0 < g.1 {
            assert(sg == sp.push(g));
        } else {
            assert(sg == sp);
        }
        assert forall|j: int| 0 <= j < sg.len() implies {
            &&& exists|i: int| 0 <= i < s.len() && seg_of(#[trigger] s[i], start, end) == sg[j]
            &&& (#[trigger] sg[j]).0 < sg[j].1
            &&& start <= sg[j].0 && sg[j].1 <= end
        } by {
            if j < sp.len() {
                assert(sg[j] == sp[j]);
                let i = choose|i: int| 0 <= i < pre.len() && seg_of(#[trigger] pre[i], start, end) == sp[j];
                assert(s[i] == pre[i]);
            } else {
                assert(seg_of(s[s.len() - 1], start, end) == sg[j]);
            }
        }
    }
}

/// The segments of a sorted list are in order and disjoint, and end by the
/// end of its last region.
pub proof fn lemma_segments_sorted(s: Seq<Vma>, start: usize, end: usize)
    requires
        vmas_wf(s),
    ensures
        forall|j1: int, j2: int| 0 <= j1 < j2 < spec_segments(s, start, end).len()
            ==> (#[trigger] spec_segments(s, start, end)[j1]).1 <= (#[trigger] spec_segments(s, start, end)[j2]).0,
        s.len() > 0 ==> forall|j: int| 0 <= j < spec_segments(s, start, end).len()
            ==> (#[trigger] spec_segments(s, start, end)[j]).1 <= s.last().end,
    decreases s.len(),
{
    if s.len() > 0 {
        let pre = s.drop_last();
        let v = s.last();
        assert(pre.push(v) =~= s);
        lemma_last_above(pre, v);
        lemma_segments_sorted(pre, start, end);
        let sp = spec_segments(pre, start, end);
        let sg = spec_segments(s, start, end);
        let g = seg_of(v, start, end);
        if pre.len() > 0 {
            assert(pre.last() == pre[pre.len() - 1]);
        }
        if g.0 < g.1 {
            assert(sg == sp.push(g));
        } else {
            assert(sg == sp);
        }
        assert forall|j1: int, j2: int| 0 <= j1 < j2 < sg.len() implies (#[trigger] sg[j1]).1 <= (#[trigger] sg[j2]).0 by {
            assert(sg[j1] == sp[j1]);
            if j2 < sp.len() {
                assert(sg[j2] == sp[j2]);
            }
        }
        assert forall|j: int| 0 <= j < sg.len() implies (#[trigger] sg[j]).1 <= s.last().end by {
            if j < sp.len() {
                assert(sg[j] == sp[j]);
            }
        }
    }
}

/// Every non-empty overlap of a region with the range is a segment.
pub proof fn lemma_segments_complete(s: Seq<Vma>, start: usize, end: usize)
    ensures
        forall|i: int| 0 <= i < s.len() && seg_of(#[trigger] s[i], start, end).0 < seg_of(s[i], start, end).1
            ==> exists|j: int| 0 <= j < spec_segments(s, start, end).len() && spec_segments(s, start, end)[j] == seg_of(s[i], start, end),
    decreases s.len(),
{
    if s.len() > 0 {
        let pre = s.drop_last();
        let v = s.last();
        lemma_segments_complete(pre, start, end);
        let sp = spec_segments(pre, start, end);
        let sg = spec_segments(s, start, end);
        let g = seg_of(v, start, end);
        if g.0 < g.1 {
            assert(sg == sp.push(g));
        } else {
            assert(sg == sp);
        }
        assert forall|i: int| 0 <= i < s.len() && seg_of(#[trigger] s[i], start, end).0 < seg_of(s[i], start, end).1
            implies exists|j: int| 0 <= j < sg.len() && sg[j] == seg_of(s[i], start, end) by {
            if i < pre.len() {
                assert(s[i] == pre[i]);
                let j = choose|j: int| 0 <= j < sp.len() && sp[j] == seg_of(pre[i], start, end);
                assert(sg[j] == sp[j]);
            } else {
                assert(s[i] == v);
                assert(sg[sp.len() as int] == g);
            }
        }
    }
}

/// In a sorted list, the region containing `a` is the only one covering it.
pub proof fn lemma_cov_unique(s: Seq<Vma>, i: int, a: int)
    requires
        vmas_wf(s),
        0 <= i < s.len(),
        in_vma(s[i], a),
    ensures
        forall|p: u32, f: u32| #[trigger] covered_with(s, a, p, f) <==> (p == s[i].prot && f == s[i].flags),
{
    assert forall|p: u32, f: u32| #[trigger] covered_with(s, a, p, f) <==> (p == s[i].prot && f == s[i].flags) by {
        if covered_with(s, a, p, f) {
            let k = choose|k: int| 0 <= k < s.len() && #[trigger] in_vma(s[k], a) && s[k].prot == p && s[k].flags == f;
            if k < i {
                assert(s[k].end <= s[i].start);
            } else if k > i {
                assert(s[i].end <= s[k].start);
            }
        }
    }
}

/// After the first `k` segments have been reprotected: what covers each
/// address of those segments is the new protection with its flags, and
/// every other address is covered as in `s`.
pub open spec fn protect_inv(cur: Seq<Vma>, s: Seq<Vma>, segs: Seq<(usize, usize, u32)>, k: int, new_prot: u32) -> bool {
    forall|a: int, p: u32, f: u32| #[trigger] covered_with(cur, a, p, f) <==> (if done_below(segs, k, a) {
        p == new_prot && exists|q: u32| #[trigger] covered_with(s, a, q, f)
    } else {
        covered_with(s, a, p, f)
    })
}

/// The invariant of the protection pass after one more segment.
pub proof fn lemma_protect_step(cur: Seq<Vma>, nxt: Seq<Vma>, s: Seq<Vma>, start: usize, end: usize, k: int, new_prot: u32)
    requires
        vmas_wf(s),
        0 <= k < spec_segments(s, start, end).len(),
        protect_inv(cur, s, spec_segments(s, start, end), k, new_prot),
        forall|a: int, p: u32, f: u32| #[trigger] covered_with(nxt, a, p, f) <==> (if spec_segments(s, start, end)[k].0 <= a
            < spec_segments(s, start, end)[k].1 {
            p == new_prot && f == spec_segments(s, start, end)[k].2
        } else {
            covered_with(cur, a, p, f)
        }),
    ensures
        protect_inv(nxt, s, spec_segments(s, start, end), k + 1, new_prot),
{
    let segs = spec_segments(s, start, end);
    let g = segs[k];
    lemma_segments_origin(s, start, end);
    let i0 = choose|i: int| 0 <= i < s.len() && seg_of(#[trigger] s[i], start, end) == segs[k];
    assert forall|a: int, p: u32, f: u32| #[trigger] covered_with(nxt, a, p, f) <==> (if done_below(segs, k + 1, a) {
        p == new_prot && exists|q: u32| #[trigger] covered_with(s, a, q, f)
    } else {
        covered_with(s, a, p, f)
    }) by {
        if seg_has(g, a) {
            assert(done_below(segs, k + 1, a));
            assert(in_vma(s[i0], a));
            lemma_cov_unique(s, i0, a);
            assert(covered_with(s, a, s[i0].prot, s[i0].flags));
        } else {
            assert(done_below(segs, k + 1, a) == done_below(segs, k, a)) by {
                if done_below(segs, k + 1, a) {
                    let j = choose|j: int| 0 <= j < k + 1 && #[trigger] seg_has(segs[j], a);
                }
                if done_below(segs, k, a) {
                    let j = choose|j: int| 0 <= j < k && #[trigger] seg_has(segs[j], a);
                }
            }
        }
    }
}

/// Once every segment is reprotected over a fully covered range, each
/// address is covered as `reprotected` says.
pub proof fn lemma_protect_done(cur: Seq<Vma>, s: Seq<Vma>, start: usize, end: usize, new_prot: u32)
    requires
        protect_inv(cur, s, spec_segments(s, start, end), spec_segments(s, start, end).len() as int, new_prot),
        covers_range(s, start as int, end as int),
    ensures
        forall|a: int, p: u32, f: u32| #[trigger] covered_with(cur, a, p, f) <==> reprotected(s, start, end, new_prot, a, p, f),
{
    let segs = spec_segments(s, start, end);
    let m = segs.len() as int;
    lemma_segments_origin(s, start, end);
    lemma_segments_complete(s, start, end);
    assert forall|a: int, p: u32, f: u32| #[trigger] covered_with(cur, a, p, f) <==> reprotected(s, start, end, new_prot, a, p, f) by {
        assert(done_below(segs, m, a) <==> start <= a < end) by {
            if done_below(segs, m, a) {
                let j = choose|j: int| 0 <= j < m && #[trigger] seg_has(segs[j], a);
            }
            if start <= a < end {
                assert(covers(s, a));
                let i = choose|i: int| 0 <= i < s.len() && in_vma(#[trigger] s[i], a);
                assert(seg_of(s[i], start, end).0 < seg_of(s[i], start, end).1);
                let j = choose|j: int| 0 <= j < segs.len() && segs[j] == seg_of(s[i], start, end);
                assert(seg_has(segs[j], a));
            }
        }
    }
}

/// No two neighbouring regions of `s` touch and carry equal attributes.
pub open spec fn no_touching_twins(s: Seq<Vma>) -> bool {
    forall|i: int| 0 <= i < s.len() - 1 ==> !((#[trigger] s[i]).end == s[i + 1].start && same_attrs(s[i], s[i + 1].prot, s[i + 1].flags))
}

/// Fusing leaves no touching neighbours of equal attributes.
proof fn lemma_merge_no_twins(t: Seq<Vma>)
    ensures
        no_touching_twins(merge_adjacent(t)),
        t.len() > 0 ==> merge_adjacent(t).len() > 0,
    decreases t.len(),
{
    if t.len() > 0 {
        let pre = t.drop_last();
        let v = t.last();
        lemma_merge_no_twins(pre);
        let m = merge_adjacent(pre);
        if m.len() > 0 && m.last().end == v.start && same_attrs(m.last(), v.prot, v.flags) {
            let k = m.len() - 1;
            let w = Vma { end: v.end, ..m.last() };
            let r = m.update(k, w);
            assert(merge_adjacent(t) == r);
            assert forall|i: int| 0 <= i < r.len() - 1 implies !((#[trigger] r[i]).end == r[i + 1].start
                && same_attrs(r[i], r[i + 1].prot, r[i + 1].flags)) by {
                assert(r[i] == m[i]);
                assert(m[i].end == m[i + 1].start ==> !same_attrs(m[i], m[i + 1].prot, m[i + 1].flags));
            }
        } else {
            let r = m.push(v);
            assert(merge_adjacent(t) == r);
            assert forall|i: int| 0 <= i < r.len() - 1 implies !((#[trigger] r[i]).end == r[i + 1].start
                && same_attrs(r[i], r[i + 1].prot, r[i + 1].flags)) by {
                assert(r[i] == m[i]);
                if i + 1 < m.len() {
                    assert(r[i + 1] == m[i + 1]);
                } else {
                    assert(m[i] == m.last());
                }
            }
        }
    }
}

} // verus!

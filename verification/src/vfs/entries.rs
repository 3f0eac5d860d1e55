//! Sorted directory entry lists and their name-to-inode map view.

use vstd::prelude::*;
use crate::vfs::name::{lex_lt, compare_names, lemma_lex_lt_transitive, lemma_lex_lt_irreflexive};

verus! {

/// A named link from a directory to an inode.
#[derive(Debug)]
pub struct DirEntry {
    /// Entry name.
    pub name: Vec<u8>,
    /// Inode number the name refers to.
    pub ino: usize,
}

impl Clone for DirEntry {
    fn clone(&self) -> (r: Self)
        ensures
            r.name@ == self.name@,
            r.ino == self.ino,
    {
        DirEntry { name: self.name.clone(), ino: self.ino }
    }
}

/// Names strictly increase along the list.
pub open spec fn sorted_entries(s: Seq<DirEntry>) -> bool {
    forall|i: int, j: int| 0 <= i < j < s.len() ==> lex_lt(#[trigger] s[i].name@, #[trigger] s[j].name@)
}

/// Every entry of `s` refers to an inode below `n`.
pub open spec fn inos_below(s: Seq<DirEntry>, n: int) -> bool {
    forall|j: int| 0 <= j < s.len() ==> (#[trigger] s[j]).ino < n
}

/// Some entry of `s` is named `k`.
pub open spec fn has_name(s: Seq<DirEntry>, k: Seq<u8>) -> bool {
    exists|i: int| 0 <= i < s.len() && (#[trigger] s[i]).name@ == k
}

/// The name-to-inode map described by an entry list.
pub open spec fn entry_map(s: Seq<DirEntry>) -> Map<Seq<u8>, usize> {
    Map::new(
        |k: Seq<u8>| has_name(s, k),
        |k: Seq<u8>| s[choose|i: int| 0 <= i < s.len() && (#[trigger] s[i]).name@ == k].ino,
    )
}

/// In a sorted list each entry is the only one with its name.
pub proof fn lemma_sorted_unique(s: Seq<DirEntry>, i: int, j: int)
    requires
        sorted_entries(s),
        0 <= i < s.len(),
        0 <= j < s.len(),
        s[i].name@ == s[j].name@,
    ensures
        i == j,
{
    if i < j {
        assert(lex_lt(s[i].name@, s[j].name@));
        lemma_lex_lt_irreflexive(s[i].name@);
    } else if j < i {
        assert(lex_lt(s[j].name@, s[i].name@));
        lemma_lex_lt_irreflexive(s[i].name@);
    }
}

/// The map sends each entry's name to that entry's inode.
pub proof fn lemma_entry_map_at(s: Seq<DirEntry>, i: int)
    requires
        sorted_entries(s),
        0 <= i < s.len(),
    ensures
        entry_map(s).contains_key(s[i].name@),
        entry_map(s)[s[i].name@] == s[i].ino,
{
    let k = s[i].name@;
    assert(has_name(s, k));
    let j = choose|j: int| 0 <= j < s.len() && (#[trigger] s[j]).name@ == k;
    lemma_sorted_unique(s, i, j);
}

/// Where `name` is, or would be inserted, in a sorted entry list.
pub fn find_entry(v: &Vec<DirEntry>, name: &Vec<u8>) -> (r: (bool, usize))
    requires
        sorted_entries(v@),
    ensures
        r.1 <= v@.len(),
        r.0 ==> r.1 < v@.len() && v@[r.1 as int].name@ == name@,
        r.0 <==> entry_map(v@).contains_key(name@),
        !r.0 ==> forall|i: int| 0 <= i < r.1 ==> lex_lt(#[trigger] v@[i].name@, name@),
        !r.0 ==> forall|i: int| r.1 <= i < v@.len() ==> lex_lt(name@, #[trigger] v@[i].name@),
{
    let n = v.len();
    let mut i: usize = 0;
    while i < n
        invariant
            n == v@.len(),
            sorted_entries(v@),
            0 <= i <= n,
            forall|j: int| 0 <= j < i ==> lex_lt(#[trigger] v@[j].name@, name@),
        decreases n - i,
    {
        let c = compare_names(&v[i].name, name);
        if c == 0 {
            return (true, i);
        }
        if c > 0 {
            proof {
                assert forall|j: int| i <= j < v@.len() implies lex_lt(name@, #[trigger] v@[j].name@) by {
                    if j > i {
                        lemma_lex_lt_transitive(name@, v@[i as int].name@, v@[j].name@);
                    }
                }
                assert(!has_name(v@, name@)) by {
                    if has_name(v@, name@) {
                        let j = choose|j: int| 0 <= j < v@.len() && (#[trigger] v@[j]).name@ == name@;
                        lemma_lex_lt_irreflexive(name@);
                        if j < i {
                            assert(lex_lt(v@[j].name@, name@));
                        } else {
                            assert(lex_lt(name@, v@[j].name@));
                        }
                    }
                }
            }
            return (false, i);
        }
        i += 1;
    }
    proof {
        assert(!has_name(v@, name@)) by {
            if has_name(v@, name@) {
                let j = choose|j: int| 0 <= j < v@.len() && (#[trigger] v@[j]).name@ == name@;
                lemma_lex_lt_irreflexive(name@);
                assert(lex_lt(v@[j].name@, name@));
            }
        }
    }
    (false, n)
}

/// Inserting a new name at its sorted position keeps the list sorted and
/// adds the name to the map.
pub proof fn lemma_insert_entry(s: Seq<DirEntry>, pos: int, e: DirEntry)
    requires
        sorted_entries(s),
        0 <= pos <= s.len(),
        forall|i: int| 0 <= i < pos ==> lex_lt(#[trigger] s[i].name@, e.name@),
        forall|i: int| pos <= i < s.len() ==> lex_lt(e.name@, #[trigger] s[i].name@),
    ensures
        sorted_entries(s.insert(pos, e)),
        entry_map(s.insert(pos, e)) == entry_map(s).insert(e.name@, e.ino),
{
    let t = s.insert(pos, e);
    assert(sorted_entries(t)) by {
        assert forall|i: int, j: int| 0 <= i < j < t.len() implies lex_lt(#[trigger] t[i].name@, #[trigger] t[j].name@) by {
            if j < pos {
            } else if j == pos {
            } else if i < pos {
                assert(t[j] == s[j - 1]);
                lemma_lex_lt_transitive(s[i].name@, e.name@, s[j - 1].name@);
            } else if i == pos {
                assert(t[j] == s[j - 1]);
            } else {
                assert(t[i] == s[i - 1] && t[j] == s[j - 1]);
            }
        }
    }
    let m1 = entry_map(t);
    let m2 = entry_map(s).insert(e.name@, e.ino);
    assert forall|k: Seq<u8>| m1.contains_key(k) <==> m2.contains_key(k) by {
        if has_name(t, k) {
            let j = choose|j: int| 0 <= j < t.len() && (#[trigger] t[j]).name@ == k;
            if j < pos {
                assert(s[j].name@ == k);
            } else if j > pos {
                assert(s[j - 1].name@ == k);
            }
        }
        if has_name(s, k) {
            let j = choose|j: int| 0 <= j < s.len() && (#[trigger] s[j]).name@ == k;
            if j < pos {
                assert(t[j].name@ == k);
            } else {
                assert(t[j + 1].name@ == k);
            }
        }
        if k == e.name@ {
            assert(t[pos].name@ == k);
        }
    }
    assert forall|k: Seq<u8>| m1.contains_key(k) implies m1[k] == m2[k] by {
        let j = choose|j: int| 0 <= j < t.len() && (#[trigger] t[j]).name@ == k;
        lemma_entry_map_at(t, j);
        if j < pos {
            lemma_entry_map_at(s, j);
        } else if j > pos {
            lemma_entry_map_at(s, j - 1);
        }
    }
    assert(m1 =~= m2);
}

/// Removing the entry at `pos` keeps the list sorted and drops its name from
/// the map.
pub proof fn lemma_remove_entry(s: Seq<DirEntry>, pos: int)
    requires
        sorted_entries(s),
        0 <= pos < s.len(),
    ensures
        sorted_entries(s.remove(pos)),
        entry_map(s.remove(pos)) == entry_map(s).remove(s[pos].name@),
{
    let t = s.remove(pos);
    assert(sorted_entries(t)) by {
        assert forall|i: int, j: int| 0 <= i < j < t.len() implies lex_lt(#[trigger] t[i].name@, #[trigger] t[j].name@) by {
            if j < pos {
            } else if i < pos {
                assert(t[j] == s[j + 1]);
            } else {
                assert(t[i] == s[i + 1] && t[j] == s[j + 1]);
            }
        }
    }
    let name = s[pos].name@;
    let m1 = entry_map(t);
    let m2 = entry_map(s).remove(name);
    assert forall|k: Seq<u8>| m1.contains_key(k) <==> m2.contains_key(k) by {
        if has_name(t, k) {
            let j = choose|j: int| 0 <= j < t.len() && (#[trigger] t[j]).name@ == k;
            let jj = if j < pos { j } else { j + 1 };
            assert(s[jj].name@ == k);
            if k == name {
                lemma_sorted_unique(s, jj, pos);
            }
        }
        if has_name(s, k) && k != name {
            let j = choose|j: int| 0 <= j < s.len() && (#[trigger] s[j]).name@ == k;
            if j < pos {
                assert(t[j].name@ == k);
            } else {
                assert(t[j - 1].name@ == k);
            }
        }
    }
    assert forall|k: Seq<u8>| m1.contains_key(k) implies m1[k] == m2[k] by {
        let j = choose|j: int| 0 <= j < t.len() && (#[trigger] t[j]).name@ == k;
        lemma_entry_map_at(t, j);
        if j < pos {
            lemma_entry_map_at(s, j);
        } else {
            lemma_entry_map_at(s, j + 1);
        }
    }
    assert(m1 =~= m2);
}

/// Re-pointing the entry at `pos` keeps the list sorted and re-maps its name.
pub proof fn lemma_update_entry(s: Seq<DirEntry>, pos: int, e: DirEntry)
    requires
        sorted_entries(s),
        0 <= pos < s.len(),
        e.name@ == s[pos].name@,
    ensures
        sorted_entries(s.update(pos, e)),
        entry_map(s.update(pos, e)) == entry_map(s).insert(e.name@, e.ino),
{
    let t = s.update(pos, e);
    assert(sorted_entries(t)) by {
        assert forall|i: int, j: int| 0 <= i < j < t.len() implies lex_lt(#[trigger] t[i].name@, #[trigger] t[j].name@) by {
            assert(t[i].name@ == s[i].name@ && t[j].name@ == s[j].name@);
        }
    }
    let m1 = entry_map(t);
    let m2 = entry_map(s).insert(e.name@, e.ino);
    assert forall|k: Seq<u8>| m1.contains_key(k) <==> m2.contains_key(k) by {
        if has_name(t, k) {
            let j = choose|j: int| 0 <= j < t.len() && (#[trigger] t[j]).name@ == k;
            assert(s[j].name@ == k);
        }
        if has_name(s, k) {
            let j = choose|j: int| 0 <= j < s.len() && (#[trigger] s[j]).name@ == k;
            assert(t[j].name@ == k);
        }
    }
    assert forall|k: Seq<u8>| m1.contains_key(k) implies m1[k] == m2[k] by {
        let j = choose|j: int| 0 <= j < t.len() && (#[trigger] t[j]).name@ == k;
        lemma_entry_map_at(t, j);
        if j != pos {
            lemma_entry_map_at(s, j);
        }
    }
    assert(m1 =~= m2);
}

/// Maps `name` to `ino` in a sorted entry list; returns whether the name was new.
pub fn entries_insert(v: &mut Vec<DirEntry>, name: &Vec<u8>, ino: usize) -> (was_new: bool)
    requires
        sorted_entries(old(v)@),
    ensures
        sorted_entries(final(v)@),
        entry_map(final(v)@) == entry_map(old(v)@).insert(name@, ino),
        was_new == !entry_map(old(v)@).contains_key(name@),
        forall|n: int| inos_below(old(v)@, n) && ino < n ==> #[trigger] inos_below(final(v)@, n),
{
    let (found, pos) = find_entry(v, name);
    let e = DirEntry { name: name.clone(), ino };
    if found {
        proof {
            lemma_update_entry(v@, pos as int, e);
        }
        let ghost ov = v@;
        v.set(pos, e);
        proof {
            assert forall|n: int| inos_below(ov, n) && ino < n implies #[trigger] inos_below(v@, n) by {
                assert forall|j: int| 0 <= j < v@.len() implies (#[trigger] v@[j]).ino < n by {
                    if j != pos {
                        assert(v@[j] == ov[j]);
                    }
                }
            }
        }
        false
    } else {
        proof {
            lemma_insert_entry(v@, pos as int, e);
        }
        let ghost ov = v@;
        v.insert(pos, e);
        proof {
            assert forall|n: int| inos_below(ov, n) && ino < n implies #[trigger] inos_below(v@, n) by {
                assert forall|j: int| 0 <= j < v@.len() implies (#[trigger] v@[j]).ino < n by {
                    if j < pos {
                        assert(v@[j] == ov[j]);
                    } else if j > pos {
                        assert(v@[j] == ov[j - 1]);
                    }
                }
            }
        }
        true
    }
}

/// Removes `name` from a sorted entry list; returns the inode it named.
pub fn entries_remove(v: &mut Vec<DirEntry>, name: &Vec<u8>) -> (r: Option<usize>)
    requires
        sorted_entries(old(v)@),
    ensures
        sorted_entries(final(v)@),
        entry_map(final(v)@) == entry_map(old(v)@).remove(name@),
        match r {
            Some(ino) => entry_map(old(v)@).contains_key(name@) && entry_map(old(v)@)[name@] == ino,
            None => !entry_map(old(v)@).contains_key(name@),
        },
        forall|n: int| inos_below(old(v)@, n) ==> #[trigger] inos_below(final(v)@, n),
{
    let (found, pos) = find_entry(v, name);
    if found {
        proof {
            lemma_remove_entry(v@, pos as int);
            lemma_entry_map_at(v@, pos as int);
        }
        let ghost ov = v@;
        let e = v.remove(pos);
        proof {
            assert forall|n: int| inos_below(ov, n) implies #[trigger] inos_below(v@, n) by {
                assert forall|j: int| 0 <= j < v@.len() implies (#[trigger] v@[j]).ino < n by {
                    if j < pos {
                        assert(v@[j] == ov[j]);
                    } else {
                        assert(v@[j] == ov[j + 1]);
                    }
                }
            }
        }
        Some(e.ino)
    } else {
        proof {
            assert(entry_map(v@).remove(name@) =~= entry_map(v@));
        }
        None
    }
}

/// The inode `name` maps to in a sorted entry list.
pub fn entries_get(v: &Vec<DirEntry>, name: &Vec<u8>) -> (r: Option<usize>)
    requires
        sorted_entries(v@),
    ensures
        match r {
            Some(ino) => entry_map(v@).contains_key(name@) && entry_map(v@)[name@] == ino,
            None => !entry_map(v@).contains_key(name@),
        },
{
    let (found, pos) = find_entry(v, name);
    if found {
        proof {
            lemma_entry_map_at(v@, pos as int);
        }
        Some(v[pos].ino)
    } else {
        None
    }
}

} // verus!

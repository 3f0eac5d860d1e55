//! Byte-string names and their lexicographic order.

use vstd::prelude::*;

verus! {

/// `a` sorts strictly before `b` in byte-wise lexicographic order: at the
/// first position where they differ `a` holds the smaller byte, or `a` is a
/// proper prefix of `b`.
pub open spec fn lex_lt(a: Seq<u8>, b: Seq<u8>) -> bool {
    exists|k: int|
        #![trigger a.take(k), b.take(k)]
        0 <= k <= a.len() && k <= b.len() && a.take(k) == b.take(k) && ((k == a.len() && k < b.len())
            || (k < a.len() && k < b.len() && a[k] < b[k]))
}

/// Two byte strings share the first `k` bytes.
pub open spec fn same_prefix(a: Seq<u8>, b: Seq<u8>, k: int) -> bool {
    forall|j: int| 0 <= j < k ==> a[j] == b[j]
}

proof fn lemma_take_eq_iff(a: Seq<u8>, b: Seq<u8>, k: int)
    requires
        0 <= k <= a.len(),
        k <= b.len(),
    ensures
        (a.take(k) == b.take(k)) <==> same_prefix(a, b, k),
{
    if same_prefix(a, b, k) {
        assert(a.take(k) =~= b.take(k));
    }
    if a.take(k) == b.take(k) {
        assert forall|j: int| 0 <= j < k implies a[j] == b[j] by {
            assert(a.take(k)[j] == b.take(k)[j]);
        }
    }
}

proof fn lemma_first_difference(a: Seq<u8>, b: Seq<u8>, n: int) -> (k: int)
    requires
        0 <= n <= a.len(),
        n <= b.len(),
        !same_prefix(a, b, n),
    ensures
        0 <= k < n,
        a[k] != b[k],
        same_prefix(a, b, k),
    decreases n,
{
    if same_prefix(a, b, n - 1) {
        n - 1
    } else {
        lemma_first_difference(a, b, n - 1)
    }
}

/// The order is irreflexive.
pub proof fn lemma_lex_lt_irreflexive(a: Seq<u8>)
    ensures
        !lex_lt(a, a),
{
}

/// The order is transitive.
pub proof fn lemma_lex_lt_transitive(a: Seq<u8>, b: Seq<u8>, c: Seq<u8>)
    requires
        lex_lt(a, b),
        lex_lt(b, c),
    ensures
        lex_lt(a, c),
{
    let k1 = choose|k: int|
        #![trigger a.take(k), b.take(k)]
        0 <= k <= a.len() && k <= b.len() && a.take(k) == b.take(k) && ((k == a.len() && k < b.len())
            || (k < a.len() && k < b.len() && a[k] < b[k]));
    let k2 = choose|k: int|
        #![trigger b.take(k), c.take(k)]
        0 <= k <= b.len() && k <= c.len() && b.take(k) == c.take(k) && ((k == b.len() && k < c.len())
            || (k < b.len() && k < c.len() && b[k] < c[k]));
    lemma_take_eq_iff(a, b, k1);
    lemma_take_eq_iff(b, c, k2);
    let k = if k1 < k2 { k1 } else { k2 };
    lemma_take_eq_iff(a, c, k);
    assert(a.take(k) == c.take(k));
}

/// Two different strings are ordered one way or the other.
pub proof fn lemma_lex_lt_total(a: Seq<u8>, b: Seq<u8>)
    requires
        a != b,
    ensures
        lex_lt(a, b) || lex_lt(b, a),
{
    let n = if a.len() < b.len() { a.len() as int } else { b.len() as int };
    if same_prefix(a, b, n) {
        lemma_take_eq_iff(a, b, n);
        lemma_take_eq_iff(b, a, n);
        if a.len() == b.len() {
            assert(a =~= b);
        }
        assert(a.take(n) == b.take(n));
        assert(b.take(n) == a.take(n));
    } else {
        let k = lemma_first_difference(a, b, n);
        lemma_take_eq_iff(a, b, k);
        lemma_take_eq_iff(b, a, k);
        assert(a.take(k) == b.take(k));
        assert(b.take(k) == a.take(k));
    }
}

/// Compares two names: negative, zero or positive as `a` sorts before,
/// equal to, or after `b`.
pub fn compare_names(a: &Vec<u8>, b: &Vec<u8>) -> (r: i32)
    ensures
        r < 0 <==> lex_lt(a@, b@),
        r == 0 <==> a@ == b@,
        r > 0 <==> lex_lt(b@, a@),
{
    let n = if a.len() < b.len() { a.len() } else { b.len() };
    let mut i: usize = 0;
    while i < n
        invariant
            n <= a.len(),
            n <= b.len(),
            n == a.len() || n == b.len(),
            0 <= i <= n,
            same_prefix(a@, b@, i as int),
        decreases n - i,
    {
        if a[i] != b[i] {
            proof {
                lemma_take_eq_iff(a@, b@, i as int);
                lemma_take_eq_iff(b@, a@, i as int);
                assert(a@.take(i as int) == b@.take(i as int));
                assert(b@.take(i as int) == a@.take(i as int));
                if a@[i as int] < b@[i as int] {
                    assert(lex_lt(a@, b@));
                    lemma_lex_lt_transitive_irrefl(a@, b@);
                } else {
                    assert(lex_lt(b@, a@));
                    lemma_lex_lt_transitive_irrefl(b@, a@);
                }
                assert(a@ != b@) by {
                    assert(a@[i as int] != b@[i as int]);
                }
            }
            if a[i] < b[i] {
                return -1;
            } else {
                return 1;
            }
        }
        i += 1;
    }
    proof {
        lemma_take_eq_iff(a@, b@, n as int);
        lemma_take_eq_iff(b@, a@, n as int);
        assert(a@.take(n as int) == b@.take(n as int));
        assert(b@.take(n as int) == a@.take(n as int));
    }
    if a.len() < b.len() {
        proof {
            assert(lex_lt(a@, b@));
            lemma_lex_lt_transitive_irrefl(a@, b@);
        }
        -1
    } else if a.len() > b.len() {
        proof {
            assert(lex_lt(b@, a@));
            lemma_lex_lt_transitive_irrefl(b@, a@);
        }
        1
    } else {
        proof {
            assert(a@ =~= b@);
        }
        0
    }
}

/// The order is asymmetric.
proof fn lemma_lex_lt_transitive_irrefl(a: Seq<u8>, b: Seq<u8>)
    requires
        lex_lt(a, b),
    ensures
        !lex_lt(b, a),
        a != b,
{
    if lex_lt(b, a) {
        lemma_lex_lt_transitive(a, b, a);
    }
}

/// Whether two names are equal.
pub fn names_equal(a: &Vec<u8>, b: &Vec<u8>) -> (r: bool)
    ensures
        r == (a@ == b@),
{
    compare_names(a, b) == 0
}

} // verus!

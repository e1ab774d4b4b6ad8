//! Dictionary order on byte strings, and the order of addresses built on it.

use vstd::prelude::*;

verus! {

/// `a` and `b` hold the same bytes at every position before `k`.
pub open spec fn agree_before(a: Seq<u8>, b: Seq<u8>, k: int) -> bool {
    forall|j: int| 0 <= j < k ==> a[j] == b[j]
}

/// Position `k` decides that `a` comes before `b`: the two agree before `k`,
/// and at `k` either `a` ends while `b` goes on, or `a` holds the smaller byte.
pub open spec fn lex_lt_at(a: Seq<u8>, b: Seq<u8>, k: int) -> bool {
    &&& 0 <= k <= a.len()
    &&& k < b.len()
    &&& agree_before(a, b, k)
    &&& (k < a.len() ==> a[k] < b[k])
}

/// `a` comes strictly before `b` in dictionary order.
pub open spec fn lex_lt(a: Seq<u8>, b: Seq<u8>) -> bool {
    exists|k: int| lex_lt_at(a, b, k)
}

/// The order of addresses by their bytes: the shorter family first, and
/// within one family the dictionary order of the bytes.
pub open spec fn addr_lt(a: Seq<u8>, b: Seq<u8>) -> bool {
    a.len() < b.len() || (a.len() == b.len() && lex_lt(a, b))
}

/// Only one position can decide between two byte strings, in either direction.
pub proof fn lemma_deciding_position_unique(a: Seq<u8>, b: Seq<u8>, k: int, m: int)
    requires
        lex_lt_at(a, b, k) || lex_lt_at(b, a, k),
        lex_lt_at(a, b, m) || lex_lt_at(b, a, m),
    ensures
        k == m,
{
    if k < m {
        assert(a[k] == b[k]);
    } else if m < k {
        assert(a[m] == b[m]);
    }
}

/// No byte string comes before itself.
pub proof fn lemma_lex_lt_irreflexive(a: Seq<u8>)
    ensures
        !lex_lt(a, a),
{
}

/// If `a` comes before `b`, then `b` does not come before `a`.
pub proof fn lemma_lex_lt_asymmetric(a: Seq<u8>, b: Seq<u8>)
    requires
        lex_lt(a, b),
    ensures
        !lex_lt(b, a),
{
    let k = choose|k: int| lex_lt_at(a, b, k);
    if lex_lt(b, a) {
        let m = choose|m: int| lex_lt_at(b, a, m);
        lemma_deciding_position_unique(a, b, k, m);
    }
}

/// If `a` comes before `b` and `b` before `c`, then `a` comes before `c`.
pub proof fn lemma_lex_lt_transitive(a: Seq<u8>, b: Seq<u8>, c: Seq<u8>)
    requires
        lex_lt(a, b),
        lex_lt(b, c),
    ensures
        lex_lt(a, c),
{
    let k = choose|k: int| lex_lt_at(a, b, k);
    let m = choose|m: int| lex_lt_at(b, c, m);
    let n = if k <= m { k } else { m };
    assert forall|j: int| 0 <= j < n implies a[j] == c[j] by {
        assert(a[j] == b[j]);
        assert(b[j] == c[j]);
    }
    if k < m {
        assert(b[k] == c[k]);
    }
    assert(lex_lt_at(a, c, n));
}

/// Two byte strings that agree before `k` and are not equal differ at some
/// position from `k` on, and that position decides between them.
proof fn lemma_first_difference(a: Seq<u8>, b: Seq<u8>, k: int) -> (r: int)
    requires
        0 <= k <= a.len(),
        k <= b.len(),
        agree_before(a, b, k),
        a != b,
    ensures
        lex_lt_at(a, b, r) || lex_lt_at(b, a, r),
    decreases a.len() - k,
{
    if k == a.len() {
        if k == b.len() {
            assert(a =~= b);
        }
        k
    } else if k == b.len() {
        k
    } else if a[k] != b[k] {
        k
    } else {
        lemma_first_difference(a, b, k + 1)
    }
}

/// Of two different byte strings one comes before the other.
pub proof fn lemma_lex_lt_total(a: Seq<u8>, b: Seq<u8>)
    requires
        a != b,
    ensures
        lex_lt(a, b) || lex_lt(b, a),
{
    let r = lemma_first_difference(a, b, 0);
}

/// No address comes before itself.
pub proof fn lemma_addr_lt_irreflexive(a: Seq<u8>)
    ensures
        !addr_lt(a, a),
{
    lemma_lex_lt_irreflexive(a);
}

/// If one address comes before another, the other does not come before it.
pub proof fn lemma_addr_lt_asymmetric(a: Seq<u8>, b: Seq<u8>)
    requires
        addr_lt(a, b),
    ensures
        !addr_lt(b, a),
{
    if a.len() == b.len() {
        lemma_lex_lt_asymmetric(a, b);
    }
}

/// Coming before carries over: from `a` before `b` and `b` before `c`
/// follows `a` before `c`.
pub proof fn lemma_addr_lt_transitive(a: Seq<u8>, b: Seq<u8>, c: Seq<u8>)
    requires
        addr_lt(a, b),
        addr_lt(b, c),
    ensures
        addr_lt(a, c),
{
    if a.len() == b.len() && b.len() == c.len() {
        lemma_lex_lt_transitive(a, b, c);
    }
}

/// Of two different addresses one comes before the other.
pub proof fn lemma_addr_lt_total(a: Seq<u8>, b: Seq<u8>)
    requires
        a != b,
    ensures
        addr_lt(a, b) || addr_lt(b, a),
{
    if a.len() == b.len() {
        lemma_lex_lt_total(a, b);
    }
}

/// Whether two byte strings hold the same bytes.
pub fn bytes_eq(a: &[u8], b: &[u8]) -> (r: bool)
    ensures
        r == (a@ == b@),
{
    if a.len() != b.len() {
        return false;
    }
    let mut i: usize = 0;
    while i < a.len()
        invariant
            i <= a@.len(),
            a@.len() == b@.len(),
            agree_before(a@, b@, i as int),
        decreases a@.len() - i,
    {
        if a[i] != b[i] {
            return false;
        }
        i += 1;
    }
    assert(a@ =~= b@);
    true
}

/// Whether `a` comes strictly before `b` in dictionary order.
pub fn bytes_lt(a: &[u8], b: &[u8]) -> (r: bool)
    ensures
        r == lex_lt(a@, b@),
{
    let mut i: usize = 0;
    while i < a.len() && i < b.len()
        invariant
            i <= a@.len(),
            i <= b@.len(),
            agree_before(a@, b@, i as int),
        decreases a@.len() - i,
    {
        if a[i] != b[i] {
            proof {
                if a[i as int] < b[i as int] {
                    assert(lex_lt_at(a@, b@, i as int));
                } else {
                    assert(lex_lt_at(b@, a@, i as int));
                    lemma_lex_lt_asymmetric(b@, a@);
                }
            }
            return a[i] < b[i];
        }
        i += 1;
    }
    proof {
        if i < b@.len() {
            assert(lex_lt_at(a@, b@, i as int));
        } else if i < a@.len() {
            assert(lex_lt_at(b@, a@, i as int));
            lemma_lex_lt_asymmetric(b@, a@);
        } else {
            assert(a@ =~= b@);
            lemma_lex_lt_irreflexive(a@);
        }
    }
    i < b.len()
}

/// Whether the address with bytes `a` comes strictly before the one with
/// bytes `b`.
pub fn addr_before(a: &[u8], b: &[u8]) -> (r: bool)
    ensures
        r == addr_lt(a@, b@),
{
    if a.len() != b.len() {
        a.len() < b.len()
    } else {
        bytes_lt(a, b)
    }
}

} // verus!

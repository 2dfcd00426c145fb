//! Bytewise lexicographic order on keys, the order in which the engine keeps
//! and walks its rows.

use vstd::prelude::*;

verus! {

/// `a` sorts strictly before `b`, looking only at positions `i` and beyond.
pub open spec fn lex_lt_from(a: Seq<u8>, b: Seq<u8>, i: int) -> bool
    decreases a.len() - i,
{
    if i < 0 || i >= b.len() {
        false
    } else if i >= a.len() {
        true
    } else if a[i] != b[i] {
        a[i] < b[i]
    } else {
        lex_lt_from(a, b, i + 1)
    }
}

/// Strict bytewise lexicographic order: the first differing byte decides, and
/// a proper prefix sorts before any of its extensions.
pub open spec fn lex_lt(a: Seq<u8>, b: Seq<u8>) -> bool {
    lex_lt_from(a, b, 0)
}

/// `a` sorts before `b` or equals it.
pub open spec fn lex_le(a: Seq<u8>, b: Seq<u8>) -> bool {
    a == b || lex_lt(a, b)
}

/// `p` is a prefix of `k`.
pub open spec fn has_prefix(k: Seq<u8>, p: Seq<u8>) -> bool {
    p.len() <= k.len() && k.subrange(0, p.len() as int) == p
}

/// The two sequences hold the same bytes below position `i`.
pub open spec fn agree_below(a: Seq<u8>, b: Seq<u8>, i: int) -> bool {
    &&& 0 <= i <= a.len()
    &&& i <= b.len()
    &&& forall|j: int| 0 <= j < i ==> a[j] == b[j]
}

proof fn lemma_irreflexive_from(a: Seq<u8>, i: int)
    requires
        0 <= i,
    ensures
        !lex_lt_from(a, a, i),
    decreases a.len() - i,
{
    if i < a.len() {
        lemma_irreflexive_from(a, i + 1);
    }
}

/// No key sorts before itself.
pub proof fn lemma_lex_irreflexive(a: Seq<u8>)
    ensures
        !lex_lt(a, a),
{
    lemma_irreflexive_from(a, 0);
}

proof fn lemma_trichotomy_from(a: Seq<u8>, b: Seq<u8>, i: int)
    requires
        agree_below(a, b, i),
    ensures
        lex_lt_from(a, b, i) || lex_lt_from(b, a, i) || a == b,
        !(lex_lt_from(a, b, i) && lex_lt_from(b, a, i)),
        a == b ==> !lex_lt_from(a, b, i),
    decreases a.len() - i,
{
    if i >= a.len() || i >= b.len() {
        if i >= a.len() && i >= b.len() {
            assert(a =~= b);
        }
    } else if a[i] != b[i] {
    } else {
        lemma_trichotomy_from(a, b, i + 1);
    }
}

/// Of two keys exactly one holds: the first sorts before the second, the
/// second before the first, or they are equal.
pub proof fn lemma_lex_trichotomy(a: Seq<u8>, b: Seq<u8>)
    ensures
        lex_lt(a, b) || lex_lt(b, a) || a == b,
        !(lex_lt(a, b) && lex_lt(b, a)),
        a == b ==> !lex_lt(a, b) && !lex_lt(b, a),
{
    lemma_trichotomy_from(a, b, 0);
    lemma_trichotomy_from(b, a, 0);
}

proof fn lemma_transitive_from(a: Seq<u8>, b: Seq<u8>, c: Seq<u8>, i: int)
    requires
        0 <= i,
        lex_lt_from(a, b, i),
        lex_lt_from(b, c, i),
    ensures
        lex_lt_from(a, c, i),
    decreases c.len() - i,
{
    if i < a.len() && i < b.len() && i < c.len() && a[i] == b[i] && b[i] == c[i] {
        lemma_transitive_from(a, b, c, i + 1);
    }
}

/// The order is transitive.
pub proof fn lemma_lex_transitive(a: Seq<u8>, b: Seq<u8>, c: Seq<u8>)
    requires
        lex_lt(a, b),
        lex_lt(b, c),
    ensures
        lex_lt(a, c),
{
    lemma_transitive_from(a, b, c, 0);
}

/// `lex_le` is transitive, and strict as soon as one of its two steps is.
pub proof fn lemma_lex_le_transitive(a: Seq<u8>, b: Seq<u8>, c: Seq<u8>)
    requires
        lex_le(a, b),
        lex_le(b, c),
    ensures
        lex_le(a, c),
        lex_lt(a, b) || lex_lt(b, c) ==> lex_lt(a, c),
{
    if lex_lt(a, b) && lex_lt(b, c) {
        lemma_lex_transitive(a, b, c);
    }
}

/// A key is never smaller than one of its own prefixes.
pub proof fn lemma_prefix_is_lower_bound(k: Seq<u8>, p: Seq<u8>)
    requires
        has_prefix(k, p),
    ensures
        lex_le(p, k),
{
    lemma_prefix_le_from(k, p, 0);
}

proof fn lemma_prefix_le_from(k: Seq<u8>, p: Seq<u8>, i: int)
    requires
        has_prefix(k, p),
        0 <= i <= p.len(),
    ensures
        p == k || lex_lt_from(p, k, i),
    decreases p.len() - i,
{
    if i < p.len() {
        assert(k.subrange(0, p.len() as int)[i] == p[i]);
        lemma_prefix_le_from(k, p, i + 1);
    } else if p.len() == k.len() {
        assert(k.subrange(0, p.len() as int) =~= k);
    }
}

proof fn lemma_prefix_block_from(p: Seq<u8>, k1: Seq<u8>, k2: Seq<u8>, i: int)
    requires
        0 <= i <= p.len(),
        has_prefix(k2, p),
        agree_below(k1, p, i),
        p == k1 || lex_lt_from(p, k1, i),
        lex_lt_from(k1, k2, i),
    ensures
        has_prefix(k1, p),
    decreases p.len() - i,
{
    if p == k1 {
        assert(k1.subrange(0, p.len() as int) =~= p);
    } else if i == p.len() {
        assert(k1.subrange(0, p.len() as int) =~= p);
    } else {
        assert(k2.subrange(0, p.len() as int)[i] == p[i]);
        // `lex_lt_from(p, k1, i)` rules out that `k1` ends here.
        assert(i < k1.len());
        if k1[i] != p[i] {
            // k1[i] > p[i] == k2[i], against k1 < k2.
            assert(false);
        } else {
            lemma_prefix_block_from(p, k1, k2, i + 1);
        }
    }
}

/// The keys that start with `p` form one block of the order: a key between
/// `p` and a key with that prefix has the prefix too.
pub proof fn lemma_prefix_block(p: Seq<u8>, k1: Seq<u8>, k2: Seq<u8>)
    requires
        lex_le(p, k1),
        lex_lt(k1, k2),
        has_prefix(k2, p),
    ensures
        has_prefix(k1, p),
{
    lemma_prefix_block_from(p, k1, k2, 0);
}

/// Decides `lex_lt` on two byte strings.
pub fn bytes_lt(a: &[u8], b: &[u8]) -> (r: bool)
    ensures
        r == lex_lt(a@, b@),
{
    let mut i: usize = 0;
    while i < a.len() && i < b.len()
        invariant
            agree_below(a@, b@, i as int),
            lex_lt(a@, b@) == lex_lt_from(a@, b@, i as int),
        decreases a.len() - i,
    {
        if a[i] != b[i] {
            return a[i] < b[i];
        }
        i += 1;
    }
    i < b.len()
}

/// Decides equality of two byte strings.
pub fn bytes_eq(a: &[u8], b: &[u8]) -> (r: bool)
    ensures
        r == (a@ == b@),
{
    if a.len() != b.len() {
        return false;
    }
    let mut i: usize = 0;
    while i < a.len()
        invariant
            a@.len() == b@.len(),
            agree_below(a@, b@, i as int),
        decreases a.len() - i,
    {
        if a[i] != b[i] {
            return false;
        }
        i += 1;
    }
    assert(a@ =~= b@);
    true
}

/// Decides whether `k` starts with `p`.
pub fn bytes_start_with(k: &[u8], p: &[u8]) -> (r: bool)
    ensures
        r == has_prefix(k@, p@),
{
    if p.len() > k.len() {
        return false;
    }
    let mut i: usize = 0;
    while i < p.len()
        invariant
            p@.len() <= k@.len(),
            agree_below(k@, p@, i as int),
        decreases p.len() - i,
    {
        if k[i] != p[i] {
            assert(k@.subrange(0, p@.len() as int)[i as int] == k@[i as int]);
            return false;
        }
        i += 1;
    }
    assert(k@.subrange(0, p@.len() as int) =~= p@);
    true
}

} // verus!

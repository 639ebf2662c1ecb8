//! Lexicographic order on byte sequences.
//!
//! Canonicalization sorts parameters by key in byte order; this module
//! gives that order a specification, an executable three-way comparison,
//! and the order lemmas the sorted-map proofs rest on.

use vstd::prelude::*;

verus! {

/// Strict lexicographic order on byte sequences.
pub open spec fn lex_lt(a: Seq<u8>, b: Seq<u8>) -> bool
    decreases a.len(),
{
    if b.len() == 0 {
        false
    } else if a.len() == 0 {
        true
    } else if a[0] < b[0] {
        true
    } else if a[0] > b[0] {
        false
    } else {
        lex_lt(a.skip(1), b.skip(1))
    }
}

/// Outcome of a three-way comparison.
#[derive(Clone, Copy, PartialEq, Eq, Structural, Debug)]
pub enum Ordering3 {
    Less,
    Equal,
    Greater,
}

/// Three-way lexicographic comparison of two byte slices.
pub fn lex_cmp(a: &[u8], b: &[u8]) -> (r: Ordering3)
    ensures
        r == Ordering3::Less <==> lex_lt(a@, b@),
        r == Ordering3::Equal <==> a@ == b@,
        r == Ordering3::Greater <==> lex_lt(b@, a@),
{
    let an = a.len();
    let bn = b.len();
    let min = if an < bn {
        an
    } else {
        bn
    };
    let mut i: usize = 0;
    assert(a@.skip(0) == a@);
    assert(b@.skip(0) == b@);
    while i < min
        invariant
            i <= min,
            min <= an && min <= bn,
            min == an || min == bn,
            an == a@.len(),
            bn == b@.len(),
            forall|j: int| 0 <= j < i ==> a@[j] == b@[j],
            lex_lt(a@, b@) <==> lex_lt(a@.skip(i as int), b@.skip(i as int)),
            lex_lt(b@, a@) <==> lex_lt(b@.skip(i as int), a@.skip(i as int)),
        decreases min - i,
    {
        let x = a[i];
        let y = b[i];
        assert(a@.skip(i as int)[0] == a@[i as int]);
        assert(b@.skip(i as int)[0] == b@[i as int]);
        if x < y {
            assert(lex_lt(a@.skip(i as int), b@.skip(i as int)));
            assert(!lex_lt(b@.skip(i as int), a@.skip(i as int)));
            assert(a@ != b@);
            return Ordering3::Less;
        } else if x > y {
            assert(lex_lt(b@.skip(i as int), a@.skip(i as int)));
            assert(!lex_lt(a@.skip(i as int), b@.skip(i as int)));
            assert(a@ != b@);
            return Ordering3::Greater;
        }
        assert(a@.skip(i as int).skip(1) == a@.skip(i + 1));
        assert(b@.skip(i as int).skip(1) == b@.skip(i + 1));
        i = i + 1;
    }
    if an < bn {
        assert(a@.skip(i as int).len() == 0 && b@.skip(i as int).len() > 0);
        assert(a@ != b@);
        Ordering3::Less
    } else if an > bn {
        assert(b@.skip(i as int).len() == 0 && a@.skip(i as int).len() > 0);
        assert(a@ != b@);
        Ordering3::Greater
    } else {
        assert(a@ =~= b@);
        assert(!lex_lt(a@.skip(i as int), b@.skip(i as int)));
        Ordering3::Equal
    }
}

/// The order is irreflexive.
pub proof fn lemma_lex_lt_irrefl(a: Seq<u8>)
    ensures
        !lex_lt(a, a),
    decreases a.len(),
{
    if a.len() > 0 {
        lemma_lex_lt_irrefl(a.skip(1));
    }
}

/// The order is transitive.
pub proof fn lemma_lex_lt_trans(a: Seq<u8>, b: Seq<u8>, c: Seq<u8>)
    requires
        lex_lt(a, b),
        lex_lt(b, c),
    ensures
        lex_lt(a, c),
    decreases a.len(),
{
    if a.len() == 0 {
        // c is nonempty because lex_lt(b, c) holds.
    } else {
        // a nonempty forces b nonempty (from lex_lt(a, b)), and c is
        // nonempty (from lex_lt(b, c)).
        if a[0] == b[0] && b[0] == c[0] {
            lemma_lex_lt_trans(a.skip(1), b.skip(1), c.skip(1));
        }
    }
}

/// Two sequences in the order are distinct.
pub proof fn lemma_lex_lt_neq(a: Seq<u8>, b: Seq<u8>)
    requires
        lex_lt(a, b),
    ensures
        a != b,
{
    if a == b {
        lemma_lex_lt_irrefl(a);
    }
}

} // verus!

//! Parameter mappings and the canonical query string.
//!
//! A [`ParamMap`] holds the request parameters as a list of key/value byte
//! pairs kept strictly sorted by key, so its mathematical view is a
//! `Map<Seq<u8>, Seq<u8>>` and the canonical string — the sorted,
//! percent-encoded `key=value` join — is a function of that view alone.

use vstd::prelude::*;
use vstd::string::*;
use vstd::utf8::encode_utf8;

use crate::encode::{percent_encode, percent_encoded};
use crate::order::{
    lemma_lex_lt_irrefl, lemma_lex_lt_neq, lemma_lex_lt_trans, lex_cmp, lex_lt, Ordering3,
};

verus! {

/// Entry lists are strictly sorted by key in lexicographic byte order.
pub open spec fn wf_entries(s: Seq<(Seq<u8>, Seq<u8>)>) -> bool {
    forall|i: int, j: int|
        0 <= i < j < s.len() ==> lex_lt(#[trigger] s[i].0, #[trigger] s[j].0)
}

/// True when some entry carries the key.
pub open spec fn has_key(s: Seq<(Seq<u8>, Seq<u8>)>, k: Seq<u8>) -> bool {
    exists|i: int| 0 <= i < s.len() && (#[trigger] s[i]).0 == k
}

/// The mapping an entry list stands for; an earlier entry wins over a
/// later one with the same key (sorted lists never repeat a key).
pub open spec fn to_map(s: Seq<(Seq<u8>, Seq<u8>)>) -> Map<Seq<u8>, Seq<u8>>
    decreases s.len(),
{
    if s.len() == 0 {
        Map::empty()
    } else {
        to_map(s.skip(1)).insert(s[0].0, s[0].1)
    }
}

/// One entry rendered for the canonical string: `key=value`, both sides
/// percent-encoded.
pub open spec fn pair_encoded(p: (Seq<u8>, Seq<u8>)) -> Seq<u8> {
    percent_encoded(p.0) + seq![0x3du8] + percent_encoded(p.1)
}

/// The continuation of the canonical string: `&key=value` for each entry.
pub open spec fn canon_tail(s: Seq<(Seq<u8>, Seq<u8>)>) -> Seq<u8>
    decreases s.len(),
{
    if s.len() == 0 {
        Seq::empty()
    } else {
        seq![0x26u8] + pair_encoded(s[0]) + canon_tail(s.skip(1))
    }
}

/// The canonical string of an entry list: encoded `key=value` pairs joined
/// with `&`.
pub open spec fn canon_of(s: Seq<(Seq<u8>, Seq<u8>)>) -> Seq<u8> {
    if s.len() == 0 {
        Seq::empty()
    } else {
        pair_encoded(s[0]) + canon_tail(s.skip(1))
    }
}

/// The one strictly sorted entry list that stands for the mapping
/// (unique by [`lemma_sorted_entries_unique`]).
pub open spec fn sorted_entries_of(m: Map<Seq<u8>, Seq<u8>>) -> Seq<(Seq<u8>, Seq<u8>)> {
    choose|es: Seq<(Seq<u8>, Seq<u8>)>| wf_entries(es) && to_map(es) == m
}

/// The canonical string of a mapping: its entries sorted by key,
/// percent-encoded and joined.
pub open spec fn canon_of_map(m: Map<Seq<u8>, Seq<u8>>) -> Seq<u8> {
    canon_of(sorted_entries_of(m))
}

/// In a sorted entry list all keys are distinct.
proof fn lemma_wf_keys_distinct(s: Seq<(Seq<u8>, Seq<u8>)>)
    requires
        wf_entries(s),
    ensures
        forall|i: int, j: int|
            0 <= i < s.len() && 0 <= j < s.len() && i != j ==> (#[trigger] s[i]).0 != (
            #[trigger] s[j]).0,
{
    assert forall|i: int, j: int|
        0 <= i < s.len() && 0 <= j < s.len() && i != j implies (#[trigger] s[i]).0 != (
    #[trigger] s[j]).0 by {
        if i < j {
            lemma_lex_lt_neq(s[i].0, s[j].0);
        } else {
            lemma_lex_lt_neq(s[j].0, s[i].0);
        }
    }
}

/// The mapping contains exactly the keys of the entries.
proof fn lemma_to_map_contains(s: Seq<(Seq<u8>, Seq<u8>)>)
    ensures
        forall|k: Seq<u8>| #[trigger] to_map(s).contains_key(k) <==> has_key(s, k),
    decreases s.len(),
{
    if s.len() > 0 {
        lemma_to_map_contains(s.skip(1));
        assert forall|k: Seq<u8>| #[trigger] to_map(s).contains_key(k) implies has_key(s, k) by {
            if k == s[0].0 {
                assert(s[0].0 == k);
            } else {
                assert(to_map(s.skip(1)).contains_key(k));
                assert(has_key(s.skip(1), k));
                let i = choose|i: int| 0 <= i < s.skip(1).len() && (#[trigger] s.skip(1)[i]).0
                    == k;
                assert(s.skip(1)[i] == s[i + 1]);
                assert(s[i + 1].0 == k);
            }
        }
        assert forall|k: Seq<u8>| has_key(s, k) implies #[trigger] to_map(s).contains_key(k) by {
            let i = choose|i: int| 0 <= i < s.len() && (#[trigger] s[i]).0 == k;
            if i > 0 {
                assert(s.skip(1)[i - 1] == s[i]);
                assert(s.skip(1)[i - 1].0 == k);
                assert(has_key(s.skip(1), k));
                assert(to_map(s.skip(1)).contains_key(k));
            }
        }
    }
}

/// Looking an entry's key up in the mapping yields that entry's value,
/// provided no earlier entry shadows it.
proof fn lemma_to_map_sel(s: Seq<(Seq<u8>, Seq<u8>)>, i: int)
    requires
        0 <= i < s.len(),
        forall|j: int| 0 <= j < i ==> (#[trigger] s[j]).0 != s[i].0,
    ensures
        to_map(s).contains_key(s[i].0),
        to_map(s)[s[i].0] == s[i].1,
    decreases i,
{
    if i == 0 {
    } else {
        assert forall|j: int| 0 <= j < i - 1 implies (#[trigger] s.skip(1)[j]).0 != s.skip(
            1,
        )[i - 1].0 by {
            assert(s.skip(1)[j] == s[j + 1]);
        }
        lemma_to_map_sel(s.skip(1), i - 1);
        assert(s.skip(1)[i - 1] == s[i]);
    }
}

/// Dropping the first entry drops exactly its key from the mapping.
proof fn lemma_to_map_skip_remove(s: Seq<(Seq<u8>, Seq<u8>)>)
    requires
        s.len() > 0,
        forall|j: int| 1 <= j < s.len() ==> (#[trigger] s[j]).0 != s[0].0,
    ensures
        to_map(s.skip(1)) == to_map(s).remove(s[0].0),
{
    lemma_to_map_contains(s.skip(1));
    if to_map(s.skip(1)).contains_key(s[0].0) {
        let i = choose|i: int| 0 <= i < s.skip(1).len() && (#[trigger] s.skip(1)[i]).0 == s[0].0;
        assert(s[i + 1].0 == s[0].0);
    }
    assert(to_map(s.skip(1)) =~= to_map(s).remove(s[0].0));
}

/// Splicing a fresh key into an entry list inserts it into the mapping.
proof fn lemma_to_map_insert(s: Seq<(Seq<u8>, Seq<u8>)>, i: int, k: Seq<u8>, v: Seq<u8>)
    requires
        0 <= i <= s.len(),
        forall|j: int| 0 <= j < s.len() ==> (#[trigger] s[j]).0 != k,
    ensures
        to_map(s.insert(i, (k, v))) == to_map(s).insert(k, v),
    decreases i,
{
    let n = s.insert(i, (k, v));
    if i == 0 {
        assert(n[0] == (k, v));
        assert(n.skip(1) =~= s);
    } else {
        assert(n[0] == s[0]);
        assert(n.skip(1) =~= s.skip(1).insert(i - 1, (k, v)));
        assert forall|j: int| 0 <= j < s.skip(1).len() implies (#[trigger] s.skip(1)[j]).0
            != k by {
            assert(s.skip(1)[j] == s[j + 1]);
        }
        lemma_to_map_insert(s.skip(1), i - 1, k, v);
        assert(to_map(n) == to_map(s.skip(1)).insert(k, v).insert(s[0].0, s[0].1));
        assert(to_map(s.skip(1)).insert(k, v).insert(s[0].0, s[0].1) =~= to_map(s.skip(1)).insert(
            s[0].0,
            s[0].1,
        ).insert(k, v));
    }
}

/// Replacing the value at an entry overwrites that key in the mapping.
proof fn lemma_to_map_update(s: Seq<(Seq<u8>, Seq<u8>)>, i: int, k: Seq<u8>, v: Seq<u8>)
    requires
        0 <= i < s.len(),
        s[i].0 == k,
        forall|j: int|
            0 <= j < s.len() && j != i ==> (#[trigger] s[j]).0 != k,
    ensures
        to_map(s.update(i, (k, v))) == to_map(s).insert(k, v),
    decreases i,
{
    let n = s.update(i, (k, v));
    if i == 0 {
        assert(n[0] == (k, v));
        assert(n.skip(1) =~= s.skip(1));
        assert(to_map(s).insert(k, v) =~= to_map(s.skip(1)).insert(k, v));
    } else {
        assert(n[0] == s[0]);
        assert(n.skip(1) =~= s.skip(1).update(i - 1, (k, v)));
        assert(s.skip(1)[i - 1].0 == k);
        assert forall|j: int| 0 <= j < s.skip(1).len() && j != i - 1 implies (#[trigger] s.skip(
            1,
        )[j]).0 != k by {
            assert(s.skip(1)[j] == s[j + 1]);
        }
        lemma_to_map_update(s.skip(1), i - 1, k, v);
        assert(to_map(n) == to_map(s.skip(1)).insert(k, v).insert(s[0].0, s[0].1));
        assert(to_map(s.skip(1)).insert(k, v).insert(s[0].0, s[0].1) =~= to_map(s.skip(1)).insert(
            s[0].0,
            s[0].1,
        ).insert(k, v));
    }
}

/// A mapping has at most one strictly sorted entry form.  This is what
/// makes canonicalization deterministic: for a fixed mapping (with its
/// injected nonce and timestamp already in place) the sorted entry list,
/// and with it the canonical string, is byte-for-byte determined.
pub proof fn lemma_sorted_entries_unique(e1: Seq<(Seq<u8>, Seq<u8>)>, e2: Seq<(Seq<u8>, Seq<u8>)>)
    requires
        wf_entries(e1),
        wf_entries(e2),
        to_map(e1) == to_map(e2),
    ensures
        e1 == e2,
    decreases e1.len(),
{
    lemma_to_map_contains(e1);
    lemma_to_map_contains(e2);
    if e1.len() == 0 {
        if e2.len() > 0 {
            assert(e2[0].0 == e2[0].0);
            assert(has_key(e2, e2[0].0));
            assert(to_map(e1).contains_key(e2[0].0));
        }
        assert(e1 =~= e2);
    } else if e2.len() == 0 {
        assert(e1[0].0 == e1[0].0);
        assert(has_key(e1, e1[0].0));
        assert(to_map(e2).contains_key(e1[0].0));
        assert(e1 =~= e2);
    } else {
        let k1 = e1[0].0;
        let k2 = e2[0].0;
        if k1 != k2 {
            assert(e1[0].0 == k1);
            assert(has_key(e1, k1));
            assert(to_map(e2).contains_key(k1));
            let j = choose|j: int| 0 <= j < e2.len() && (#[trigger] e2[j]).0 == k1;
            assert(j > 0);
            assert(lex_lt(k2, k1));
            assert(e2[0].0 == k2);
            assert(has_key(e2, k2));
            assert(to_map(e1).contains_key(k2));
            let i = choose|i: int| 0 <= i < e1.len() && (#[trigger] e1[i]).0 == k2;
            assert(i > 0);
            assert(lex_lt(k1, k2));
            lemma_lex_lt_trans(k1, k2, k1);
            lemma_lex_lt_irrefl(k1);
        }
        assert(to_map(e1)[k1] == e1[0].1);
        assert(to_map(e2)[k1] == e2[0].1);
        lemma_wf_keys_distinct(e1);
        lemma_wf_keys_distinct(e2);
        lemma_to_map_skip_remove(e1);
        lemma_to_map_skip_remove(e2);
        assert(to_map(e1.skip(1)) == to_map(e2.skip(1)));
        assert forall|i: int, j: int| 0 <= i < j < e1.skip(1).len() implies lex_lt(
            (#[trigger] e1.skip(1)[i]).0,
            (#[trigger] e1.skip(1)[j]).0,
        ) by {
            assert(e1.skip(1)[i] == e1[i + 1]);
            assert(e1.skip(1)[j] == e1[j + 1]);
        }
        assert forall|i: int, j: int| 0 <= i < j < e2.skip(1).len() implies lex_lt(
            (#[trigger] e2.skip(1)[i]).0,
            (#[trigger] e2.skip(1)[j]).0,
        ) by {
            assert(e2.skip(1)[i] == e2[i + 1]);
            assert(e2.skip(1)[j] == e2[j + 1]);
        }
        lemma_sorted_entries_unique(e1.skip(1), e2.skip(1));
        assert(e1.len() == e2.len());
        assert forall|i: int| 0 <= i < e1.len() implies e1[i] == e2[i] by {
            if i == 0 {
                assert(e1[0].0 == e2[0].0);
                assert(e1[0].1 == e2[0].1);
            } else {
                assert(e1.skip(1)[i - 1] == e1[i]);
                assert(e2.skip(1)[i - 1] == e2[i]);
            }
        }
        assert(e1 =~= e2);
    }
}

/// The UTF-8 bytes of a string, as an owned vector.
pub fn utf8_bytes(s: &str) -> (r: Vec<u8>)
    ensures
        r@ == encode_utf8(s@),
{
    let mut r: Vec<u8> = Vec::new();
    r.extend_from_slice(s.as_bytes());
    r
}

/// Two concatenations agree and the boundary is recognizable — the heads
/// are free of a marker byte that each tail, if nonempty, starts with —
/// so the parts agree too.
proof fn lemma_marker_split(a1: Seq<u8>, s1: Seq<u8>, a2: Seq<u8>, s2: Seq<u8>, marker: u8)
    requires
        a1 + s1 == a2 + s2,
        forall|i: int| 0 <= i < a1.len() ==> #[trigger] a1[i] != marker,
        forall|i: int| 0 <= i < a2.len() ==> #[trigger] a2[i] != marker,
        s1.len() > 0 ==> s1[0] == marker,
        s2.len() > 0 ==> s2[0] == marker,
    ensures
        a1 == a2,
        s1 == s2,
{
    assert((a1 + s1).len() == (a2 + s2).len());
    assert((a1 + s1).len() == a1.len() + s1.len());
    assert((a2 + s2).len() == a2.len() + s2.len());
    assert(a1.len() + s1.len() == a2.len() + s2.len());
    if a1.len() < a2.len() {
        assert(s1.len() > 0);
        assert((a1 + s1)[a1.len() as int] == s1[0]);
        assert((a2 + s2)[a1.len() as int] == a2[a1.len() as int]);
        assert(a2[a1.len() as int] == marker);
        assert(false);
    } else if a2.len() < a1.len() {
        assert(s2.len() > 0);
        assert((a2 + s2)[a2.len() as int] == s2[0]);
        assert((a1 + s1)[a2.len() as int] == a1[a2.len() as int]);
        assert(a1[a2.len() as int] == marker);
        assert(false);
    }
    assert(a1.len() == a2.len());
    assert(s1.len() == s2.len());
    assert forall|i: int| 0 <= i < a1.len() implies a1[i] == a2[i] by {
        assert((a1 + s1)[i] == a1[i]);
        assert((a2 + s2)[i] == a2[i]);
    }
    assert(a1 =~= a2);
    assert forall|i: int| 0 <= i < s1.len() implies s1[i] == s2[i] by {
        assert((a1 + s1)[a1.len() + i] == s1[i]);
        assert((a2 + s2)[a2.len() + i] == s2[i]);
    }
    assert(s1 =~= s2);
}

/// A rendered entry never contains `&`.
proof fn lemma_pair_encoded_amp_free(p: (Seq<u8>, Seq<u8>))
    ensures
        forall|i: int|
            0 <= i < pair_encoded(p).len() ==> #[trigger] pair_encoded(p)[i] != 0x26,
{
    crate::encode::lemma_encoded_separator_free(p.0);
    crate::encode::lemma_encoded_separator_free(p.1);
    let ek = percent_encoded(p.0);
    let ev = percent_encoded(p.1);
    assert forall|i: int| 0 <= i < pair_encoded(p).len() implies #[trigger] pair_encoded(p)[i]
        != 0x26 by {
        if i < ek.len() {
            assert(pair_encoded(p)[i] == ek[i]);
        } else if i == ek.len() {
            assert(pair_encoded(p)[i] == 0x3du8);
        } else {
            assert(pair_encoded(p)[i] == ev[i - ek.len() - 1]);
        }
    }
}

/// Rendering an entry is injective: `key=value` with both sides encoded
/// and `=` impossible inside either side pins the pair.
proof fn lemma_pair_encoded_injective(p1: (Seq<u8>, Seq<u8>), p2: (Seq<u8>, Seq<u8>))
    requires
        pair_encoded(p1) == pair_encoded(p2),
    ensures
        p1 == p2,
{
    crate::encode::lemma_encoded_separator_free(p1.0);
    crate::encode::lemma_encoded_separator_free(p2.0);
    let t1 = seq![0x3du8] + percent_encoded(p1.1);
    let t2 = seq![0x3du8] + percent_encoded(p2.1);
    assert(percent_encoded(p1.0) + t1 =~= pair_encoded(p1));
    assert(percent_encoded(p2.0) + t2 =~= pair_encoded(p2));
    lemma_marker_split(percent_encoded(p1.0), t1, percent_encoded(p2.0), t2, 0x3d);
    crate::encode::lemma_encode_injective(p1.0, p2.0);
    assert(percent_encoded(p1.1) =~= t1.skip(1));
    assert(percent_encoded(p2.1) =~= t2.skip(1));
    crate::encode::lemma_encode_injective(p1.1, p2.1);
}

/// The continuation of the canonical string pins the remaining entries.
proof fn lemma_canon_tail_injective(e1: Seq<(Seq<u8>, Seq<u8>)>, e2: Seq<(Seq<u8>, Seq<u8>)>)
    requires
        canon_tail(e1) == canon_tail(e2),
    ensures
        e1 == e2,
    decreases e1.len(),
{
    if e1.len() == 0 || e2.len() == 0 {
        assert(e1.len() == 0 && e2.len() == 0);
        assert(e1 =~= e2);
    } else {
        lemma_pair_encoded_amp_free(e1[0]);
        lemma_pair_encoded_amp_free(e2[0]);
        let h1 = pair_encoded(e1[0]);
        let h2 = pair_encoded(e2[0]);
        let t1 = canon_tail(e1.skip(1));
        let t2 = canon_tail(e2.skip(1));
        assert(seq![0x26u8] + (h1 + t1) =~= canon_tail(e1));
        assert(seq![0x26u8] + (h2 + t2) =~= canon_tail(e2));
        assert forall|i: int| 0 <= i < (h1 + t1).len() implies (h1 + t1)[i] == (h2 + t2)[i] by {
            assert((seq![0x26u8] + (h1 + t1))[i + 1] == (h1 + t1)[i]);
            assert((seq![0x26u8] + (h2 + t2))[i + 1] == (h2 + t2)[i]);
        }
        assert(h1 + t1 =~= h2 + t2);
        lemma_marker_split(h1, t1, h2, t2, 0x26);
        lemma_pair_encoded_injective(e1[0], e2[0]);
        lemma_canon_tail_injective(e1.skip(1), e2.skip(1));
        assert forall|i: int| 0 <= i < e1.len() implies e1[i] == e2[i] by {
            if i > 0 {
                assert(e1.skip(1)[i - 1] == e1[i]);
                assert(e2.skip(1)[i - 1] == e2[i]);
            }
        }
        assert(e1 =~= e2);
    }
}

/// The canonical string pins the entry list: no two entry lists — so in
/// particular no two sorted mappings, however they differ in a key or a
/// single value — render the same canonical string.
pub proof fn lemma_canon_injective(e1: Seq<(Seq<u8>, Seq<u8>)>, e2: Seq<(Seq<u8>, Seq<u8>)>)
    requires
        canon_of(e1) == canon_of(e2),
    ensures
        e1 == e2,
        to_map(e1) == to_map(e2),
{
    if e1.len() == 0 || e2.len() == 0 {
        if e1.len() == 0 && e2.len() > 0 {
            assert(canon_of(e2).len() >= pair_encoded(e2[0]).len());
            assert(pair_encoded(e2[0]).len() >= 1);
        }
        if e2.len() == 0 && e1.len() > 0 {
            assert(canon_of(e1).len() >= pair_encoded(e1[0]).len());
            assert(pair_encoded(e1[0]).len() >= 1);
        }
        assert(e1 =~= e2);
    } else {
        lemma_pair_encoded_amp_free(e1[0]);
        lemma_pair_encoded_amp_free(e2[0]);
        lemma_marker_split(
            pair_encoded(e1[0]),
            canon_tail(e1.skip(1)),
            pair_encoded(e2[0]),
            canon_tail(e2.skip(1)),
            0x26,
        );
        lemma_pair_encoded_injective(e1[0], e2[0]);
        lemma_canon_tail_injective(e1.skip(1), e2.skip(1));
        assert forall|i: int| 0 <= i < e1.len() implies e1[i] == e2[i] by {
            if i > 0 {
                assert(e1.skip(1)[i - 1] == e1[i]);
                assert(e2.skip(1)[i - 1] == e2[i]);
            }
        }
        assert(e1 =~= e2);
    }
}

/// A sorted entry list has as many entries as its mapping has keys.
proof fn lemma_to_map_dom_len(s: Seq<(Seq<u8>, Seq<u8>)>)
    requires
        wf_entries(s),
    ensures
        to_map(s).dom().finite(),
        to_map(s).dom().len() == s.len(),
    decreases s.len(),
{
    if s.len() > 0 {
        assert forall|i: int, j: int| 0 <= i < j < s.skip(1).len() implies lex_lt(
            (#[trigger] s.skip(1)[i]).0,
            (#[trigger] s.skip(1)[j]).0,
        ) by {
            assert(s.skip(1)[i] == s[i + 1]);
            assert(s.skip(1)[j] == s[j + 1]);
        }
        lemma_to_map_dom_len(s.skip(1));
        lemma_to_map_contains(s.skip(1));
        lemma_wf_keys_distinct(s);
        if to_map(s.skip(1)).contains_key(s[0].0) {
            let i = choose|i: int| 0 <= i < s.skip(1).len() && (#[trigger] s.skip(1)[i]).0
                == s[0].0;
            assert(s.skip(1)[i] == s[i + 1]);
        }
        assert(to_map(s).dom() =~= to_map(s.skip(1)).dom().insert(s[0].0));
    } else {
        assert(to_map(s).dom() =~= Set::<Seq<u8>>::empty());
    }
}

/// A mapping of parameter names to values, both byte strings.  Entries are
/// kept strictly sorted by key, so the canonical query string can be read
/// off in one pass and is determined by the mapping alone.
pub struct ParamMap {
    pairs: Vec<(Vec<u8>, Vec<u8>)>,
}

impl View for ParamMap {
    type V = Map<Seq<u8>, Seq<u8>>;

    closed spec fn view(&self) -> Map<Seq<u8>, Seq<u8>> {
        to_map(self.entries())
    }
}

impl ParamMap {
    /// The entry list as mathematical pairs, in storage order.
    pub closed spec fn entries(self) -> Seq<(Seq<u8>, Seq<u8>)> {
        self.pairs@.map_values(|p: (Vec<u8>, Vec<u8>)| (p.0@, p.1@))
    }

    /// The entries are strictly sorted by key; every constructor
    /// establishes this and every method preserves it.
    pub open spec fn wf(self) -> bool {
        wf_entries(self.entries())
    }

    /// An empty mapping.
    pub fn new() -> (r: ParamMap)
        ensures
            r.wf(),
            r@ == Map::<Seq<u8>, Seq<u8>>::empty(),
    {
        let r = ParamMap { pairs: Vec::new() };
        proof {
            assert(r.entries() =~= Seq::<(Seq<u8>, Seq<u8>)>::empty());
        }
        r
    }

    /// Where the key sits or would sit: the index of the entry carrying it
    /// when present, else the index its entry would be spliced in at.
    fn find_slot(&self, key: &[u8]) -> (r: (usize, bool))
        requires
            self.wf(),
        ensures
            r.0 <= self.entries().len(),
            r.1 ==> r.0 < self.entries().len() && self.entries()[r.0 as int].0 == key@,
            !r.1 ==> forall|j: int|
                0 <= j < self.entries().len() ==> (#[trigger] self.entries()[j]).0 != key@,
            !r.1 ==> forall|j: int|
                0 <= j < r.0 ==> lex_lt((#[trigger] self.entries()[j]).0, key@),
            !r.1 && r.0 < self.entries().len() ==> lex_lt(key@, self.entries()[r.0 as int].0),
    {
        let ghost es = self.entries();
        let n = self.pairs.len();
        let mut i: usize = 0;
        while i < n
            invariant
                i <= n,
                n == es.len(),
                es == self.entries(),
                self.wf(),
                forall|j: int| 0 <= j < i ==> lex_lt((#[trigger] es[j]).0, key@),
            decreases n - i,
        {
            let c = lex_cmp(key, self.pairs[i].0.as_slice());
            proof {
                assert(es[i as int].0 == self.pairs@[i as int].0@);
            }
            match c {
                Ordering3::Less => {
                    proof {
                        assert forall|j: int| 0 <= j < es.len() implies (#[trigger] es[j]).0
                            != key@ by {
                            if j < i {
                                lemma_lex_lt_neq(es[j].0, key@);
                            } else if j == i {
                                lemma_lex_lt_neq(key@, es[j].0);
                            } else {
                                lemma_lex_lt_trans(key@, es[i as int].0, es[j].0);
                                lemma_lex_lt_neq(key@, es[j].0);
                            }
                        }
                    }
                    return (i, false);
                },
                Ordering3::Equal => {
                    return (i, true);
                },
                Ordering3::Greater => {
                    i = i + 1;
                },
            }
        }
        proof {
            assert forall|j: int| 0 <= j < es.len() implies (#[trigger] es[j]).0 != key@ by {
                lemma_lex_lt_neq(es[j].0, key@);
            }
        }
        (i, false)
    }

    /// Puts the value under the key, replacing any value already there.
    pub fn insert(&mut self, key: Vec<u8>, value: Vec<u8>)
        requires
            old(self).wf(),
        ensures
            final(self).wf(),
            final(self)@ == old(self)@.insert(key@, value@),
    {
        let ghost es = self.entries();
        let ghost k = key@;
        let ghost v = value@;
        let (idx, found) = self.find_slot(key.as_slice());
        if found {
            self.pairs.remove(idx);
            self.pairs.insert(idx, (key, value));
            proof {
                assert(self.pairs@ =~= old(self).pairs@.update(idx as int, self.pairs@[idx as int]));
                assert(self.entries() =~= es.update(idx as int, (k, v)));
                lemma_wf_keys_distinct(es);
                lemma_to_map_update(es, idx as int, k, v);
                let ne = self.entries();
                assert forall|a: int, b: int| 0 <= a < b < ne.len() implies lex_lt(
                    (#[trigger] ne[a]).0,
                    (#[trigger] ne[b]).0,
                ) by {
                    assert(ne[a].0 == es[a].0);
                    assert(ne[b].0 == es[b].0);
                }
            }
        } else {
            self.pairs.insert(idx, (key, value));
            proof {
                assert(self.entries() =~= es.insert(idx as int, (k, v)));
                lemma_to_map_insert(es, idx as int, k, v);
                let ne = self.entries();
                assert forall|a: int, b: int| 0 <= a < b < ne.len() implies lex_lt(
                    (#[trigger] ne[a]).0,
                    (#[trigger] ne[b]).0,
                ) by {
                    if b < idx {
                        assert(ne[a] == es[a] && ne[b] == es[b]);
                    } else if a < idx && b == idx {
                        assert(ne[a] == es[a]);
                    } else if a < idx && b > idx {
                        assert(ne[a] == es[a] && ne[b] == es[b - 1]);
                        assert(a <= b - 1);
                        if a == b - 1 {
                            assert(false);
                        }
                    } else if a == idx {
                        assert(ne[b] == es[b - 1]);
                        if b - 1 == idx {
                            assert(lex_lt(k, es[idx as int].0));
                        } else {
                            lemma_lex_lt_trans(k, es[idx as int].0, es[b - 1].0);
                        }
                    } else {
                        assert(ne[a] == es[a - 1] && ne[b] == es[b - 1]);
                    }
                }
            }
        }
    }

    /// Puts the value under the key only when the key is absent;
    /// a caller-supplied value wins over a later injected one.
    pub fn insert_if_absent(&mut self, key: Vec<u8>, value: Vec<u8>)
        requires
            old(self).wf(),
        ensures
            final(self).wf(),
            final(self)@ == if old(self)@.contains_key(key@) {
                old(self)@
            } else {
                old(self)@.insert(key@, value@)
            },
    {
        proof {
            lemma_to_map_contains(self.entries());
        }
        let (_idx, found) = self.find_slot(key.as_slice());
        if !found {
            self.insert(key, value);
        }
    }

    /// True when the key is present.
    pub fn contains_key(&self, key: &[u8]) -> (r: bool)
        requires
            self.wf(),
        ensures
            r == self@.contains_key(key@),
    {
        proof {
            lemma_to_map_contains(self.entries());
        }
        let (idx, found) = self.find_slot(key);
        proof {
            if found {
                assert(self.entries()[idx as int].0 == key@);
                assert(has_key(self.entries(), key@));
            }
        }
        found
    }

    /// The value stored under the key, when present.
    pub fn get(&self, key: &[u8]) -> (r: Option<&Vec<u8>>)
        requires
            self.wf(),
        ensures
            match r {
                Some(v) => self@.contains_key(key@) && v@ == self@[key@],
                None => !self@.contains_key(key@),
            },
    {
        proof {
            lemma_to_map_contains(self.entries());
        }
        let (idx, found) = self.find_slot(key);
        if found {
            proof {
                assert(self.entries()[idx as int].0 == key@);
                assert(has_key(self.entries(), key@));
                lemma_wf_keys_distinct(self.entries());
                lemma_to_map_sel(self.entries(), idx as int);
            }
            Some(&self.pairs[idx].1)
        } else {
            None
        }
    }

    /// How many parameters the mapping holds.
    pub fn len(&self) -> (r: usize)
        requires
            self.wf(),
        ensures
            r == self@.dom().len(),
    {
        proof {
            lemma_to_map_dom_len(self.entries());
        }
        self.pairs.len()
    }

    /// The canonical string of the mapping: entries in sorted key order,
    /// each `key=value` with both sides percent-encoded, joined with `&`.
    pub fn canonical_string(&self) -> (r: Vec<u8>)
        requires
            self.wf(),
        ensures
            r@ == canon_of_map(self@),
    {
        let ghost es = self.entries();
        let mut r: Vec<u8> = Vec::new();
        let n = self.pairs.len();
        for i in 0..n
            invariant
                n == es.len(),
                es == self.entries(),
                self.wf(),
                i == 0 ==> r@ =~= Seq::<u8>::empty(),
                i > 0 ==> r@ + canon_tail(es.skip(i as int)) == canon_of(es),
        {
            proof {
                assert(es[i as int] == (self.pairs@[i as int].0@, self.pairs@[i as int].1@));
            }
            if i > 0 {
                r.push(0x26);  // &
            }
            let mut ek = percent_encode(self.pairs[i].0.as_slice());
            r.append(&mut ek);
            r.push(0x3d);  // =
            let mut ev = percent_encode(self.pairs[i].1.as_slice());
            r.append(&mut ev);
            proof {
                assert(es.skip(i as int)[0] == es[i as int]);
                assert(es.skip(i as int).skip(1) == es.skip(i + 1));
                if i == 0 {
                    assert(r@ =~= pair_encoded(es[0]));
                    assert(r@ + canon_tail(es.skip(1)) =~= canon_of(es));
                } else {
                    assert(canon_tail(es.skip(i as int)) == seq![0x26u8] + pair_encoded(
                        es[i as int],
                    ) + canon_tail(es.skip(i + 1)));
                }
            }
        }
        proof {
            assert(es.skip(n as int) =~= Seq::<(Seq<u8>, Seq<u8>)>::empty());
            if n == 0 {
                assert(r@ =~= canon_of(es));
            } else {
                assert(r@ + canon_tail(es.skip(n as int)) =~= r@);
            }
            lemma_canon_of_entries(es, self@);
        }
        r
    }
}

/// Canonicalization is deterministic: however two sorted entry lists for
/// the same mapping came about, they render the same canonical string.
/// With the nonce and timestamp fixed in the mapping, the canonical
/// string is therefore byte-for-byte determined across repeated calls.
pub proof fn lemma_canonical_deterministic(
    e1: Seq<(Seq<u8>, Seq<u8>)>,
    e2: Seq<(Seq<u8>, Seq<u8>)>,
)
    requires
        wf_entries(e1),
        wf_entries(e2),
        to_map(e1) == to_map(e2),
    ensures
        canon_of(e1) == canon_of(e2),
{
    lemma_sorted_entries_unique(e1, e2);
}

/// Any strictly sorted entry list for a mapping is the one that
/// [`canon_of_map`] speaks of.
pub proof fn lemma_canon_of_entries(es: Seq<(Seq<u8>, Seq<u8>)>, m: Map<Seq<u8>, Seq<u8>>)
    requires
        wf_entries(es),
        to_map(es) == m,
    ensures
        sorted_entries_of(m) == es,
        canon_of_map(m) == canon_of(es),
{
    assert(wf_entries(es) && to_map(es) == m);
    let chosen = choose|e: Seq<(Seq<u8>, Seq<u8>)>| wf_entries(e) && to_map(e) == m;
    lemma_sorted_entries_unique(chosen, es);
}

} // verus!

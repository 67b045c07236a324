//! Ordered key listings of the relay's maps and sets.

use std::collections::{BTreeMap, BTreeSet};
use vstd::prelude::*;
use vstd::std_specs::btree::{spec_btree_keys_iter, spec_keys_iter};
use vstd::std_specs::iter::IteratorSpec;
use vstd::std_specs::cmp::OrdSpec;

verus! {

broadcast use {vstd::std_specs::btree::group_btree_axioms, vstd::laws_cmp::group_laws_cmp};

/// Keys strictly increase along `s`.
pub open spec fn strictly_increasing_u32(s: Seq<u32>) -> bool {
    forall|a: int, b: int| 0 <= a < b < s.len() ==> s[a] < s[b]
}

pub open spec fn strictly_increasing_u64(s: Seq<u64>) -> bool {
    forall|a: int, b: int| 0 <= a < b < s.len() ==> s[a] < s[b]
}

/// An increasing run of borrowed keys, read through the references.
proof fn lemma_increasing_refs_u32(r: Seq<&u32>)
    requires
        vstd::std_specs::btree::increasing_seq(r),
    ensures
        forall|a: int, b: int| 0 <= a < b < r.len() ==> *r[a] < *r[b],
{
    assert(vstd::laws_cmp::obeys_cmp::<u32>());
    assert(vstd::laws_cmp::obeys_cmp::<&u32>());
    vstd::std_specs::btree::axiom_increasing_seq_meaning::<&u32>(r);
    assert forall|a: int, b: int| 0 <= a < b < r.len() implies *r[a] < *r[b] by {
        assert(OrdSpec::cmp_spec(&r[a], &r[b]) is Less);
    }
}

/// Extending a prefix by one element adds exactly that element.
pub proof fn lemma_prefix_step_u32(s: Seq<u32>, i: int)
    requires
        0 <= i < s.len(),
    ensures
        forall|q: u32|
            #[trigger] s.subrange(0, i + 1).contains(q) <==> (s.subrange(0, i).contains(q) || q == s[i]),
{
    let a = s.subrange(0, i);
    let b = s.subrange(0, i + 1);
    assert(b =~= a.push(s[i]));
    assert forall|q: u32| #[trigger] b.contains(q) <==> (a.contains(q) || q == s[i]) by {
        if b.contains(q) {
            let m = choose|m: int| 0 <= m < b.len() && b[m] == q;
            if m < i {
                assert(a[m] == q);
            }
        }
        if a.contains(q) {
            let m = choose|m: int| 0 <= m < a.len() && a[m] == q;
            assert(b[m] == q);
        }
        if q == s[i] {
            assert(b[i] == q);
        }
    }
}

/// In a strictly increasing run, an element is not among those before it.
pub proof fn lemma_increasing_not_in_prefix_u32(s: Seq<u32>, i: int)
    requires
        0 <= i < s.len(),
        strictly_increasing_u32(s),
    ensures
        !s.subrange(0, i).contains(s[i]),
{
    if s.subrange(0, i).contains(s[i]) {
        let m = choose|m: int| 0 <= m < i && s.subrange(0, i)[m] == s[i];
        assert(s[m] < s[i]);
    }
}

/// The keys of a map in increasing order.
pub fn map_keys_u32<V>(m: &BTreeMap<u32, V>) -> (keys: Vec<u32>)
    ensures
        keys@.to_set() == m@.dom(),
        keys@.len() == m@.dom().len(),
        strictly_increasing_u32(keys@),
{
    let mut keys: Vec<u32> = Vec::new();
    for k in it: m.keys()
        invariant
            keys@ == it.seq().take(it.index() as int).unref(),
            it.seq() == spec_keys_iter(m).remaining(),
    {
        keys.push(*k);
        assert(keys@ =~= it.seq().take(it.index() + 1).unref());
    }
    proof {
        let r = spec_keys_iter(m).remaining();
        assert(keys@ =~= r.unref());
        lemma_increasing_refs_u32(r);
        assert forall|a: int, b: int| 0 <= a < b < keys@.len() implies keys@[a] < keys@[b] by {
            assert(keys@[a] == *r[a] && keys@[b] == *r[b]);
        }
    }
    keys
}

/// An increasing run of borrowed 64-bit keys, read through the references.
proof fn lemma_increasing_refs_u64(r: Seq<&u64>)
    requires
        vstd::std_specs::btree::increasing_seq(r),
    ensures
        forall|a: int, b: int| 0 <= a < b < r.len() ==> *r[a] < *r[b],
{
    assert(vstd::laws_cmp::obeys_cmp::<u64>());
    assert(vstd::laws_cmp::obeys_cmp::<&u64>());
    vstd::std_specs::btree::axiom_increasing_seq_meaning::<&u64>(r);
    assert forall|a: int, b: int| 0 <= a < b < r.len() implies *r[a] < *r[b] by {
        assert(OrdSpec::cmp_spec(&r[a], &r[b]) is Less);
    }
}

/// Extending a prefix by one element adds exactly that element.
pub proof fn lemma_prefix_step<T>(s: Seq<T>, i: int)
    requires
        0 <= i < s.len(),
    ensures
        forall|q: T|
            #[trigger] s.subrange(0, i + 1).contains(q) <==> (s.subrange(0, i).contains(q) || q == s[i]),
{
    let a = s.subrange(0, i);
    let b = s.subrange(0, i + 1);
    assert(b =~= a.push(s[i]));
    assert forall|q: T| #[trigger] b.contains(q) <==> (a.contains(q) || q == s[i]) by {
        if b.contains(q) {
            let m = choose|m: int| 0 <= m < b.len() && b[m] == q;
            if m < i {
                assert(a[m] == q);
            }
        }
        if a.contains(q) {
            let m = choose|m: int| 0 <= m < a.len() && a[m] == q;
            assert(b[m] == q);
        }
        if q == s[i] {
            assert(b[i] == q);
        }
    }
}

/// In a strictly increasing run, an element is not among those before it.
pub proof fn lemma_increasing_not_in_prefix_u64(s: Seq<u64>, i: int)
    requires
        0 <= i < s.len(),
        strictly_increasing_u64(s),
    ensures
        !s.subrange(0, i).contains(s[i]),
{
    if s.subrange(0, i).contains(s[i]) {
        let m = choose|m: int| 0 <= m < i && s.subrange(0, i)[m] == s[i];
        assert(s[m] < s[i]);
    }
}

/// The keys of a map with 64-bit keys, in increasing order.
pub fn map_keys_u64<V>(m: &BTreeMap<u64, V>) -> (keys: Vec<u64>)
    ensures
        keys@.to_set() == m@.dom(),
        keys@.len() == m@.dom().len(),
        strictly_increasing_u64(keys@),
{
    let mut keys: Vec<u64> = Vec::new();
    for k in it: m.keys()
        invariant
            keys@ == it.seq().take(it.index() as int).unref(),
            it.seq() == spec_keys_iter(m).remaining(),
    {
        keys.push(*k);
        assert(keys@ =~= it.seq().take(it.index() + 1).unref());
    }
    proof {
        let r = spec_keys_iter(m).remaining();
        assert(keys@ =~= r.unref());
        lemma_increasing_refs_u64(r);
        assert forall|a: int, b: int| 0 <= a < b < keys@.len() implies keys@[a] < keys@[b] by {
            assert(keys@[a] == *r[a] && keys@[b] == *r[b]);
        }
    }
    keys
}

/// The members of a set of 64-bit values, in increasing order.
pub fn set_members_u64(m: &BTreeSet<u64>) -> (members: Vec<u64>)
    ensures
        members@.to_set() == m@,
        members@.len() == m@.len(),
        strictly_increasing_u64(members@),
{
    let mut members: Vec<u64> = Vec::new();
    for k in it: m.iter()
        invariant
            members@ == it.seq().take(it.index() as int).unref(),
            it.seq() == spec_btree_keys_iter(m).remaining(),
    {
        members.push(*k);
        assert(members@ =~= it.seq().take(it.index() + 1).unref());
    }
    proof {
        let r = spec_btree_keys_iter(m).remaining();
        assert(members@ =~= r.unref());
        lemma_increasing_refs_u64(r);
        assert forall|a: int, b: int| 0 <= a < b < members@.len() implies members@[a] < members@[b] by {
            assert(members@[a] == *r[a] && members@[b] == *r[b]);
        }
    }
    members
}

} // verus!

//! The keys of ordered maps and sets as sequences.

use std::collections::{BTreeMap, BTreeSet};
use vstd::prelude::*;
use vstd::std_specs::cmp::OrdSpec;
use vstd::std_specs::iter::IteratorSpec;

use super::block::Compound;

verus! {

/// The members of `s` below `n` from the least up.
pub open spec fn members_below(s: Set<u32>, n: nat) -> Seq<u32>
    decreases n,
{
    if n == 0 {
        Seq::empty()
    } else {
        let before = members_below(s, (n - 1) as nat);
        let k = (n - 1) as u32;
        if s.contains(k) {
            before.push(k)
        } else {
            before
        }
    }
}

/// The members of `s` from the least up.
pub open spec fn ascending(s: Set<u32>) -> Seq<u32> {
    members_below(s, 0x1_0000_0000)
}

/// Whether each number is greater than those before it.
pub open spec fn rising(v: Seq<u32>) -> bool {
    forall|i: int, j: int| 0 <= i < j < v.len() ==> v[i] < v[j]
}

/// `members_below` rises and holds the members below the bound.
proof fn lemma_members_below(s: Set<u32>, n: nat)
    requires
        n <= 0x1_0000_0000,
    ensures
        rising(members_below(s, n)),
        forall|k: u32|
            #[trigger] members_below(s, n).contains(k) <==> (s.contains(k) && k < n),
    decreases n,
{
    if n > 0 {
        let before = members_below(s, (n - 1) as nat);
        let all = members_below(s, n);
        let m = (n - 1) as u32;
        lemma_members_below(s, (n - 1) as nat);
        assert forall|i: int, j: int| 0 <= i < j < all.len() implies all[i] < all[j] by {
            assert(i < before.len());
            assert(before.contains(before[i]));
            if j < before.len() {
                assert(before[i] < before[j]);
            }
        }
        assert forall|k: u32| #[trigger] all.contains(k) <==> (s.contains(k) && k < n) by {
            if all.contains(k) {
                let i = choose|i: int| 0 <= i < all.len() && all[i] == k;
                if i < before.len() {
                    assert(before[i] == k);
                    assert(before.contains(k));
                }
            }
            if s.contains(k) && k < n {
                if k == m {
                    assert(all[before.len() as int] == k);
                } else {
                    assert(before.contains(k));
                    let i = choose|i: int| 0 <= i < before.len() && before[i] == k;
                    assert(all[i] == k);
                }
            }
        }
    }
}

/// Rising sequences with the same members are the same.
proof fn lemma_rising_unique(a: Seq<u32>, b: Seq<u32>)
    requires
        rising(a),
        rising(b),
        forall|k: u32| a.contains(k) <==> b.contains(k),
    ensures
        a == b,
    decreases a.len(),
{
    if a.len() == 0 {
        if b.len() > 0 {
            assert(b.contains(b[0]));
        }
        assert(a =~= b);
    } else {
        assert(a.contains(a.last()));
        assert(b.len() > 0);
        assert(b.contains(b.last()));
        assert(a.contains(b.last()));
        assert(b.contains(a.last()));
        let i = choose|i: int| 0 <= i < a.len() && a[i] == b.last();
        let j = choose|j: int| 0 <= j < b.len() && b[j] == a.last();
        assert(a.last() == b.last()) by {
            if i < a.len() - 1 {
                assert(a[i] < a[a.len() - 1]);
            }
            if j < b.len() - 1 {
                assert(b[j] < b[b.len() - 1]);
            }
        }
        let x = a.drop_last();
        let y = b.drop_last();
        assert forall|k: u32| x.contains(k) <==> y.contains(k) by {
            lemma_without_last(a, k);
            lemma_without_last(b, k);
        }
        lemma_rising_unique(x, y);
        assert(a =~= x.push(a.last()));
        assert(b =~= y.push(b.last()));
    }
}

/// Dropping the last of a rising sequence drops just that member.
proof fn lemma_without_last(v: Seq<u32>, k: u32)
    requires
        rising(v),
        v.len() > 0,
    ensures
        v.drop_last().contains(k) <==> (v.contains(k) && k != v.last()),
{
    let w = v.drop_last();
    if w.contains(k) {
        let i = choose|i: int| 0 <= i < w.len() && w[i] == k;
        assert(v[i] == k);
        assert(v[i] < v[v.len() - 1]);
    }
    if v.contains(k) && k != v.last() {
        let i = choose|i: int| 0 <= i < v.len() && v[i] == k;
        assert(w[i] == k);
    }
}

/// A rising sequence of the members of `s` is `ascending(s)`.
pub proof fn lemma_ascending_unique(s: Set<u32>, v: Seq<u32>)
    requires
        rising(v),
        forall|k: u32| v.contains(k) <==> s.contains(k),
    ensures
        v == ascending(s),
{
    lemma_members_below(s, 0x1_0000_0000);
    lemma_rising_unique(v, ascending(s));
}

/// `ascending(s)` rises and holds the members of `s`.
pub proof fn lemma_ascending(s: Set<u32>)
    ensures
        rising(ascending(s)),
        forall|k: u32| #[trigger] ascending(s).contains(k) <==> s.contains(k),
{
    lemma_members_below(s, 0x1_0000_0000);
}

/// `u32` keys are ordered as ordered maps and sets need it.
pub proof fn lemma_ordered_keys()
    ensures
        vstd::laws_cmp::obeys_cmp::<u32>(),
{
    broadcast use vstd::laws_cmp::group_laws_cmp;

}

/// The keys of the map from the least up.
pub fn map_keys(m: &BTreeMap<u32, Compound>) -> (r: Vec<u32>)
    ensures
        r@ == ascending(m@.dom()),
{
    broadcast use {vstd::std_specs::btree::group_btree_axioms, vstd::laws_cmp::group_laws_cmp};

    let mut keys: Vec<u32> = Vec::new();
    for kv in it: m.iter()
        invariant
            keys@.len() == it.index(),
            forall|i: int| 0 <= i < keys@.len() ==> keys@[i] == *(#[trigger] it.seq()[i]).0,
    {
        keys.push(*kv.0);
    }
    proof {
        let all = vstd::std_specs::btree::spec_btree_map_iter(m).remaining();
        assert(keys@ =~= all.map_values(|kv: (&u32, &Compound)| *kv.0));
        assert forall|i: int, j: int| 0 <= i < j < keys@.len() implies keys@[i] < keys@[j] by {
            assert(keys@[i].cmp_spec(&keys@[j]) is Less);
        }
        assert forall|k: u32| keys@.contains(k) <==> m@.dom().contains(k) by {
            if keys@.contains(k) {
                let i = choose|i: int| 0 <= i < keys@.len() && keys@[i] == k;
                assert(m@.contains_key(*all[i].0));
            }
            if m@.contains_key(k) {
                assert(all.contains((&k, &m@[k])));
                let i = choose|i: int| 0 <= i < all.len() && all[i] == (&k, &m@[k]);
                assert(keys@[i] == k);
            }
        }
        lemma_ascending_unique(m@.dom(), keys@);
    }
    keys
}

/// The members of the set from the least up.
pub fn set_keys(s: &BTreeSet<u32>) -> (r: Vec<u32>)
    ensures
        r@ == ascending(s@),
{
    broadcast use {vstd::std_specs::btree::group_btree_axioms, vstd::laws_cmp::group_laws_cmp};

    let mut keys: Vec<u32> = Vec::new();
    for k in it: s.iter()
        invariant
            keys@.len() == it.index(),
            forall|i: int| 0 <= i < keys@.len() ==> keys@[i] == *(#[trigger] it.seq()[i]),
    {
        keys.push(*k);
    }
    proof {
        let all = vstd::std_specs::btree::spec_btree_keys_iter(s).remaining();
        assert(keys@ =~= all.unref());
        assert(vstd::laws_cmp::obeys_cmp::<&u32>());
        assert(vstd::std_specs::btree::increasing_seq(all));
        assert forall|i: int, j: int| 0 <= i < j < keys@.len() implies keys@[i] < keys@[j] by {
            assert(OrdSpec::cmp_spec(&all[i], &all[j]) is Less);
        }
        assert forall|k: u32| keys@.contains(k) <==> s@.contains(k) by {
            assert(all.unref().to_set().contains(k) <==> s@.contains(k));
        }
        lemma_ascending_unique(s@, keys@);
    }
    keys
}

} // verus!

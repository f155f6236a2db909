//! Tables in ascending order of their keys.
use std::collections::BTreeMap;
use vstd::prelude::*;
use vstd::std_specs::btree::increasing_seq;
use vstd::std_specs::cmp::OrdSpec;
use vstd::std_specs::iter::IteratorSpec;

verus! {

broadcast use vstd::std_specs::btree::group_btree_axioms;

/// `keys` lists the members of `set` in ascending order.
pub open spec fn lists(keys: Seq<u64>, set: Set<u64>) -> bool {
    &&& forall|i: int, j: int| 0 <= i < j < keys.len() ==> keys[i] < keys[j]
    &&& forall|i: int| 0 <= i < keys.len() ==> set.contains(#[trigger] keys[i])
    &&& forall|k: u64| #[trigger] set.contains(k) ==> keys.contains(k)
}

/// The members of `set` below `bound`, in ascending order.
pub open spec fn members_below(set: Set<u64>, bound: nat) -> Seq<u64>
    decreases bound,
{
    if bound == 0 {
        Seq::empty()
    } else {
        let k = (bound - 1) as u64;
        if bound <= 0x1_0000_0000_0000_0000 && set.contains(k) {
            members_below(set, (bound - 1) as nat).push(k)
        } else {
            members_below(set, (bound - 1) as nat)
        }
    }
}

/// The members of a set in ascending order.
pub open spec fn ascending(set: Set<u64>) -> Seq<u64> {
    members_below(set, 0x1_0000_0000_0000_0000)
}

/// Below a bound, the listing is ascending and complete.
proof fn lemma_members_below(set: Set<u64>, bound: nat)
    requires
        bound <= 0x1_0000_0000_0000_0000,
    ensures
        lists(members_below(set, bound), set.filter(|k: u64| k < bound)),
    decreases bound,
{
    let all = set.filter(|k: u64| k < bound);
    let keys = members_below(set, bound);
    if bound > 0 {
        let less = (bound - 1) as nat;
        lemma_members_below(set, less);
        let before = set.filter(|k: u64| k < less);
        let front = members_below(set, less);
        assert forall|i: int| 0 <= i < front.len() implies front[i] < less by {
            assert(before.contains(front[i]));
        }
        assert forall|k: u64| #[trigger] all.contains(k) implies keys.contains(k) by {
            if k < less {
                assert(before.contains(k));
                assert(front.contains(k));
                let i = choose|i: int| 0 <= i < front.len() && front[i] == k;
                assert(keys[i] == k);
            } else {
                assert(keys.last() == k);
            }
        }
        assert forall|i: int| 0 <= i < keys.len() implies all.contains(#[trigger] keys[i]) by {
            if i < front.len() {
                assert(before.contains(front[i]));
            }
        }
    }
}

/// [`ascending`] is ascending and complete.
pub proof fn lemma_ascending(set: Set<u64>)
    ensures
        lists(ascending(set), set),
{
    lemma_members_below(set, 0x1_0000_0000_0000_0000);
    assert(set.filter(|k: u64| k < 0x1_0000_0000_0000_0000) =~= set);
}

/// There is one ascending order only.
proof fn lemma_one_ascending_order(a: Seq<u64>, b: Seq<u64>, set: Set<u64>)
    requires
        lists(a, set),
        lists(b, set),
    ensures
        a == b,
    decreases a.len(),
{
    if a.len() == 0 {
        if b.len() > 0 {
            assert(set.contains(b[0]));
        }
        assert(a =~= b);
    } else {
        assert(set.contains(a.last()));
        assert(b.contains(a.last()));
        assert(set.contains(b.last()));
        assert(a.contains(b.last()));
        let i = choose|i: int| 0 <= i < b.len() && b[i] == a.last();
        let j = choose|j: int| 0 <= j < a.len() && a[j] == b.last();
        if i < b.len() - 1 {
            assert(b[i] < b[b.len() - 1]);
        }
        if j < a.len() - 1 {
            assert(a[j] < a[a.len() - 1]);
        }
        let x = a.last();
        let rest = set.remove(x);
        let a2 = a.drop_last();
        let b2 = b.drop_last();
        assert forall|k: u64| #[trigger] rest.contains(k) implies a2.contains(k) && b2.contains(
            k,
        ) by {
            assert(a.contains(k) && b.contains(k));
            let p = choose|p: int| 0 <= p < a.len() && a[p] == k;
            let q = choose|q: int| 0 <= q < b.len() && b[q] == k;
            assert(a2[p] == k);
            assert(b2[q] == k);
        }
        assert(lists(a2, rest));
        assert(lists(b2, rest));
        lemma_one_ascending_order(a2, b2, rest);
        assert(a =~= a2.push(x));
        assert(b =~= b2.push(x));
    }
}

/// The keys of a table in ascending order.
pub fn keys_of<V>(m: &BTreeMap<u64, V>) -> (r: Vec<u64>)
    ensures
        lists(r@, m@.dom()),
        r@ == ascending(m@.dom()),
{
    let mut out: Vec<u64> = Vec::new();
    let pairs = m.iter();
    let ghost entries = pairs.remaining();
    let ghost keys = entries.map_values(|kv: (&u64, &V)| *kv.0);
    assert(increasing_seq(keys));
    for kv in it: pairs
        invariant
            it.seq() == entries,
            out@.len() == it.index(),
            forall|i: int| 0 <= i < out@.len() ==> out@[i] == *entries[i].0,
    {
        out.push(*kv.0);
    }
    assert(out@ =~= keys);
    assert forall|i: int, j: int| 0 <= i < j < keys.len() implies keys[i] < keys[j] by {
        assert(keys[i].cmp_spec(&keys[j]) is Less);
    }
    assert forall|i: int| 0 <= i < keys.len() implies m@.dom().contains(#[trigger] keys[i]) by {
        assert(m@.contains_key(*entries[i].0));
    }
    assert forall|k: u64| #[trigger] m@.dom().contains(k) implies keys.contains(k) by {
        assert(m@.contains_key(k));
        assert(entries.contains((&k, &m@[k])));
        let i = choose|i: int| 0 <= i < entries.len() && entries[i] == (&k, &m@[k]);
        assert(keys[i] == k);
    }
    assert(lists(out@, m@.dom()));
    proof {
        lemma_ascending(m@.dom());
        lemma_one_ascending_order(out@, ascending(m@.dom()), m@.dom());
    }
    out
}

} // verus!

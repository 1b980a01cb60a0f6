//! Walking a map with numeric keys in key order.

use std::collections::BTreeMap;
use vstd::prelude::*;
use vstd::std_specs::btree::{increasing_seq, spec_btree_map_iter};
use vstd::std_specs::cmp::OrdSpec;
use vstd::std_specs::iter::IteratorSpec;

verus! {

/// Every key of the sequence is smaller than the ones after it.
pub open spec fn ascending(keys: Seq<u64>) -> bool {
    forall|i: int, j: int| 0 <= i < j < keys.len() ==> keys[i] < keys[j]
}

/// `keys` lists exactly the members of `set`, each once, smallest first.
pub open spec fn enumerates(keys: Seq<u64>, set: Set<u64>) -> bool {
    &&& ascending(keys)
    &&& forall|key: u64| keys.contains(key) <==> set.contains(key)
}

/// A set of keys has only one ascending enumeration.
pub proof fn lemma_enumeration_unique(a: Seq<u64>, b: Seq<u64>, set: Set<u64>)
    requires
        enumerates(a, set),
        enumerates(b, set),
    ensures
        a == b,
    decreases a.len(),
{
    if a.len() == 0 {
        if b.len() > 0 {
            assert(b.contains(b[0]));
            assert(a.contains(b[0]));
        }
        assert(a =~= b);
    } else {
        assert(a.contains(a[0]));
        assert(b.contains(a[0]));
        assert(b.len() > 0);
        assert(b.contains(b[0]));
        assert(a.contains(b[0]));
        let i = choose|i: int| 0 <= i < b.len() && b[i] == a[0];
        let j = choose|j: int| 0 <= j < a.len() && a[j] == b[0];
        assert(a[0] == b[0]);
        let rest = set.remove(a[0]);
        let ta = a.drop_first();
        let tb = b.drop_first();
        assert forall|key: u64| ta.contains(key) <==> rest.contains(key) by {
            if ta.contains(key) {
                let k = choose|k: int| 0 <= k < ta.len() && ta[k] == key;
                assert(a[k + 1] == key);
                assert(a.contains(key));
            }
            if rest.contains(key) {
                assert(a.contains(key));
                let k = choose|k: int| 0 <= k < a.len() && a[k] == key;
                assert(ta[k - 1] == key);
            }
        }
        assert forall|key: u64| tb.contains(key) <==> rest.contains(key) by {
            if tb.contains(key) {
                let k = choose|k: int| 0 <= k < tb.len() && tb[k] == key;
                assert(b[k + 1] == key);
                assert(b.contains(key));
            }
            if rest.contains(key) {
                assert(b.contains(key));
                let k = choose|k: int| 0 <= k < b.len() && b[k] == key;
                assert(tb[k - 1] == key);
            }
        }
        assert(ascending(ta)) by {
            assert forall|x: int, y: int| 0 <= x < y < ta.len() implies ta[x] < ta[y] by {
                assert(a[x + 1] < a[y + 1]);
            }
        }
        assert(ascending(tb)) by {
            assert forall|x: int, y: int| 0 <= x < y < tb.len() implies tb[x] < tb[y] by {
                assert(b[x + 1] < b[y + 1]);
            }
        }
        lemma_enumeration_unique(ta, tb, rest);
        assert(a =~= seq![a[0]] + ta);
        assert(b =~= seq![b[0]] + tb);
    }
}

/// The keys of a map, smallest first.
pub fn keys_in_order<V>(map: &BTreeMap<u64, V>) -> (keys: Vec<u64>)
    ensures
        enumerates(keys@, map@.dom()),
{
    let mut keys: Vec<u64> = Vec::new();
    for entry in it: map.iter()
        invariant
            keys@.len() == it.index(),
            forall|i: int| 0 <= i < keys@.len() ==> keys@[i] == *(#[trigger] it.seq()[i]).0,
            it.seq() == spec_btree_map_iter(map).remaining(),
    {
        keys.push(*entry.0);
    }
    proof {
        let entries = spec_btree_map_iter(map).remaining();
        let listed = entries.map_values(|kv: (&u64, &V)| *kv.0);
        assert(increasing_seq(listed));
        assert(keys@ =~= listed);
        assert forall|i: int, j: int| 0 <= i < j < keys@.len() implies keys@[i] < keys@[j] by {
            assert(listed[i].cmp_spec(&listed[j]) is Less);
        }
        assert forall|key: u64| keys@.contains(key) <==> map@.dom().contains(key) by {
            if keys@.contains(key) {
                let i = choose|i: int| 0 <= i < keys@.len() && keys@[i] == key;
                assert(map@.contains_key(*entries[i].0));
            }
            if map@.contains_key(key) {
                assert(entries.contains((&key, &map@[key])));
                let i = choose|i: int| 0 <= i < entries.len() && entries[i] == (&key, &map@[key]);
                assert(keys@[i] == key);
            }
        }
    }
    keys
}

} // verus!

//! Maps by port number, read in the order of the ports.
use std::collections::BTreeMap;
use vstd::prelude::*;
use vstd::std_specs::btree::increasing_seq;
use vstd::std_specs::cmp::OrdSpec;
use vstd::std_specs::iter::IteratorSpec;

verus! {

broadcast use vstd::std_specs::btree::group_btree_axioms;

/// The keys of a map, rising.
pub open spec fn is_key_list<V>(keys: Seq<u16>, m: Map<u16, V>) -> bool {
    &&& forall|i: int, j: int| 0 <= i < j < keys.len() ==> #[trigger] keys[i] < #[trigger] keys[j]
    &&& forall|k: u16| m.contains_key(k) <==> #[trigger] keys.contains(k)
}

/// There is only one list of the keys.
pub proof fn key_list_is_unique<V>(a: Seq<u16>, b: Seq<u16>, m: Map<u16, V>)
    requires
        is_key_list(a, m),
        is_key_list(b, m),
    ensures
        a == b,
    decreases a.len(),
{
    if a.len() == 0 {
        if b.len() > 0 {
            assert(b.contains(b[0]));
            assert(a.contains(b[0]));
        }
        assert(a =~= b);
    } else {
        assert(a.contains(a[0]));
        assert(b.contains(a[0]));
        assert(b.contains(b[0]));
        assert(a.contains(b[0]));
        let i = choose|i: int| 0 <= i < b.len() && b[i] == a[0];
        let j = choose|j: int| 0 <= j < a.len() && a[j] == b[0];
        assert(a[0] == b[0]);
        let rest = m.remove(a[0]);
        let x = a.drop_first();
        let y = b.drop_first();
        assert forall|k: u16| rest.contains_key(k) <==> #[trigger] x.contains(k) by {
            if rest.contains_key(k) {
                assert(a.contains(k));
                let n = choose|n: int| 0 <= n < a.len() && a[n] == k;
                assert(x[n - 1] == k);
            }
            if x.contains(k) {
                let n = choose|n: int| 0 <= n < x.len() && x[n] == k;
                assert(a[n + 1] == k);
                assert(a.contains(k));
            }
        }
        assert forall|k: u16| rest.contains_key(k) <==> #[trigger] y.contains(k) by {
            if rest.contains_key(k) {
                assert(b.contains(k));
                let n = choose|n: int| 0 <= n < b.len() && b[n] == k;
                assert(y[n - 1] == k);
            }
            if y.contains(k) {
                let n = choose|n: int| 0 <= n < y.len() && y[n] == k;
                assert(b[n + 1] == k);
                assert(b.contains(k));
            }
        }
        key_list_is_unique(x, y, rest);
        assert(a =~= seq![a[0]] + x);
        assert(b =~= seq![b[0]] + y);
    }
}

/// The keys of a map, rising.
pub fn keys_of<V>(m: &BTreeMap<u16, V>) -> (r: Vec<u16>)
    ensures
        is_key_list(r@, m@),
{
    let entries = m.iter();
    let ghost all = entries.remaining();
    let ghost rising = all.map_values(|kv: (&u16, &V)| *kv.0);
    assert(increasing_seq(rising));
    let mut keys: Vec<u16> = Vec::new();
    for kv in it: entries
        invariant
            it.seq() == all,
            keys@.len() == it.index(),
            forall|i: int| 0 <= i < keys@.len() ==> keys@[i] == *all[i].0,
    {
        keys.push(*kv.0);
    }
    proof {
        assert(keys@ =~= rising);
        assert forall|i: int, j: int| 0 <= i < j < keys@.len() implies #[trigger] keys@[i]
            < #[trigger] keys@[j] by {
            assert(rising[i].cmp_spec(&rising[j]) is Less);
        }
        assert forall|k: u16| m@.contains_key(k) <==> #[trigger] keys@.contains(k) by {
            if m@.contains_key(k) {
                assert(all.contains((&k, &m@[k])));
                let i = choose|i: int| 0 <= i < all.len() && all[i] == (&k, &m@[k]);
                assert(keys@[i] == k);
            }
            if keys@.contains(k) {
                let i = choose|i: int| 0 <= i < keys@.len() && keys@[i] == k;
                assert(m@.contains_key(*all[i].0));
            }
        }
    }
    keys
}

} // verus!

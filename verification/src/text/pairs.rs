//! Keys and values in the order of the keys, each key once.
use crate::text::chars::same;
use crate::text::order::{before, precedes, precedes_total, precedes_transitive};
use vstd::prelude::*;

verus! {

/// The keys rise.
pub open spec fn keys_in_order(pairs: Seq<(String, String)>) -> bool {
    forall|i: int, j: int|
        0 <= i < j < pairs.len() ==> precedes((#[trigger] pairs[i]).0@, (#[trigger] pairs[j]).0@)
}

/// The place of the key.
pub open spec fn key_index(pairs: Seq<(String, String)>, key: Seq<char>) -> Option<int>
    decreases pairs.len(),
{
    if pairs.len() == 0 {
        None
    } else if pairs[0].0@ == key {
        Some(0)
    } else {
        match key_index(pairs.drop_first(), key) {
            Some(i) => Some(i + 1),
            None => None,
        }
    }
}

/// The place of the first later key.
pub open spec fn key_slot(pairs: Seq<(String, String)>, key: Seq<char>) -> int
    decreases pairs.len(),
{
    if pairs.len() == 0 || precedes(key, pairs[0].0@) {
        0
    } else {
        1 + key_slot(pairs.drop_first(), key)
    }
}

/// The pairs once the key has the value.
pub open spec fn with_pair(pairs: Seq<(String, String)>, pair: (String, String)) -> Seq<
    (String, String),
> {
    match key_index(pairs, pair.0@) {
        Some(i) => pairs.update(i, pair),
        None => pairs.insert(key_slot(pairs, pair.0@), pair),
    }
}

/// The pairs once the key is gone.
pub open spec fn without_key(pairs: Seq<(String, String)>, key: Seq<char>) -> Seq<
    (String, String),
> {
    match key_index(pairs, key) {
        Some(i) => pairs.remove(i),
        None => pairs,
    }
}

/// The place found holds the key, and no earlier one does.
pub proof fn key_index_is_first(pairs: Seq<(String, String)>, key: Seq<char>)
    ensures
        key_index(pairs, key) matches Some(i) ==> 0 <= i < pairs.len() && pairs[i].0@ == key,
        key_index(pairs, key) is None ==> (forall|j: int|
            0 <= j < pairs.len() ==> (#[trigger] pairs[j]).0@ != key),
    decreases pairs.len(),
{
    if pairs.len() > 0 && pairs[0].0@ != key {
        let rest = pairs.drop_first();
        key_index_is_first(rest, key);
        assert forall|j: int| 0 < j < pairs.len() implies pairs[j] == rest[j - 1] by {}
    }
}

proof fn key_slot_bounds(pairs: Seq<(String, String)>, key: Seq<char>)
    ensures
        0 <= key_slot(pairs, key) <= pairs.len(),
        forall|i: int| 0 <= i < key_slot(pairs, key) ==> !precedes(key, (#[trigger] pairs[i]).0@),
        key_slot(pairs, key) < pairs.len() ==> precedes(key, pairs[key_slot(pairs, key)].0@),
    decreases pairs.len(),
{
    if pairs.len() > 0 && !precedes(key, pairs[0].0@) {
        let rest = pairs.drop_first();
        key_slot_bounds(rest, key);
        assert forall|i: int| 0 < i < pairs.len() implies pairs[i] == rest[i - 1] by {}
    }
}

fn find_key(pairs: &Vec<(String, String)>, key: &str) -> (r: Option<usize>)
    ensures
        r matches Some(i) ==> key_index(pairs@, key@) == Some(i as int) && i < pairs@.len(),
        r is None ==> key_index(pairs@, key@) is None,
{
    let mut i: usize = 0;
    assert(pairs@.skip(0) =~= pairs@);
    while i < pairs.len()
        invariant
            i <= pairs.len(),
            key_index(pairs@, key@) == match key_index(pairs@.skip(i as int), key@) {
                Some(k) => Some(k + i),
                None => None,
            },
        decreases pairs.len() - i,
    {
        assert(pairs@.skip(i as int).drop_first() =~= pairs@.skip(i + 1));
        if same(pairs[i].0.as_str(), key) {
            return Some(i);
        }
        i += 1;
    }
    None
}

/// Gives the key the value.
pub fn set_pair(pairs: &mut Vec<(String, String)>, key: String, value: String)
    requires
        old(pairs)@.len() < usize::MAX,
    ensures
        final(pairs)@ == with_pair(old(pairs)@, (key, value)),
{
    match find_key(pairs, key.as_str()) {
        Some(i) => {
            pairs.set(i, (key, value));
        },
        None => {
            let ghost all = pairs@;
            let ghost k = key@;
            let mut i: usize = 0;
            assert(all.skip(0) =~= all);
            while i < pairs.len() && !before(key.as_str(), pairs[i].0.as_str())
                invariant
                    i <= pairs.len(),
                    pairs@ == all,
                    k == key@,
                    key_slot(all, k) == i + key_slot(all.skip(i as int), k),
                decreases pairs.len() - i,
            {
                assert(all.skip(i as int).drop_first() =~= all.skip(i + 1));
                i += 1;
            }
            pairs.insert(i, (key, value));
        },
    }
}

/// Removes the key.
pub fn remove_key(pairs: &mut Vec<(String, String)>, key: &str)
    ensures
        final(pairs)@ == without_key(old(pairs)@, key@),
{
    if let Some(i) = find_key(pairs, key) {
        let _gone = pairs.remove(i);
    }
}

/// The keys stay in order, each once, when one gets a value.
pub proof fn with_pair_stays_in_order(pairs: Seq<(String, String)>, pair: (String, String))
    requires
        keys_in_order(pairs),
    ensures
        keys_in_order(with_pair(pairs, pair)),
{
    key_index_is_first(pairs, pair.0@);
    key_slot_bounds(pairs, pair.0@);
    let after = with_pair(pairs, pair);
    if key_index(pairs, pair.0@) is None {
        let k = key_slot(pairs, pair.0@);
        assert forall|i: int, j: int| 0 <= i < j < after.len() implies precedes(
            (#[trigger] after[i]).0@,
            (#[trigger] after[j]).0@,
        ) by {
            if i == k {
                if j - 1 > k {
                    precedes_transitive(pair.0@, pairs[k].0@, pairs[j - 1].0@);
                }
            } else if j == k {
                precedes_total(pairs[i].0@, pair.0@);
            } else {
                let a = if i < k {
                    i
                } else {
                    i - 1
                };
                let b = if j < k {
                    j
                } else {
                    j - 1
                };
                assert(after[i] == pairs[a] && after[j] == pairs[b]);
            }
        }
    }
}

/// The keys stay in order when one goes.
pub proof fn without_key_stays_in_order(pairs: Seq<(String, String)>, key: Seq<char>)
    requires
        keys_in_order(pairs),
    ensures
        keys_in_order(without_key(pairs, key)),
        key_index(without_key(pairs, key), key) is None,
{
    key_index_is_first(pairs, key);
    let after = without_key(pairs, key);
    match key_index(pairs, key) {
        Some(k) => {
            assert forall|i: int| 0 <= i < after.len() implies #[trigger] after[i] == (if i < k {
                pairs[i]
            } else {
                pairs[i + 1]
            }) by {}
            assert forall|j: int| 0 <= j < after.len() implies (#[trigger] after[j]).0@ != key by {
                let n = if j < k {
                    j
                } else {
                    j + 1
                };
                if n < k {
                    precedes_total(pairs[n].0@, pairs[k].0@);
                } else {
                    precedes_total(pairs[k].0@, pairs[n].0@);
                }
            }
            key_index_is_first(after, key);
        },
        None => {},
    }
}

/// There is at most one pair more.
pub proof fn with_pair_len(pairs: Seq<(String, String)>, pair: (String, String))
    ensures
        pairs.len() <= with_pair(pairs, pair).len() <= pairs.len() + 1,
{
    key_slot_bounds(pairs, pair.0@);
    key_index_is_first(pairs, pair.0@);
}

} // verus!

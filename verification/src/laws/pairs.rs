//! Keys and their values: what is said last counts.
use crate::browser::forms::{default_pairs, filled_in};
use crate::browser::page::FormField;
use crate::cli::commands::{field_pair, field_pairs, first_bad_field, is_field};
use crate::text::pairs::{key_index, key_index_is_first, key_slot, with_pair, without_key};
use vstd::prelude::*;

verus! {

/// Some key of the pairs, with its value.
pub open spec fn holds_pair(
    pairs: Seq<(String, String)>,
    key: Seq<char>,
    value: Seq<char>,
) -> bool {
    exists|i: int| 0 <= i < pairs.len() && (#[trigger] pairs[i]).0@ == key && pairs[i].1@ == value
}

/// A key occurs once at most.
pub open spec fn keys_differ(pairs: Seq<(String, String)>) -> bool {
    forall|i: int, j: int|
        0 <= i < j < pairs.len() ==> (#[trigger] pairs[i]).0@ != (#[trigger] pairs[j]).0@
}

proof fn slot_is_within(pairs: Seq<(String, String)>, key: Seq<char>)
    ensures
        0 <= key_slot(pairs, key) <= pairs.len(),
    decreases pairs.len(),
{
    if pairs.len() > 0 {
        slot_is_within(pairs.drop_first(), key);
    }
}

/// A key that is set has the value and no other; what stands under other keys stays.
pub proof fn setting_a_pair(
    pairs: Seq<(String, String)>,
    pair: (String, String),
    key: Seq<char>,
    value: Seq<char>,
)
    requires
        keys_differ(pairs),
    ensures
        keys_differ(with_pair(pairs, pair)),
        key == pair.0@ ==> (holds_pair(with_pair(pairs, pair), key, value) <==> value == pair.1@),
        key != pair.0@ ==> (holds_pair(with_pair(pairs, pair), key, value) <==> holds_pair(
            pairs,
            key,
            value,
        )),
{
    let k = pair.0@;
    let after = with_pair(pairs, pair);
    key_index_is_first(pairs, k);
    slot_is_within(pairs, k);
    match key_index(pairs, k) {
        Some(p) => {
            assert(after == pairs.update(p, pair));
            assert(after[p] == pair);
            assert forall|j: int| 0 <= j < after.len() && j != p implies (
            #[trigger] after[j]).0@ != k by {
                assert(after[j] == pairs[j]);
                assert(pairs[p].0@ == k);
            }
            assert forall|i: int, j: int| 0 <= i < j < after.len() implies (
            #[trigger] after[i]).0@ != (#[trigger] after[j]).0@ by {
                assert(i != p ==> after[i] == pairs[i]);
                assert(j != p ==> after[j] == pairs[j]);
            }
            if holds_pair(pairs, key, value) && key != k {
                let j = choose|j: int|
                    0 <= j < pairs.len() && (#[trigger] pairs[j]).0@ == key && pairs[j].1@ == value;
                assert(after[j] == pairs[j]);
            }
            if holds_pair(after, key, value) && key != k {
                let j = choose|j: int|
                    0 <= j < after.len() && (#[trigger] after[j]).0@ == key && after[j].1@ == value;
                assert(after[j] == pairs[j]);
            }
        },
        None => {
            let s = key_slot(pairs, k);
            assert(after == pairs.insert(s, pair));
            assert(after[s] == pair);
            assert forall|j: int| 0 <= j < after.len() && j != s implies #[trigger] after[j]
                == pairs[if j < s {
                j
            } else {
                j - 1
            }] by {}
            assert forall|j: int| 0 <= j < after.len() && j != s implies (
            #[trigger] after[j]).0@ != k by {}
            assert forall|i: int, j: int| 0 <= i < j < after.len() implies (
            #[trigger] after[i]).0@ != (#[trigger] after[j]).0@ by {}
            if holds_pair(pairs, key, value) {
                let j = choose|j: int|
                    0 <= j < pairs.len() && (#[trigger] pairs[j]).0@ == key && pairs[j].1@ == value;
                if j < s {
                    assert(after[j] == pairs[j]);
                } else {
                    assert(after[j + 1] == pairs[j]);
                }
            }
            if holds_pair(after, key, value) && key != k {
                let j = choose|j: int|
                    0 <= j < after.len() && (#[trigger] after[j]).0@ == key && after[j].1@ == value;
                assert(j != s);
            }
        },
    }
}

/// A key that is taken away has no value; what stands under other keys stays.
pub proof fn taking_a_key_away(
    pairs: Seq<(String, String)>,
    gone: Seq<char>,
    key: Seq<char>,
    value: Seq<char>,
)
    requires
        keys_differ(pairs),
    ensures
        keys_differ(without_key(pairs, gone)),
        !holds_pair(without_key(pairs, gone), gone, value),
        key != gone ==> (holds_pair(without_key(pairs, gone), key, value) <==> holds_pair(
            pairs,
            key,
            value,
        )),
{
    let after = without_key(pairs, gone);
    key_index_is_first(pairs, gone);
    if let Some(p) = key_index(pairs, gone) {
        assert(after == pairs.remove(p));
        assert forall|j: int| 0 <= j < after.len() implies #[trigger] after[j] == pairs[if j < p {
            j
        } else {
            j + 1
        }] by {}
        assert forall|j: int| 0 <= j < after.len() implies (#[trigger] after[j]).0@ != gone by {
            assert(pairs[p].0@ == gone);
        }
        if holds_pair(pairs, key, value) && key != gone {
            let j = choose|j: int|
                0 <= j < pairs.len() && (#[trigger] pairs[j]).0@ == key && pairs[j].1@ == value;
            if j < p {
                assert(after[j] == pairs[j]);
            } else {
                assert(after[j - 1] == pairs[j]);
            }
        }
        if holds_pair(after, key, value) {
            let j = choose|j: int|
                0 <= j < after.len() && (#[trigger] after[j]).0@ == key && after[j].1@ == value;
            assert(pairs[if j < p {
                j
            } else {
                j + 1
            }].0@ == key);
        }
    }
}

/// The value that a form has for a name is that of its last field with the name.
pub proof fn the_last_field_counts(
    fields: Seq<FormField>,
    pairs: Seq<(String, String)>,
    i: int,
    key: Seq<char>,
    value: Seq<char>,
)
    requires
        default_pairs(fields, pairs),
    ensures
        keys_differ(pairs),
        0 <= i < fields.len() && fields[i].name@ == key && (forall|j: int|
            i < j < fields.len() ==> (#[trigger] fields[j]).name@ != key) ==> (holds_pair(
            pairs,
            key,
            value,
        ) <==> value == fields[i].value@),
        (forall|j: int| 0 <= j < fields.len() ==> (#[trigger] fields[j]).name@ != key)
            ==> !holds_pair(pairs, key, value),
    decreases fields.len(),
{
    if fields.len() > 0 {
        let shorter = fields.drop_last();
        let (before, pair) = choose|before: Seq<(String, String)>, pair: (String, String)|
            default_pairs(shorter, before) && pair.0@ == fields.last().name@ && pair.1@
                == fields.last().value@ && pairs == #[trigger] with_pair(before, pair);
        the_last_field_counts(shorter, before, i, key, value);
        setting_a_pair(before, pair, key, value);
        assert(fields[fields.len() - 1] == fields.last());
        assert forall|j: int| 0 <= j < shorter.len() implies shorter[j] == fields[j] by {}
    }
}

/// What is filled in stands in place of what a form has; of two values for one name the later one
/// counts. What is not filled in stays as the form has it.
pub proof fn what_is_filled_in_counts(
    own: Seq<(String, String)>,
    values: Seq<(String, String)>,
    sent: Seq<(String, String)>,
    i: int,
    key: Seq<char>,
    value: Seq<char>,
)
    requires
        keys_differ(own),
        filled_in(own, values, sent),
    ensures
        keys_differ(sent),
        0 <= i < values.len() && values[i].0@ == key && (forall|j: int|
            i < j < values.len() ==> (#[trigger] values[j]).0@ != key) ==> (holds_pair(
            sent,
            key,
            value,
        ) <==> value == values[i].1@),
        (forall|j: int| 0 <= j < values.len() ==> (#[trigger] values[j]).0@ != key) ==> (holds_pair(
            sent,
            key,
            value,
        ) <==> holds_pair(own, key, value)),
    decreases values.len(),
{
    if values.len() > 0 {
        let shorter = values.drop_last();
        let mid = choose|mid: Seq<(String, String)>|
            filled_in(own, shorter, mid) && sent == #[trigger] with_pair(mid, values.last());
        what_is_filled_in_counts(own, shorter, mid, i, key, value);
        setting_a_pair(mid, values.last(), key, value);
        assert(values[values.len() - 1] == values.last());
        assert forall|j: int| 0 <= j < shorter.len() implies shorter[j] == values[j] by {}
    }
}

/// Of fields that a command names, the last with a name counts.
pub proof fn the_last_named_field_counts(
    fields: Seq<String>,
    pairs: Seq<(String, String)>,
    i: int,
    key: Seq<char>,
    own: Seq<char>,
    value: Seq<char>,
)
    requires
        field_pairs(fields, pairs),
    ensures
        keys_differ(pairs),
        0 <= i < fields.len() && field_pair(fields[i]@) == Some((key, own)) && (forall|j: int|
            i < j < fields.len() ==> (field_pair((#[trigger] fields[j])@) matches Some(p) && p.0
                != key)) ==> (holds_pair(pairs, key, value) <==> value == own),
    decreases fields.len(),
{
    if fields.len() > 0 {
        let shorter = fields.drop_last();
        let (before, pair) = choose|before: Seq<(String, String)>, pair: (String, String)|
            field_pairs(shorter, before) && field_pair(fields.last()@) == Some((pair.0@, pair.1@))
                && pairs == #[trigger] with_pair(before, pair);
        the_last_named_field_counts(shorter, before, i, key, own, value);
        setting_a_pair(before, pair, key, value);
        assert(fields[fields.len() - 1] == fields.last());
        assert forall|j: int| 0 <= j < shorter.len() implies shorter[j] == fields[j] by {}
    }
}

/// The field that is complained of is the first that is none.
pub proof fn the_first_bad_field_is_told(fields: Seq<String>)
    ensures
        first_bad_field(fields) matches Some(i) ==> 0 <= i < fields.len() && !is_field(fields[i]@)
            && (forall|j: int| 0 <= j < i ==> is_field((#[trigger] fields[j])@)),
        first_bad_field(fields) is None ==> (forall|j: int|
            0 <= j < fields.len() ==> is_field((#[trigger] fields[j])@)),
    decreases fields.len(),
{
    if fields.len() > 0 {
        let shorter = fields.drop_last();
        the_first_bad_field_is_told(shorter);
        assert(fields[fields.len() - 1] == fields.last());
        assert forall|j: int| 0 <= j < shorter.len() implies shorter[j] == fields[j] by {}
    }
}

} // verus!

//! Keys and sizes of running panes.
use crate::model::{Pane, PaneSize};
use crate::text::chars::{
    at, begins, chars_of, opt_str, opt_text, same, stands_at, strip_prefix, texts, without_prefix,
};
use crate::text::numbers::{decimal, decimal_round_trip, number, parse_decimal};
use vstd::prelude::*;

verus! {

/// The key of a running pane, or of one of its tabs.
pub open spec fn runtime_key(pane_id: Seq<char>, tab_id: Option<Seq<char>>) -> Seq<char> {
    match tab_id {
        Some(tab) => pane_id + "::"@ + tab,
        None => pane_id,
    }
}

/// The key of a running pane, or of one of its tabs.
pub fn pane_runtime_key(pane_id: &str, tab_id: Option<&str>) -> (r: String)
    ensures
        r@ == runtime_key(pane_id@, opt_str(tab_id)),
{
    let mut key = pane_id.to_string();
    if let Some(tab) = tab_id {
        key.append("::");
        key.append(tab);
    }
    key
}

/// The key of the pane with its active tab.
pub open spec fn active_key(pane: Pane) -> Seq<char> {
    runtime_key(pane.id@, opt_text(pane.active_tab))
}

/// The key of the pane with its active tab.
pub fn active_runtime_key_for_pane(pane: &Pane) -> (r: String)
    ensures
        r@ == active_key(*pane),
{
    match &pane.active_tab {
        Some(tab) => pane_runtime_key(pane.id.as_str(), Some(tab.as_str())),
        None => pane_runtime_key(pane.id.as_str(), None),
    }
}

/// The key of a pane without tabs.
pub fn legacy_runtime_key(pane_id: &str) -> (r: String)
    ensures
        r@ == pane_id@,
{
    pane_id.to_string()
}

/// The tab in a key of the pane.
pub open spec fn key_tab(pane_id: Seq<char>, key: Seq<char>) -> Option<Seq<char>> {
    match without_prefix(key, pane_id) {
        Some(rest) => without_prefix(rest, "::"@),
        None => None,
    }
}

/// The tab in a key of the pane.
pub fn runtime_key_tab<'a>(pane_id: &str, runtime_key: &'a str) -> (r: Option<&'a str>)
    ensures
        opt_str(r) == key_tab(pane_id@, runtime_key@),
{
    let key = chars_of(runtime_key);
    let id = chars_of(pane_id);
    let colons = chars_of("::");
    if !at(key.as_slice(), id.as_slice(), 0) {
        return None;
    }
    let n: usize = id.len();
    proof {
        let rest = key@.skip(n as int);
        assert(begins(rest, "::"@) == stands_at(key@, "::"@, n as int)) by {
            if n + "::"@.len() <= key@.len() {
                assert(rest.subrange(0, "::"@.len() as int) =~= key@.subrange(
                    n as int,
                    n + "::"@.len(),
                ));
            }
        }
    }
    if !at(key.as_slice(), colons.as_slice(), n) {
        return None;
    }
    assert(n + colons@.len() <= key.len());
    let m: usize = n + colons.len();
    assert(runtime_key@.subrange(m as int, runtime_key@.len() as int) =~= key@.skip(n as int).skip(
        "::"@.len() as int,
    ));
    Some(runtime_key.substring_char(m, key.len()))
}

/// Whether the key is that of the pane with its active tab.
pub fn runtime_key_is_active_for_pane(pane: &Pane, runtime_key: &str) -> (r: bool)
    ensures
        r == (active_key(*pane) == runtime_key@),
{
    let active = active_runtime_key_for_pane(pane);
    same(active.as_str(), runtime_key)
}

/// A key gives back the tab that it was made of.
pub proof fn runtime_key_round_trip(pane_id: Seq<char>, tab_id: Seq<char>)
    ensures
        key_tab(pane_id, runtime_key(pane_id, Some(tab_id))) == Some(tab_id),
        key_tab(pane_id, runtime_key(pane_id, None)) is None,
{
    let key = runtime_key(pane_id, Some(tab_id));
    let n = pane_id.len() as int;
    assert(key.subrange(0, n) =~= pane_id);
    let rest = key.skip(n);
    assert(rest =~= "::"@ + tab_id);
    assert(rest.subrange(0, "::"@.len() as int) =~= "::"@);
    assert(rest.skip("::"@.len() as int) =~= tab_id);
    assert(pane_id.subrange(0, n) =~= pane_id);
    reveal_strlit("::");
    assert(pane_id.skip(n).len() == 0);
}

/// A size that a terminal can have: at least two rows and two columns.
pub fn sanitize_pane_size(size: PaneSize) -> (r: PaneSize)
    ensures
        r == sane(size),
{
    PaneSize {
        rows: if size.rows < 2 {
            2
        } else {
            size.rows
        },
        cols: if size.cols < 2 {
            2
        } else {
            size.cols
        },
    }
}

/// The size with at least two rows and two columns.
pub open spec fn sane(size: PaneSize) -> PaneSize {
    PaneSize {
        rows: if size.rows < 2 {
            2
        } else {
            size.rows
        },
        cols: if size.cols < 2 {
            2
        } else {
            size.cols
        },
    }
}

/// The largest number that follows the prefix in one of the ids; nought where none does.
pub open spec fn largest_number(prefix: Seq<char>, ids: Seq<Seq<char>>) -> int
    decreases ids.len(),
{
    if ids.len() == 0 {
        0
    } else {
        let before = largest_number(prefix, ids.drop_last());
        match id_number(prefix, ids.last()) {
            Some(n) => if n > before {
                n
            } else {
                before
            },
            None => before,
        }
    }
}

/// No id has a number above the largest.
pub proof fn numbers_are_within(prefix: Seq<char>, ids: Seq<Seq<char>>, i: int)
    requires
        0 <= i < ids.len(),
    ensures
        id_number(prefix, ids[i]) matches Some(n) ==> n <= largest_number(prefix, ids),
    decreases ids.len(),
{
    if i < ids.len() - 1 {
        numbers_are_within(prefix, ids.drop_last(), i);
        assert(ids.drop_last()[i] == ids[i]);
    }
}

/// An id made of a prefix and a number has that number.
pub proof fn id_numbers_read_back(prefix: Seq<char>, n: nat)
    requires
        n <= u64::MAX,
    ensures
        id_number(prefix, prefix + decimal(n)) == Some(n as int),
{
    decimal_round_trip(n);
    let id = prefix + decimal(n);
    assert(id.take(prefix.len() as int) =~= prefix);
    assert(id.skip(prefix.len() as int) =~= decimal(n));
}

/// The number that follows the prefix in an id.
pub open spec fn id_number(prefix: Seq<char>, id: Seq<char>) -> Option<int> {
    match without_prefix(id, prefix) {
        Some(rest) => number(rest, 10, u64::MAX as int),
        None => None,
    }
}

/// The largest number that follows the prefix in one of the ids.
pub fn highest_number(prefix: &str, ids: &Vec<String>) -> (r: u64)
    ensures
        r == largest_number(prefix@, texts(ids@)),
{
    let ghost all = texts(ids@);
    let mut largest: u64 = 0;
    let mut i: usize = 0;
    while i < ids.len()
        invariant
            i <= ids.len(),
            all == texts(ids@),
            largest == largest_number(prefix@, all.take(i as int)),
        decreases ids.len() - i,
    {
        let id = chars_of(ids[i].as_str());
        assert(all.take(i + 1).drop_last() =~= all.take(i as int));
        if let Some(rest) = strip_prefix(id.as_slice(), prefix) {
            if let Some(n) = parse_decimal(rest, u64::MAX) {
                if n > largest {
                    largest = n;
                }
            }
        }
        i += 1;
    }
    assert(all.take(i as int) =~= all);
    largest
}

/// The number of the next id: one above the largest.
pub fn next_number(prefix: &str, ids: &Vec<String>) -> (r: u64)
    requires
        largest_number(prefix@, texts(ids@)) < u64::MAX,
    ensures
        r == largest_number(prefix@, texts(ids@)) + 1,
{
    highest_number(prefix, ids) + 1
}

} // verus!

//! What the operations on texts do.
use crate::daemon::output::{flat, shortened};
use crate::text::chars::{
    filled, is_white, joined, lowered, trimmed, trimmed_end, trimmed_start, word_len, words,
};
use crate::text::utf8::{byte_len, count_within, head_within, head_within_fits};
use vstd::prelude::*;

verus! {

/// Only white space.
pub open spec fn all_white(s: Seq<char>) -> bool {
    forall|i: int| 0 <= i < s.len() ==> is_white(#[trigger] s[i])
}

/// White space round a text is taken away, and nothing else.
pub proof fn white_space_round_it_goes(a: Seq<char>, s: Seq<char>, b: Seq<char>)
    requires
        all_white(a),
        all_white(b),
        s.len() > 0 ==> !is_white(s[0]) && !is_white(s.last()),
    ensures
        s.len() > 0 ==> trimmed(a + s + b) == s,
        trimmed(a).len() == 0,
{
    start_goes(a, s + b);
    assert(a + s + b =~= a + (s + b));
    start_goes(a, Seq::empty());
    assert(a + Seq::<char>::empty() =~= a);
    if s.len() > 0 {
        assert((s + b)[0] == s[0]);
        end_goes(s, b);
    }
}

proof fn start_goes(a: Seq<char>, s: Seq<char>)
    requires
        all_white(a),
    ensures
        trimmed_start(a + s) == trimmed_start(s),
    decreases a.len(),
{
    if a.len() > 0 {
        assert(is_white(a[0]));
        assert((a + s)[0] == a[0]);
        assert((a + s).drop_first() =~= a.drop_first() + s);
        assert(all_white(a.drop_first())) by {
            assert forall|i: int| 0 <= i < a.drop_first().len() implies is_white(
                #[trigger] a.drop_first()[i],
            ) by {
                assert(a.drop_first()[i] == a[i + 1]);
            }
        }
        start_goes(a.drop_first(), s);
    } else {
        assert(a + s =~= s);
    }
}

proof fn end_goes(s: Seq<char>, b: Seq<char>)
    requires
        all_white(b),
        s.len() > 0,
        !is_white(s.last()),
    ensures
        trimmed_end(s + b) == s,
    decreases b.len(),
{
    if b.len() > 0 {
        assert(is_white(b[b.len() - 1]));
        assert((s + b).last() == b[b.len() - 1]);
        assert((s + b).drop_last() =~= s + b.drop_last());
        assert(all_white(b.drop_last())) by {
            assert forall|i: int| 0 <= i < b.drop_last().len() implies is_white(
                #[trigger] b.drop_last()[i],
            ) by {
                assert(b.drop_last()[i] == b[i]);
            }
        }
        end_goes(s, b.drop_last());
    } else {
        assert(s + b =~= s);
    }
}

/// Capitals become small letters, and no other character changes.
pub proof fn capitals_become_small(s: Seq<char>, i: int)
    requires
        0 <= i < s.len(),
    ensures
        lowered(s).len() == s.len(),
        'A' <= s[i] <= 'Z' ==> lowered(s)[i] as int == s[i] as int + ('a' as int - 'A' as int),
        !('A' <= s[i] <= 'Z') ==> lowered(s)[i] == s[i],
{
}

proof fn word_ends(w: Seq<char>, rest: Seq<char>)
    requires
        forall|i: int| 0 <= i < w.len() ==> !is_white(#[trigger] w[i]),
        rest.len() > 0 ==> is_white(rest[0]),
    ensures
        word_len(w + rest) == w.len(),
    decreases w.len(),
{
    let s = w + rest;
    if w.len() > 0 {
        assert(!is_white(w[0]));
        assert(s[0] == w[0]);
        assert(s.drop_first() =~= w.drop_first() + rest);
        assert forall|i: int| 0 <= i < w.drop_first().len() implies !is_white(
            #[trigger] w.drop_first()[i],
        ) by {
            assert(w.drop_first()[i] == w[i + 1]);
        }
        word_ends(w.drop_first(), rest);
    } else {
        assert(s =~= rest);
    }
}

/// The words of a text are what stands between white space, in their order.
pub proof fn words_stand_between_white_space(a: Seq<char>, w: Seq<char>, rest: Seq<char>)
    requires
        all_white(a),
        w.len() > 0,
        forall|i: int| 0 <= i < w.len() ==> !is_white(#[trigger] w[i]),
        rest.len() > 0 ==> is_white(rest[0]),
    ensures
        words(a + w + rest) == seq![w] + words(rest),
        words(a).len() == 0,
{
    let s = a + w + rest;
    assert(s =~= a + (w + rest));
    start_goes(a, w + rest);
    assert((w + rest)[0] == w[0]);
    assert(!is_white(w[0]));
    let t = trimmed_start(s);
    assert(t == w + rest);
    word_ends(w, rest);
    assert(t.take(w.len() as int) =~= w);
    assert(t.skip(w.len() as int) =~= rest);
    start_goes(a, Seq::empty());
    assert(a + Seq::<char>::empty() =~= a);
}

/// A text that is too long is cut behind as many of its characters as fit, with an ellipsis behind
/// them; one that fits stays.
pub proof fn long_texts_are_cut(s: Seq<char>, max: int)
    requires
        max >= 3,
    ensures
        byte_len(s) <= max ==> shortened(s, max) == s,
        byte_len(s) > max ==> shortened(s, max).len() > 0 && shortened(s, max).last() == '…'
            && shortened(s, max).drop_last() == s.take(shortened(s, max).len() - 1) && byte_len(
            s.take(shortened(s, max).len() - 1),
        ) <= max - 3,
        byte_len(s) > max && shortened(s, max).len() - 1 < s.len() ==> byte_len(
            s.take(shortened(s, max).len() as int),
        ) > max - 3,
{
    head_within_fits(s, max - 3);
    if byte_len(s) > max {
        let head = head_within(s, max - 3);
        assert(shortened(s, max) == head.push('…'));
        assert(head.push('…').drop_last() =~= head);
        assert(head.len() == count_within(s, max - 3));
    }
}

/// Texts that are joined stand in their order, with what parts them between each two.
pub proof fn texts_are_joined(list: Seq<Seq<char>>, sep: Seq<char>, s: Seq<char>)
    ensures
        joined(Seq::empty(), sep).len() == 0,
        joined(seq![s], sep) == s,
        list.len() > 0 ==> joined(list.push(s), sep) == joined(list, sep) + sep + s,
        flat(list.push(s)) == flat(list) + s,
{
    assert(list.push(s).drop_last() =~= list);
}

/// Of a list of texts the blank ones are left out and the others trimmed.
pub proof fn blank_texts_are_left_out(list: Seq<Seq<char>>, s: Seq<char>)
    ensures
        filled(Seq::empty()).len() == 0,
        trimmed(s).len() == 0 ==> filled(list.push(s)) == filled(list),
        trimmed(s).len() > 0 ==> filled(list.push(s)) == filled(list).push(trimmed(s)),
{
    assert(list.push(s).drop_last() =~= list);
}

} // verus!

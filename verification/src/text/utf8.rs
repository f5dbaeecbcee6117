//! Lengths in bytes: how much of a text fits in a byte budget.
use vstd::prelude::*;
use vstd::utf8::{encode_scalar, encode_utf8};

verus! {

/// The number of bytes that UTF-8 takes for `c`.
pub open spec fn width(c: char) -> nat {
    if c <= '\u{7f}' {
        1
    } else if c <= '\u{7ff}' {
        2
    } else if c <= '\u{ffff}' {
        3
    } else {
        4
    }
}

/// The number of bytes that UTF-8 takes for `s`.
pub open spec fn byte_len(s: Seq<char>) -> nat
    decreases s.len(),
{
    if s.len() == 0 {
        0
    } else {
        width(s[0]) + byte_len(s.drop_first())
    }
}

/// A character is encoded in as many bytes as its width says.
proof fn encoded_char_len(c: char)
    ensures
        encode_scalar(c as u32).len() == width(c),
{
}

/// The length in bytes is that of the UTF-8 encoding.
pub proof fn byte_len_is_encoded_len(s: Seq<char>)
    ensures
        byte_len(s) == encode_utf8(s).len(),
    decreases s.len(),
{
    if s.len() > 0 {
        byte_len_is_encoded_len(s.drop_first());
        encoded_char_len(s[0]);
    }
}

/// The length in bytes of two texts one after the other.
pub proof fn byte_len_concat(a: Seq<char>, b: Seq<char>)
    ensures
        byte_len(a + b) == byte_len(a) + byte_len(b),
    decreases a.len(),
{
    if a.len() == 0 {
        assert(a + b =~= b);
    } else {
        byte_len_concat(a.drop_first(), b);
        assert((a + b).drop_first() =~= a.drop_first() + b);
    }
}

/// The encoding of two texts one after the other.
pub proof fn encode_concat(a: Seq<char>, b: Seq<char>)
    ensures
        encode_utf8(a + b) == encode_utf8(a) + encode_utf8(b),
    decreases a.len(),
{
    if a.len() == 0 {
        assert(a + b =~= b);
        assert(encode_utf8(a) + encode_utf8(b) =~= encode_utf8(b));
    } else {
        encode_concat(a.drop_first(), b);
        assert((a + b).drop_first() =~= a.drop_first() + b);
        assert(encode_scalar(a[0] as u32) + (encode_utf8(a.drop_first()) + encode_utf8(b))
            =~= encode_utf8(a) + encode_utf8(b));
    }
}

/// A text has at least as many bytes as characters, and at most four for each.
pub proof fn byte_len_bounds(s: Seq<char>)
    ensures
        s.len() <= byte_len(s) <= 4 * s.len(),
    decreases s.len(),
{
    if s.len() > 0 {
        byte_len_bounds(s.drop_first());
    }
}

/// The length in bytes splits at every position.
pub proof fn byte_len_split(s: Seq<char>, k: int)
    requires
        0 <= k <= s.len(),
    ensures
        byte_len(s) == byte_len(s.take(k)) + byte_len(s.skip(k)),
{
    byte_len_concat(s.take(k), s.skip(k));
    assert(s.take(k) + s.skip(k) =~= s);
}

/// One more character at the end.
pub proof fn byte_len_push(s: Seq<char>, c: char)
    ensures
        byte_len(s.push(c)) == byte_len(s) + width(c),
{
    byte_len_concat(s, seq![c]);
    assert(s.push(c) =~= s + seq![c]);
    assert(seq![c].drop_first() =~= Seq::empty());
    assert(byte_len(seq![c].drop_first()) == 0);
    assert(byte_len(seq![c]) == width(c));
}

/// The number of bytes of a character.
pub fn char_width(c: char) -> (r: usize)
    ensures
        r == width(c),
{
    if c <= '\u{7f}' {
        1
    } else if c <= '\u{7ff}' {
        2
    } else if c <= '\u{ffff}' {
        3
    } else {
        4
    }
}

/// The number of bytes of a text.
pub fn bytes_in(s: &str) -> (r: usize)
    ensures
        r == byte_len(s@),
{
    proof {
        byte_len_is_encoded_len(s@);
    }
    s.as_bytes().len()
}

/// The longest suffix of `s` of at most `n` bytes that begins at a character.
pub open spec fn tail_within(s: Seq<char>, n: int) -> Seq<char>
    decreases s.len(),
{
    if s.len() == 0 || byte_len(s) <= n {
        s
    } else {
        tail_within(s.drop_first(), n)
    }
}

/// The number of leading characters of `s` that fit in `n` bytes.
pub open spec fn count_within(s: Seq<char>, n: int) -> int
    decreases s.len(),
{
    if s.len() == 0 || width(s[0]) > n {
        0
    } else {
        1 + count_within(s.drop_first(), n - width(s[0]))
    }
}

/// The longest prefix of `s` of at most `n` bytes that ends at a character.
pub open spec fn head_within(s: Seq<char>, n: int) -> Seq<char> {
    s.take(count_within(s, n))
}

/// The suffix that fits is a suffix, it fits, and a longer one does not.
pub proof fn tail_within_fits(s: Seq<char>, n: int)
    requires
        0 <= n,
    ensures
        byte_len(tail_within(s, n)) <= n,
        tail_within(s, n).len() <= s.len(),
        tail_within(s, n) == s.skip(s.len() - tail_within(s, n).len()),
        forall|k: int|
            0 <= k < s.len() - tail_within(s, n).len() ==> byte_len(#[trigger] s.skip(k)) > n,
    decreases s.len(),
{
    if s.len() == 0 || byte_len(s) <= n {
        assert(s.skip(0) =~= s);
    } else {
        let rest = s.drop_first();
        tail_within_fits(rest, n);
        let t = tail_within(s, n);
        assert(rest.skip(rest.len() - t.len()) =~= s.skip(s.len() - t.len()));
        assert forall|k: int| 0 <= k < s.len() - t.len() implies byte_len(#[trigger] s.skip(k))
            > n by {
            if k == 0 {
                assert(s.skip(0) =~= s);
            } else {
                assert(s.skip(k) =~= rest.skip(k - 1));
            }
        }
    }
}

/// The prefix that fits is a prefix, it fits, and a longer one does not.
pub proof fn head_within_fits(s: Seq<char>, n: int)
    requires
        0 <= n,
    ensures
        0 <= count_within(s, n) <= s.len(),
        byte_len(head_within(s, n)) <= n,
        count_within(s, n) < s.len() ==> byte_len(s.take(count_within(s, n) + 1)) > n,
    decreases s.len(),
{
    if s.len() == 0 || width(s[0]) > n {
        if s.len() > 0 {
            assert(s.take(1).drop_first() =~= Seq::empty());
            assert(byte_len(s.take(1)) == width(s[0]) + byte_len(Seq::<char>::empty()));
        }
    } else {
        let rest = s.drop_first();
        let m = n - width(s[0]);
        head_within_fits(rest, m);
        let k = count_within(s, n);
        assert(s.take(k).drop_first() =~= rest.take(k - 1));
        if k < s.len() {
            assert(s.take(k + 1).drop_first() =~= rest.take(k));
        }
    }
}

/// Keeping the suffix that fits twice is keeping it once.
pub proof fn tail_within_twice_is_once(s: Seq<char>, n: int)
    requires
        0 <= n,
    ensures
        tail_within(tail_within(s, n), n) == tail_within(s, n),
{
    tail_within_fits(s, n);
}

/// The place in the text that stands so many bytes behind its start; none where that is
/// inside a character or past the end.
pub open spec fn char_at_byte(s: Seq<char>, offset: int) -> Option<int>
    decreases s.len(),
{
    if offset == 0 {
        Some(0)
    } else if offset < 0 || s.len() == 0 {
        None
    } else {
        match char_at_byte(s.drop_first(), offset - width(s[0])) {
            Some(k) => Some(k + 1),
            None => None,
        }
    }
}

/// The place lies in the text, and as many bytes stand before it.
pub proof fn char_at_byte_is(s: Seq<char>, offset: int)
    ensures
        char_at_byte(s, offset) matches Some(k) ==> 0 <= k <= s.len() && byte_len(s.take(k))
            == offset,
    decreases s.len(),
{
    if offset > 0 && s.len() > 0 {
        char_at_byte_is(s.drop_first(), offset - width(s[0]));
        if let Some(k) = char_at_byte(s.drop_first(), offset - width(s[0])) {
            assert(s.take(k + 1).drop_first() =~= s.drop_first().take(k));
        }
    } else {
        assert(s.take(0) =~= Seq::empty());
    }
}

/// Where a part of the text ends, it can be cut.
pub proof fn cut_behind_prefix(s: Seq<char>, k: int)
    requires
        0 <= k <= s.len(),
    ensures
        char_at_byte(s, byte_len(s.take(k)) as int) == Some(k),
    decreases s.len(),
{
    if k > 0 {
        cut_behind_prefix(s.drop_first(), k - 1);
        assert(s.take(k).drop_first() =~= s.drop_first().take(k - 1));
        assert(s.take(k)[0] == s[0]);
    } else {
        assert(s.take(0) =~= Seq::empty());
    }
}

/// The place in the text that stands so many bytes behind its start.
pub fn find_byte(s: &[char], offset: usize) -> (r: Option<usize>)
    ensures
        r matches Some(k) ==> char_at_byte(s@, offset as int) == Some(k as int) && k <= s.len(),
        r is None ==> char_at_byte(s@, offset as int) is None,
{
    let mut left: usize = offset;
    let mut i: usize = 0;
    assert(s@.skip(0) =~= s@);
    while i < s.len() && left > 0
        invariant
            i <= s.len(),
            char_at_byte(s@, offset as int) == match char_at_byte(s@.skip(i as int), left as int) {
                Some(k) => Some(k + i),
                None => None,
            },
        decreases s.len() - i,
    {
        assert(s@.skip(i as int).drop_first() =~= s@.skip(i + 1));
        let w = char_width(s[i]);
        if w > left {
            assert(char_at_byte(s@.skip(i + 1), left - w) is None);
            return None;
        }
        left -= w;
        i += 1;
    }
    if left == 0 {
        Some(i)
    } else {
        None
    }
}

} // verus!

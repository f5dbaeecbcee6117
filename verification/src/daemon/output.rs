//! What a pane keeps of its output, and how much of it is handed out.
use crate::text::chars::{
    char_position, char_position_from_is_first, chars_of, joined, string_of, texts,
};
use crate::text::lines::line_list;
use crate::text::utf8::{
    byte_len, byte_len_bounds, byte_len_concat, byte_len_push, bytes_in, char_width, count_within,
    head_within, head_within_fits, tail_within,
};
use std::collections::VecDeque;
use vstd::prelude::*;
use vstd::slice::slice_subrange;

verus! {

/// The longest suffix of `output` of at most `max_len` bytes.
pub fn trim_output(output: String, max_len: usize) -> (r: String)
    ensures
        r@ == tail_within(output@, max_len as int),
{
    let total = bytes_in(output.as_str());
    if total <= max_len {
        return output;
    }
    let chars = chars_of(output.as_str());
    let mut left: usize = total;
    let mut i: usize = 0;
    assert(chars@.skip(0) =~= chars@);
    while left > max_len
        invariant
            i <= chars.len(),
            left == byte_len(chars@.skip(i as int)),
            tail_within(chars@.skip(i as int), max_len as int) == tail_within(
                chars@,
                max_len as int,
            ),
        decreases chars@.len() - i,
    {
        let ghost rest = chars@.skip(i as int);
        assert(rest.len() > 0);
        assert(rest.drop_first() =~= chars@.skip(i + 1));
        left -= char_width(chars[i]);
        i += 1;
    }
    assert(chars@.subrange(i as int, chars@.len() as int) =~= chars@.skip(i as int));
    string_of(slice_subrange(chars.as_slice(), i, chars.len()))
}

/// `s`, cut to at most `max` bytes at a character, with the cut marked where the mark, which
/// takes three bytes, has room.
pub open spec fn shortened(s: Seq<char>, max: int) -> Seq<char> {
    if byte_len(s) <= max {
        s
    } else if max < 3 {
        head_within(s, max)
    } else {
        head_within(s, max - 3).push('…')
    }
}

/// What is shortened fits.
pub proof fn shortened_fits(s: Seq<char>, max: int)
    requires
        max >= 0,
    ensures
        byte_len(shortened(s, max)) <= max,
{
    if byte_len(s) > max {
        if max < 3 {
            head_within_fits(s, max);
        } else {
            head_within_fits(s, max - 3);
            byte_len_push(head_within(s, max - 3), '…');
        }
    }
}

/// Cuts `s` to at most `max` bytes, at a character, and marks the cut.
pub fn truncate_on_char_boundary(s: &mut String, max: usize)
    ensures
        final(s)@ == shortened(old(s)@, max as int),
        byte_len(final(s)@) <= max,
{
    proof {
        shortened_fits(s@, max as int);
    }
    if bytes_in(s.as_str()) <= max {
        return;
    }
    let ghost text = s@;
    let chars = chars_of(s.as_str());
    let marked = max >= 3;
    let kept: usize = if marked {
        max - 3
    } else {
        max
    };
    let mut room: usize = kept;
    let mut out = String::new();
    let mut i: usize = 0;
    assert(chars@.skip(0) =~= chars@);
    while i < chars.len() && char_width(chars[i]) <= room
        invariant
            i <= chars@.len(),
            chars@ == text,
            out@ == text.take(i as int),
            count_within(text, kept as int) == i + count_within(
                text.skip(i as int),
                room as int,
            ),
        decreases chars@.len() - i,
    {
        let ghost rest = text.skip(i as int);
        assert(rest.drop_first() =~= text.skip(i + 1));
        out.push(chars[i]);
        assert(text.take(i + 1) =~= text.take(i as int).push(text[i as int]));
        room -= char_width(chars[i]);
        i += 1;
    }
    if marked {
        out.push('…');
    }
    *s = out;
}

/// Bytes of an unterminated control sequence that are kept for a later read.
pub const OSC_TAIL_CAP: usize = 8192;

/// Bounds what is kept of an unterminated control sequence: the longest suffix that
/// fits.
pub fn cap_osc_tail(tail: &mut String)
    ensures
        final(tail)@ == tail_within(old(tail)@, OSC_TAIL_CAP as int),
{
    if bytes_in(tail.as_str()) <= OSC_TAIL_CAP {
        return;
    }
    let whole = tail.clone();
    *tail = trim_output(whole, OSC_TAIL_CAP);
}

/// The byte budget of a scrollback request.
pub open spec fn scrollback_budget(limit_bytes: Option<usize>) -> int {
    match limit_bytes {
        None => 16_000,
        Some(n) => if n <= 1_000_000 {
            n as int
        } else {
            1_000_000
        },
    }
}

/// The byte budget of a scrollback request.
pub fn scrollback_limit(limit_bytes: Option<usize>) -> (r: usize)
    ensures
        r == scrollback_budget(limit_bytes),
{
    match limit_bytes {
        None => 16_000,
        Some(n) => if n <= 1_000_000 {
            n
        } else {
            1_000_000
        },
    }
}

/// The chunks of a pane's output, one after the other.
pub open spec fn flat(chunks: Seq<Seq<char>>) -> Seq<char>
    decreases chunks.len(),
{
    if chunks.len() == 0 {
        Seq::empty()
    } else {
        flat(chunks.drop_last()) + chunks.last()
    }
}

/// The bytes of all chunks together.
pub open spec fn total_bytes(chunks: Seq<Seq<char>>) -> nat
    decreases chunks.len(),
{
    if chunks.len() == 0 {
        0
    } else {
        byte_len(chunks[0]) + total_bytes(chunks.drop_first())
    }
}

/// What is left once the oldest chunks have gone: as many go as are needed to keep to
/// the budget, but the newest chunk stays.
pub open spec fn within_budget(chunks: Seq<Seq<char>>, cap: int) -> Seq<Seq<char>>
    decreases chunks.len(),
{
    if chunks.len() > 1 && total_bytes(chunks) > cap {
        within_budget(chunks.drop_first(), cap)
    } else {
        chunks
    }
}

/// One more chunk at the end.
pub proof fn total_bytes_push(chunks: Seq<Seq<char>>, c: Seq<char>)
    ensures
        total_bytes(chunks.push(c)) == total_bytes(chunks) + byte_len(c),
    decreases chunks.len(),
{
    if chunks.len() == 0 {
        assert(chunks.push(c).drop_first() =~= chunks);
    } else {
        total_bytes_push(chunks.drop_first(), c);
        assert(chunks.push(c).drop_first() =~= chunks.drop_first().push(c));
    }
}

/// What is kept is a suffix of the chunks that holds the newest one, keeps to the budget
/// unless it is that one alone, and would go over it with one more.
pub proof fn within_budget_keeps_newest(chunks: Seq<Seq<char>>, cap: int)
    requires
        chunks.len() > 0,
    ensures
        0 < within_budget(chunks, cap).len() <= chunks.len(),
        within_budget(chunks, cap) == chunks.skip(chunks.len() - within_budget(chunks, cap).len()),
        within_budget(chunks, cap).last() == chunks.last(),
        total_bytes(within_budget(chunks, cap)) <= cap || within_budget(chunks, cap).len() == 1,
        forall|k: int|
            0 <= k < chunks.len() - within_budget(chunks, cap).len() ==> total_bytes(
                #[trigger] chunks.skip(k),
            ) > cap,
    decreases chunks.len(),
{
    assert(chunks.skip(0) =~= chunks);
    if chunks.len() > 1 && total_bytes(chunks) > cap {
        let rest = chunks.drop_first();
        within_budget_keeps_newest(rest, cap);
        let kept = within_budget(chunks, cap);
        assert(rest.skip(rest.len() - kept.len()) =~= chunks.skip(chunks.len() - kept.len()));
        assert forall|k: int| 0 <= k < chunks.len() - kept.len() implies total_bytes(
            #[trigger] chunks.skip(k),
        ) > cap by {
            if k > 0 {
                assert(chunks.skip(k) =~= rest.skip(k - 1));
            }
        }
    }
}

/// Appends `text` to a pane's output and drops the oldest chunks while the bytes that
/// are kept go over `cap`; the newest chunk stays.
pub fn push_bounded_output(
    output: &mut VecDeque<String>,
    output_bytes: &mut usize,
    text: String,
    cap: usize,
)
    requires
        *old(output_bytes) == total_bytes(texts(old(output)@)),
        old(output)@.len() < usize::MAX,
        *old(output_bytes) + byte_len(text@) <= usize::MAX,
    ensures
        text@.len() == 0 ==> final(output)@ == old(output)@,
        text@.len() > 0 ==> texts(final(output)@) == within_budget(
            texts(old(output)@).push(text@),
            cap as int,
        ),
        *final(output_bytes) == total_bytes(texts(final(output)@)),
{
    if text.as_str().is_empty() {
        return;
    }
    let ghost chunks = texts(output@).push(text@);
    let n = bytes_in(text.as_str());
    proof {
        total_bytes_push(texts(output@), text@);
    }
    *output_bytes = *output_bytes + n;
    output.push_back(text);
    assert(texts(output@) =~= chunks);
    while *output_bytes > cap && output.len() > 1
        invariant
            *output_bytes == total_bytes(texts(output@)),
            within_budget(texts(output@), cap as int) == within_budget(chunks, cap as int),
        decreases output@.len(),
    {
        let ghost before = output@;
        match output.pop_front() {
            Some(front) => {
                assert(texts(output@) =~= texts(before).drop_first());
                *output_bytes = *output_bytes - bytes_in(front.as_str());
            },
            None => {},
        }
    }
}

/// The number of line feeds in `s`.
pub open spec fn newlines(s: Seq<char>) -> nat
    decreases s.len(),
{
    if s.len() == 0 {
        0
    } else {
        newlines(s.drop_last()) + if s.last() == '\n' {
            1nat
        } else {
            0
        }
    }
}

/// Line feeds of two texts one after the other.
pub proof fn newlines_concat(a: Seq<char>, b: Seq<char>)
    ensures
        newlines(a + b) == newlines(a) + newlines(b),
    decreases b.len(),
{
    if b.len() == 0 {
        assert(a + b =~= a);
    } else {
        newlines_concat(a, b.drop_last());
        assert((a + b).drop_last() =~= a + b.drop_last());
    }
}

/// A text without line feeds.
proof fn no_newlines(s: Seq<char>)
    requires
        forall|i: int| 0 <= i < s.len() ==> s[i] != '\n',
    ensures
        newlines(s) == 0,
    decreases s.len(),
{
    if s.len() > 0 {
        no_newlines(s.drop_last());
    }
}

/// A text has as many lines as line feeds, and one more where it does not end with one.
pub proof fn line_count(s: Seq<char>)
    ensures
        line_list(s).len() == newlines(s) + if s.len() > 0 && s.last() != '\n' {
            1int
        } else {
            0
        },
    decreases s.len(),
{
    if s.len() > 0 {
        char_position_from_is_first(s, '\n', 0);
        match char_position(s, '\n') {
            Some(p) => {
                let rest = s.skip(p + 1);
                line_count(rest);
                newlines_concat(s.take(p + 1), rest);
                assert(s.take(p + 1) + rest =~= s);
                assert(s.take(p + 1).drop_last() =~= s.take(p));
                no_newlines(s.take(p));
                if rest.len() > 0 {
                    assert(rest.last() == s.last());
                } else {
                    assert(p == s.len() - 1);
                }
            },
            None => {
                no_newlines(s);
            },
        }
    }
}

/// The line feeds of a text are no more than its characters.
proof fn newlines_at_most(s: Seq<char>)
    ensures
        newlines(s) <= s.len(),
    decreases s.len(),
{
    if s.len() > 0 {
        newlines_at_most(s.drop_last());
    }
}

/// A text that does not end with a line feed has fewer of them than characters.
proof fn newlines_before_last(s: Seq<char>)
    requires
        s.len() > 0,
        s.last() != '\n',
    ensures
        newlines(s) < s.len(),
{
    newlines_at_most(s.drop_last());
}

/// The bytes of chunks are the bytes of the text that they make up.
pub proof fn total_bytes_is_flat(chunks: Seq<Seq<char>>)
    ensures
        total_bytes(chunks) == byte_len(flat(chunks)),
    decreases chunks.len(),
{
    if chunks.len() > 0 {
        total_bytes_is_flat(chunks.drop_last());
        total_bytes_push(chunks.drop_last(), chunks.last());
        assert(chunks.drop_last().push(chunks.last()) =~= chunks);
        byte_len_concat(flat(chunks.drop_last()), chunks.last());
    }
}

/// The text of a prefix of the chunks is no longer than the whole.
proof fn flat_prefix(chunks: Seq<Seq<char>>, k: int)
    requires
        0 <= k <= chunks.len(),
    ensures
        byte_len(flat(chunks.take(k))) <= byte_len(flat(chunks)),
    decreases chunks.len(),
{
    if k == chunks.len() {
        assert(chunks.take(k) =~= chunks);
    } else {
        flat_prefix(chunks.drop_last(), k);
        assert(chunks.drop_last().take(k) =~= chunks.take(k));
        byte_len_concat(flat(chunks.drop_last()), chunks.last());
    }
}

/// The chunks of a pane's output joined.
pub fn joined_output(output: &VecDeque<String>) -> (r: String)
    ensures
        r@ == flat(texts(output@)),
{
    let mut out = String::new();
    let mut i: usize = 0;
    while i < output.len()
        invariant
            i <= output@.len(),
            out@ == flat(texts(output@).take(i as int)),
        decreases output@.len() - i,
    {
        out.append(output[i].as_str());
        i += 1;
        assert(texts(output@).take(i as int).drop_last() =~= texts(output@).take(i - 1));
    }
    assert(texts(output@).take(i as int) =~= texts(output@));
    out
}

/// The number of line feeds in a text.
pub fn count_newlines(s: &str) -> (r: usize)
    ensures
        r == newlines(s@),
{
    let chars = chars_of(s);
    let mut n: usize = 0;
    let mut i: usize = 0;
    while i < chars.len()
        invariant
            i <= chars@.len(),
            n <= i,
            n == newlines(chars@.take(i as int)),
        decreases chars@.len() - i,
    {
        if chars[i] == '\n' {
            n += 1;
        }
        i += 1;
        assert(chars@.take(i as int).drop_last() =~= chars@.take(i - 1));
    }
    assert(chars@.take(i as int) =~= chars@);
    n
}

/// The number of lines of the joined output, without joining it.
pub fn chunked_line_count(output: &VecDeque<String>) -> (r: usize)
    requires
        total_bytes(texts(output@)) <= usize::MAX,
    ensures
        r == line_list(flat(texts(output@))).len(),
{
    let ghost chunks = texts(output@);
    let ghost whole = flat(chunks);
    proof {
        total_bytes_is_flat(chunks);
        byte_len_bounds(whole);
        newlines_at_most(whole);
        line_count(whole);
    }
    let mut n: usize = 0;
    let mut open = false;
    let mut i: usize = 0;
    while i < output.len()
        invariant
            i <= output@.len(),
            chunks == texts(output@),
            whole == flat(chunks),
            byte_len(whole) <= usize::MAX,
            n == newlines(flat(chunks.take(i as int))),
            open == (flat(chunks.take(i as int)).len() > 0 && flat(chunks.take(i as int)).last()
                != '\n'),
        decreases output@.len() - i,
    {
        let ghost before = flat(chunks.take(i as int));
        let ghost after = flat(chunks.take(i + 1));
        proof {
            assert(chunks.take(i + 1).drop_last() =~= chunks.take(i as int));
            newlines_concat(before, chunks[i as int]);
            flat_prefix(chunks, i + 1);
            byte_len_bounds(after);
            newlines_at_most(after);
        }
        let chunk = output[i].as_str();
        n = n + count_newlines(chunk);
        if !chunk.is_empty() {
            let last = chunk.get_char(chunk.unicode_len() - 1);
            open = last != '\n';
            assert(after.last() == chunk@.last());
        } else {
            assert(after =~= before);
        }
        i += 1;
    }
    assert(chunks.take(i as int) =~= chunks);
    if open {
        proof {
            newlines_before_last(whole);
        }
        n + 1
    } else {
        n
    }
}

} // verus!

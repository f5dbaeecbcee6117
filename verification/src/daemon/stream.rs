//! Decoding a pane's bytes: characters that are cut between reads are put together again.
use crate::text::utf8::encode_concat;
use crate::text::lines::{feeds, newline_count};
use vstd::prelude::*;
use vstd::utf8::{
    decode_utf8, decode_utf8_encode_utf8, encode_utf8_decode_utf8,
    is_char_boundary_iff_not_is_continuation_byte, length_of_first_scalar,
    partial_valid_partial_invalid_utf8, valid_first_scalar, valid_utf8, valid_utf8_concat,
    valid_utf8_split,
};

verus! {

/// What `String::from_utf8_lossy` makes of a byte string: characters, with U+FFFD in place
/// of what is not UTF-8.
pub uninterp spec fn utf8_lossy(bytes: Seq<u8>) -> Seq<char>;

/// The first `n` bytes are UTF-8, and no longer prefix is.
pub open spec fn is_valid_up_to(bytes: Seq<u8>, n: int) -> bool {
    &&& 0 <= n <= bytes.len()
    &&& valid_utf8(bytes.take(n))
    &&& forall|k: int| n < k <= bytes.len() ==> !valid_utf8(#[trigger] bytes.take(k))
}

/// The length of the longest prefix that is UTF-8.
pub open spec fn valid_up_to(bytes: Seq<u8>) -> int {
    choose|n: int| is_valid_up_to(bytes, n)
}

/// With more bytes behind it, `rest` would be UTF-8.
pub open spec fn is_cut(rest: Seq<u8>) -> bool {
    exists|more: Seq<u8>| valid_utf8(#[trigger] (rest + more))
}

/// The bytes are a character that is cut: none of them is one by itself, and with more bytes
/// behind them they would be.
pub open spec fn is_open(bytes: Seq<u8>) -> bool {
    &&& bytes.len() > 0
    &&& is_cut(bytes)
    &&& is_valid_up_to(bytes, 0)
}

/// Where the character begins that is cut at the end of the bytes, looked for from a place on;
/// the end where none is cut.
pub open spec fn open_from(bytes: Seq<u8>, from: int) -> int
    decreases bytes.len() - from,
{
    if from >= bytes.len() {
        bytes.len() as int
    } else if is_open(bytes.skip(from)) {
        from
    } else {
        open_from(bytes, from + 1)
    }
}

/// Where the character begins that is cut at the end of the bytes; the end where none is cut.
pub open spec fn open_start(bytes: Seq<u8>) -> int {
    open_from(bytes, 0)
}

/// The characters of the bytes, with U+FFFD in place of what is not UTF-8.
pub open spec fn replaced(bytes: Seq<u8>) -> Seq<char> {
    if valid_utf8(bytes) {
        decode_utf8(bytes)
    } else {
        decode_utf8(bytes.take(valid_up_to(bytes))) + utf8_lossy(bytes.skip(valid_up_to(bytes)))
    }
}

/// The text that a read adds, where `pending` was carried into it.
pub open spec fn stream_text(pending: Seq<u8>, bytes: Seq<u8>) -> Seq<char> {
    let all = pending + bytes;
    replaced(all.take(open_start(all)))
}

/// The bytes that a read leaves for the next one: the character that is cut at its end.
pub open spec fn stream_rest(pending: Seq<u8>, bytes: Seq<u8>) -> Seq<u8> {
    let all = pending + bytes;
    all.skip(open_start(all))
}

/// Calls `std::str::from_utf8`. It accepts exactly UTF-8 and returns the text. Otherwise its
/// error tells the length of the longest prefix that is UTF-8 (`valid_up_to`), and whether
/// the end came in the middle of a character (`error_len` is `None`), so that with more
/// bytes the remainder could be UTF-8. What number `error_len` gives is not stated.
#[verifier::external_body]
fn check_utf8(bytes: &[u8]) -> (r: Result<String, (usize, Option<usize>)>)
    ensures
        r matches Ok(text) ==> valid_utf8(bytes@) && text@ == decode_utf8(bytes@),
        r matches Err((n, len)) ==> !valid_utf8(bytes@) && is_valid_up_to(bytes@, n as int) && (
        len is None <==> is_cut(bytes@.skip(n as int))),
{
    match std::str::from_utf8(bytes) {
        Ok(text) => Ok(text.to_string()),
        Err(err) => Err((err.valid_up_to(), err.error_len())),
    }
}

/// Calls `String::from_utf8_lossy`, whose result is named. It replaces only what is not UTF-8,
/// which a line feed is wherever it stands: there are as many of them as before, and what stands
/// before one makes no difference to what is made of the bytes behind it.
#[verifier::external_body]
pub(crate) fn decode_lossy(bytes: &[u8]) -> (r: String)
    ensures
        r@ == utf8_lossy(bytes@),
        valid_utf8(bytes@) ==> r@ == decode_utf8(bytes@),
        feeds(r@) == newline_count(bytes@),
        forall|before: Seq<u8>| #[trigger]
            utf8_lossy(before.push(10) + bytes@) == utf8_lossy(before).push('\n') + r@,
{
    String::from_utf8_lossy(bytes).into_owned()
}

/// There is only one longest prefix that is UTF-8.
proof fn valid_up_to_is(bytes: Seq<u8>, n: int)
    requires
        is_valid_up_to(bytes, n),
    ensures
        valid_up_to(bytes) == n,
{
    let m = valid_up_to(bytes);
    assert(is_valid_up_to(bytes, m));
    if m < n {
        assert(!valid_utf8(bytes.take(n)));
    }
    if n < m {
        assert(!valid_utf8(bytes.take(m)));
    }
}

/// There is a longest prefix that is UTF-8.
proof fn valid_up_to_exists(bytes: Seq<u8>, n: int)
    requires
        0 <= n <= bytes.len(),
        forall|k: int| n < k <= bytes.len() ==> !valid_utf8(#[trigger] bytes.take(k)),
    ensures
        is_valid_up_to(bytes, valid_up_to(bytes)),
    decreases n,
{
    if valid_utf8(bytes.take(n)) {
        assert(is_valid_up_to(bytes, n));
    } else if n == 0 {
        assert(bytes.take(0) =~= Seq::empty());
    } else {
        valid_up_to_exists(bytes, n - 1);
    }
}

/// A copy of a part of `bytes`.
fn copy_bytes(bytes: &[u8], from: usize) -> (r: Vec<u8>)
    requires
        from <= bytes@.len(),
    ensures
        r@ == bytes@.skip(from as int),
{
    let mut r: Vec<u8> = Vec::new();
    append_bytes(&mut r, vstd::slice::slice_subrange(bytes, from, bytes.len()));
    assert(r@ =~= bytes@.skip(from as int));
    r
}

/// Appends `part` to `out`.
fn append_bytes(out: &mut Vec<u8>, part: &[u8])
    ensures
        final(out)@ == old(out)@ + part@,
{
    let mut i: usize = 0;
    while i < part.len()
        invariant
            i <= part.len(),
            out@ == old(out)@ + part@.take(i as int),
        decreases part.len() - i,
    {
        out.push(part[i]);
        i += 1;
        assert(part@.take(i as int) =~= part@.take(i - 1).push(part@[i - 1]));
    }
    assert(part@.take(i as int) =~= part@);
}

/// What is found is the first place from which the bytes are a cut character.
proof fn open_from_is_first(bytes: Seq<u8>, from: int)
    requires
        0 <= from <= bytes.len(),
    ensures
        from <= open_from(bytes, from) <= bytes.len(),
        open_from(bytes, from) < bytes.len() ==> is_open(bytes.skip(open_from(bytes, from))),
        forall|i: int| from <= i < open_from(bytes, from) ==> !is_open(#[trigger] bytes.skip(i)),
    decreases bytes.len() - from,
{
    if from < bytes.len() && !is_open(bytes.skip(from)) {
        open_from_is_first(bytes, from + 1);
    }
}

/// There is only one first place.
proof fn open_start_is(bytes: Seq<u8>, n: int)
    requires
        0 <= n <= bytes.len(),
        n < bytes.len() ==> is_open(bytes.skip(n)),
        forall|i: int| 0 <= i < n ==> !is_open(#[trigger] bytes.skip(i)),
    ensures
        open_start(bytes) == n,
{
    open_from_is_first(bytes, 0);
    let m = open_start(bytes);
    if m < n {
        assert(!is_open(bytes.skip(m)));
    }
    if n < m {
        assert(!is_open(bytes.skip(n)));
    }
}

/// A cut character has at most three bytes.
proof fn open_is_short(bytes: Seq<u8>)
    requires
        is_open(bytes),
    ensures
        bytes.len() <= 3,
{
    if bytes.len() >= 4 {
        let more = choose|more: Seq<u8>| valid_utf8(#[trigger] (bytes + more));
        let whole = bytes + more;
        reveal_with_fuel(valid_utf8, 2);
        assert(valid_first_scalar(whole));
        let k = length_of_first_scalar(whole);
        assert(1 <= k <= 4);
        let one = bytes.take(k);
        assert(one =~= whole.take(k));
        assert(valid_first_scalar(one));
        assert(one.skip(k) =~= Seq::empty());
        assert(vstd::utf8::pop_first_scalar(one) =~= Seq::empty());
        assert(valid_utf8(one));
    }
}

/// What a cut character begins with is a cut character.
proof fn open_begins_open(bytes: Seq<u8>, n: int)
    requires
        is_open(bytes),
        0 < n <= bytes.len(),
    ensures
        is_open(bytes.take(n)),
{
    let more = choose|more: Seq<u8>| valid_utf8(#[trigger] (bytes + more));
    let head = bytes.take(n);
    assert(head + (bytes.skip(n) + more) =~= bytes + more);
    assert(head.take(0) =~= bytes.take(0));
    assert forall|k: int| 0 < k <= head.len() implies !valid_utf8(#[trigger] head.take(k)) by {
        assert(head.take(k) =~= bytes.take(k));
    }
}

/// Whether the bytes are a character that is cut.
fn is_cut_character(bytes: &[u8]) -> (r: bool)
    ensures
        r == is_open(bytes@),
{
    if bytes.len() == 0 {
        return false;
    }
    match check_utf8(bytes) {
        Ok(_) => {
            assert(bytes@.take(bytes@.len() as int) =~= bytes@);
            false
        },
        Err((n, len)) => {
            proof {
                if n == 0 {
                    assert(bytes@.skip(0) =~= bytes@);
                } else {
                    assert(valid_utf8(bytes@.take(n as int)));
                }
            }
            n == 0 && len.is_none()
        },
    }
}

/// Where the character begins that is cut at the end of the bytes.
fn find_open(bytes: &[u8]) -> (r: usize)
    ensures
        r == open_start(bytes@),
        r <= bytes@.len(),
{
    let mut i: usize = if bytes.len() > 3 {
        bytes.len() - 3
    } else {
        0
    };
    proof {
        assert forall|k: int| 0 <= k < i implies !is_open(#[trigger] bytes@.skip(k)) by {
            if is_open(bytes@.skip(k)) {
                open_is_short(bytes@.skip(k));
            }
        }
    }
    while i < bytes.len()
        invariant
            i <= bytes.len(),
            forall|k: int| 0 <= k < i ==> !is_open(#[trigger] bytes@.skip(k)),
        decreases bytes.len() - i,
    {
        let end = vstd::slice::slice_subrange(bytes, i, bytes.len());
        assert(end@ =~= bytes@.skip(i as int));
        if is_cut_character(end) {
            proof {
                open_start_is(bytes@, i as int);
            }
            return i;
        }
        i += 1;
    }
    proof {
        open_start_is(bytes@, i as int);
    }
    i
}

/// The characters of the bytes, with U+FFFD in place of what is not UTF-8.
fn replace_invalid(bytes: &[u8]) -> (r: String)
    ensures
        r@ == replaced(bytes@),
{
    match check_utf8(bytes) {
        Ok(text) => text,
        Err((n, _)) => {
            proof {
                valid_up_to_is(bytes@, n as int);
            }
            let head = vstd::slice::slice_subrange(bytes, 0, n);
            assert(head@ =~= bytes@.take(n as int));
            let rest = vstd::slice::slice_subrange(bytes, n, bytes.len());
            assert(rest@ =~= bytes@.skip(n as int));
            let mut text = decode_lossy(head);
            text.append(decode_lossy(rest).as_str());
            text
        },
    }
}

/// Decodes what was carried over and `bytes`. A character that is cut at the end is carried in
/// `pending` into the next call; bytes that are not UTF-8 are replaced.
pub fn decode_utf8_stream(pending: &mut Vec<u8>, bytes: &[u8]) -> (r: String)
    ensures
        r@ == stream_text(old(pending)@, bytes@),
        final(pending)@ == stream_rest(old(pending)@, bytes@),
{
    append_bytes(pending, bytes);
    let ghost all = pending@;
    let n = find_open(pending.as_slice());
    let head = vstd::slice::slice_subrange(pending.as_slice(), 0, n);
    assert(head@ =~= all.take(n as int));
    let text = replace_invalid(head);
    let rest = copy_bytes(pending.as_slice(), n);
    *pending = rest;
    text
}

/// Decoding two strings that are UTF-8 one after the other.
proof fn decode_concat(a: Seq<u8>, b: Seq<u8>)
    requires
        valid_utf8(a),
        valid_utf8(b),
    ensures
        valid_utf8(a + b),
        decode_utf8(a + b) == decode_utf8(a) + decode_utf8(b),
{
    valid_utf8_concat(a, b);
    decode_utf8_encode_utf8(a);
    decode_utf8_encode_utf8(b);
    encode_concat(decode_utf8(a), decode_utf8(b));
    encode_utf8_decode_utf8(decode_utf8(a) + decode_utf8(b));
}

/// What two reads leave for the next one is what one read of all their bytes leaves.
pub proof fn split_reads_carry_alike(pending: Seq<u8>, a: Seq<u8>, b: Seq<u8>)
    ensures
        stream_rest(stream_rest(pending, a), b) == stream_rest(pending, a + b),
        open_start(pending + a + b) == open_start(pending + a) + open_start(
            stream_rest(pending, a) + b,
        ),
{
    let first = pending + a;
    let all = first + b;
    let s = open_start(first);
    let rest = first.skip(s);
    let later = rest + b;
    let n = open_start(later);
    open_from_is_first(first, 0);
    open_from_is_first(later, 0);
    assert(pending + (a + b) =~= all);
    assert forall|i: int| 0 <= i < s + n implies !is_open(#[trigger] all.skip(i)) by {
        if i < s {
            if is_open(all.skip(i)) {
                open_begins_open(all.skip(i), first.len() - i);
                assert(all.skip(i).take(first.len() - i) =~= first.skip(i));
                assert(!is_open(first.skip(i)));
            }
        } else {
            assert(all.skip(i) =~= later.skip(i - s));
        }
    }
    assert(all.skip(s + n) =~= later.skip(n));
    open_start_is(all, s + n);
}

/// A character that is cut between two reads is not lost: where the first read, with what was
/// carried into it, is UTF-8 but for a character that is cut at its end, the two reads give the
/// text that one read of all bytes gives, whatever the second read brings.
pub proof fn split_reads_decode_alike(pending: Seq<u8>, a: Seq<u8>, b: Seq<u8>)
    requires
        valid_utf8((pending + a).take(open_start(pending + a))),
    ensures
        stream_text(pending, a) + stream_text(stream_rest(pending, a), b) == stream_text(
            pending,
            a + b,
        ),
{
    let first = pending + a;
    let all = first + b;
    let s = open_start(first);
    let later = first.skip(s) + b;
    let n = open_start(later);
    open_from_is_first(first, 0);
    open_from_is_first(later, 0);
    split_reads_carry_alike(pending, a, b);
    assert(pending + (a + b) =~= all);
    let x = first.take(s);
    let y = later.take(n);
    assert(all.take(s + n) =~= x + y);
    if valid_utf8(y) {
        decode_concat(x, y);
    } else {
        assert forall|k: int| y.len() < k <= y.len() implies !valid_utf8(#[trigger] y.take(k)) by {}
        valid_up_to_exists(y, y.len() as int);
        let v = valid_up_to(y);
        let whole = x + y;
        assert(whole.take(s + v) =~= x + y.take(v));
        decode_concat(x, y.take(v));
        assert forall|k: int| s + v < k <= whole.len() implies !valid_utf8(
            #[trigger] whole.take(k),
        ) by {
            let part = whole.take(k);
            assert(part.subrange(0, s) =~= x);
            assert(part.subrange(s, part.len() as int) =~= y.take(k - s));
            partial_valid_partial_invalid_utf8(part, s);
        }
        assert(is_valid_up_to(whole, s + v));
        valid_up_to_is(whole, s + v);
        assert(y.take(y.len() as int) =~= y);
        assert(whole.take(whole.len() as int) =~= whole);
        assert(!valid_utf8(whole));
        assert(whole.skip(s + v) =~= y.skip(v));
        assert(replaced(whole) =~= decode_utf8(x) + replaced(y));
    }
}

/// Bytes that are UTF-8 are decoded as they are, and nothing is carried on.
pub proof fn whole_reads_decode(pending: Seq<u8>, bytes: Seq<u8>)
    requires
        valid_utf8(pending + bytes),
    ensures
        stream_text(pending, bytes) == decode_utf8(pending + bytes),
        stream_rest(pending, bytes) == Seq::<u8>::empty(),
{
    let all = pending + bytes;
    open_from_is_first(all, 0);
    let s = open_start(all);
    if s < all.len() {
        let end = all.skip(s);
        let more = choose|more: Seq<u8>| valid_utf8(#[trigger] (end + more));
        let whole = end + more;
        assert(whole[0] == all[s]);
        is_char_boundary_iff_not_is_continuation_byte(whole, 0);
        is_char_boundary_iff_not_is_continuation_byte(all, s);
        valid_utf8_split(all, s);
        assert(all.subrange(s, all.len() as int) =~= end);
        assert(end.take(end.len() as int) =~= end);
    }
    assert(all.take(s) =~= all);
    assert(all.skip(s) =~= Seq::empty());
}

/// What is carried into the next read is at most three bytes.
pub proof fn carried_bytes_are_few(pending: Seq<u8>, bytes: Seq<u8>)
    ensures
        stream_rest(pending, bytes).len() <= 3,
{
    let all = pending + bytes;
    open_from_is_first(all, 0);
    if open_start(all) < all.len() {
        open_is_short(all.skip(open_start(all)));
    }
}

} // verus!

//! Listening sockets and processes as the system lists them.
use crate::daemon::portmap::{is_key_list, keys_of};
use crate::model::ListeningPort;
use crate::text::chars::{
    append_chars, char_position, chars_of, find, find_char, is_text, last_char_position,
    last_position, opt_text, position, rfind, rfind_char, split_words, string_of, strip_prefix,
    strip_suffix, trim_text, trimmed, views, without_prefix, without_suffix, words,
    position_from_is_first, begins,
};
use crate::text::lines::{line_list, split_lines};
use crate::text::numbers::{
    decimal, decimal_chars, number, parse_decimal, parse_number,
};
use crate::text::utf8::{byte_len, char_width, count_within, head_within};
use std::collections::{BTreeMap, BTreeSet};
use vstd::prelude::*;
use vstd::slice::slice_subrange;

verus! {

broadcast use vstd::std_specs::btree::group_btree_axioms;

/// A listening socket.
#[derive(Debug)]
pub struct SockEntry {
    pub host: String,
    pub port: u16,
    pub inode: u64,
}

/// What a listening socket says.
#[verifier::ext_equal]
pub struct SockView {
    pub host: Seq<char>,
    pub port: int,
    pub inode: int,
}

impl View for SockEntry {
    type V = SockView;

    open spec fn view(&self) -> SockView {
        SockView { host: self.host@, port: self.port as int, inode: self.inode as int }
    }
}

/// What a list of sockets says.
pub open spec fn sock_views(v: Seq<SockEntry>) -> Seq<SockView> {
    Seq::new(v.len(), |i: int| v[i]@)
}

/// Byte number `k` of a word, the lowest first.
pub open spec fn word_byte(word: int, k: int) -> int {
    if k == 0 {
        word % 256
    } else if k == 1 {
        (word / 256) % 256
    } else if k == 2 {
        (word / 65536) % 256
    } else {
        (word / 16777216) % 256
    }
}

/// The bytes of a word, the lowest first.
pub open spec fn word_bytes(word: int) -> Seq<int> {
    seq![word_byte(word, 0), word_byte(word, 1), word_byte(word, 2), word_byte(word, 3)]
}

/// Four bytes as an address.
pub open spec fn dotted(b: Seq<int>) -> Seq<char> {
    decimal(b[0] as nat) + "."@ + decimal(b[1] as nat) + "."@ + decimal(b[2] as nat) + "."@
        + decimal(b[3] as nat)
}

/// The words of an address of `n` times eight hexadecimal digits; none where one of them is
/// not a number.
pub open spec fn hex_words(s: Seq<char>, n: nat) -> Option<Seq<int>>
    decreases n,
{
    if n == 0 {
        Some(Seq::empty())
    } else {
        match number(head_within(s, 8), 16, 0xffff_ffff) {
            None => None,
            Some(word) => match hex_words(s.skip(count_within(s, 8)), (n - 1) as nat) {
                None => None,
                Some(rest) => Some(seq![word] + rest),
            },
        }
    }
}

/// As far as its words are numbers, the address can be cut every eight bytes without cutting
/// a character.
pub open spec fn cuts_clean(s: Seq<char>, n: nat) -> bool
    decreases n,
{
    n > 0 ==> byte_len(head_within(s, 8)) == 8 && (number(head_within(s, 8), 16, 0xffff_ffff) is Some
        ==> cuts_clean(s.skip(count_within(s, 8)), (n - 1) as nat))
}

/// The sixteen bytes of four words.
pub open spec fn words_bytes(w: Seq<int>) -> Seq<int> {
    word_bytes(w[0]) + word_bytes(w[1]) + word_bytes(w[2]) + word_bytes(w[3])
}

/// An IPv4 address in the form of an IPv6 one: ten bytes of nought and two of ones before it.
pub open spec fn is_mapped(b: Seq<int>) -> bool {
    (forall|i: int| 0 <= i < 10 ==> #[trigger] b[i] == 0) && b[10] == 255 && b[11] == 255
}

/// The eight parts of an IPv6 address.
pub open spec fn segments(b: Seq<int>) -> Seq<int> {
    Seq::new(8, |i: int| b[2 * i] * 256 + b[2 * i + 1])
}

/// The number of parts that are nought from `i` on.
pub open spec fn zeros_from(segs: Seq<int>, i: int) -> int
    decreases segs.len() - i,
{
    if 0 <= i < segs.len() && segs[i] == 0 {
        1 + zeros_from(segs, i + 1)
    } else {
        0
    }
}

/// Where the longest row of noughts begins, among the places below `n`; the first of those
/// of equal length.
pub open spec fn longest_zeros(segs: Seq<int>, n: int) -> int
    decreases n,
{
    if n <= 1 {
        0
    } else {
        let before = longest_zeros(segs, n - 1);
        if zeros_from(segs, n - 1) > zeros_from(segs, before) {
            n - 1
        } else {
            before
        }
    }
}

/// The character of a hexadecimal digit.
pub open spec fn hex_digit(n: int) -> char {
    if n < 10 {
        (n + '0' as int) as char
    } else {
        (n - 10 + 'a' as int) as char
    }
}

/// `n` in hexadecimal, without leading noughts.
pub open spec fn hexadecimal(n: nat) -> Seq<char>
    decreases n,
{
    if n < 16 {
        seq![hex_digit(n as int)]
    } else {
        hexadecimal(n / 16).push(hex_digit((n % 16) as int))
    }
}

/// Parts of an address, with colons between them.
pub open spec fn colon_parts(segs: Seq<int>) -> Seq<char>
    decreases segs.len(),
{
    if segs.len() == 0 {
        Seq::empty()
    } else if segs.len() == 1 {
        hexadecimal(segs[0] as nat)
    } else {
        colon_parts(segs.drop_last()) + ":"@ + hexadecimal(segs.last() as nat)
    }
}

/// An IPv6 address as it is written: the longest row of at least two noughts is left out.
pub open spec fn ipv6_text(segs: Seq<int>) -> Seq<char> {
    let start = longest_zeros(segs, segs.len() as int);
    let len = zeros_from(segs, start);
    if len > 1 {
        colon_parts(segs.take(start)) + "::"@ + colon_parts(segs.skip(start + len))
    } else {
        colon_parts(segs)
    }
}

/// The address and port of a field in the system's list.
pub open spec fn hex_addr(field: Seq<char>, v6: bool) -> Option<(Seq<char>, int)> {
    match char_position(field, ':') {
        None => None,
        Some(p) => {
            let addr = field.take(p);
            match number(field.skip(p + 1), 16, 65535) {
                None => None,
                Some(port) => if !v6 {
                    if byte_len(addr) != 8 {
                        None
                    } else {
                        match number(addr, 16, 0xffff_ffff) {
                            None => None,
                            Some(ip) => Some((dotted(word_bytes(ip)), port)),
                        }
                    }
                } else if byte_len(addr) != 32 {
                    None
                } else {
                    match hex_words(addr, 4) {
                        None => None,
                        Some(w) => {
                            let b = words_bytes(w);
                            if is_mapped(b) {
                                Some((dotted(b.skip(12)), port))
                            } else {
                                Some((ipv6_text(segments(b)), port))
                            }
                        },
                    }
                },
            }
        },
    }
}

/// The address of the field can be read: where it is an IPv6 one that is long enough, it
/// is cut at characters.
pub open spec fn addr_readable(field: Seq<char>, v6: bool) -> bool {
    match char_position(field, ':') {
        None => true,
        Some(p) => v6 && byte_len(field.take(p)) == 32 && number(field.skip(p + 1), 16, 65535) is Some
            ==> cuts_clean(field.take(p), 4),
    }
}

fn push_decimal(out: &mut Vec<char>, n: u8)
    ensures
        final(out)@ == old(out)@ + decimal(n as nat),
{
    let digits = decimal_chars(n as u64);
    append_chars(out, digits.as_slice());
}

fn dotted_text(b0: u8, b1: u8, b2: u8, b3: u8) -> (r: String)
    ensures
        r@ == dotted(seq![b0 as int, b1 as int, b2 as int, b3 as int]),
{
    let mut out = decimal_chars(b0 as u64);
    out.push('.');
    push_decimal(&mut out, b1);
    out.push('.');
    push_decimal(&mut out, b2);
    out.push('.');
    push_decimal(&mut out, b3);
    proof {
        reveal_strlit(".");
        let d0 = decimal(b0 as nat);
        let d1 = decimal(b1 as nat);
        let d2 = decimal(b2 as nat);
        assert(d0.push('.') =~= d0 + "."@);
        assert((d0 + "."@ + d1).push('.') =~= d0 + "."@ + d1 + "."@);
        assert((d0 + "."@ + d1 + "."@ + d2).push('.') =~= d0 + "."@ + d1 + "."@ + d2 + "."@);
    }
    string_of(out.as_slice())
}

/// The bytes of a word, the lowest first.
fn low_bytes(word: u32) -> (r: (u8, u8, u8, u8))
    ensures
        word_bytes(word as int) == seq![r.0 as int, r.1 as int, r.2 as int, r.3 as int],
{
    (
        (word % 256) as u8,
        ((word / 256) % 256) as u8,
        ((word / 65536) % 256) as u8,
        ((word / 16777216) % 256) as u8,
    )
}

fn hex_chars(n: u16) -> (r: Vec<char>)
    ensures
        r@ == hexadecimal(n as nat),
    decreases n,
{
    if n < 16 {
        let mut r: Vec<char> = Vec::new();
        r.push(hex_char(n as u8));
        assert(r@ =~= seq![hex_digit(n as int)]);
        r
    } else {
        let mut r = hex_chars(n / 16);
        r.push(hex_char((n % 16) as u8));
        r
    }
}

fn hex_char(n: u8) -> (r: char)
    requires
        n < 16,
    ensures
        r == hex_digit(n as int),
{
    if n < 10 {
        (n + 48) as char
    } else {
        (n - 10 + 97) as char
    }
}

/// The numbers of a list of parts.
pub open spec fn seg_ints(segs: Seq<u16>) -> Seq<int> {
    Seq::new(segs.len(), |i: int| segs[i] as int)
}

fn push_parts(out: &mut Vec<char>, segs: &[u16])
    ensures
        final(out)@ == old(out)@ + colon_parts(seg_ints(segs@)),
{
    let ghost all = seg_ints(segs@);
    let ghost start = out@;
    let mut i: usize = 0;
    assert(start + Seq::empty() =~= start);
    while i < segs.len()
        invariant
            i <= segs.len(),
            all == seg_ints(segs@),
            out@ == start + colon_parts(all.take(i as int)),
        decreases segs.len() - i,
    {
        let ghost before = out@;
        assert(all.take(i + 1).drop_last() =~= all.take(i as int));
        let digits = hex_chars(segs[i]);
        if i > 0 {
            out.push(':');
        }
        append_chars(out, digits.as_slice());
        proof {
            reveal_strlit(":");
            if i > 0 {
                assert(out@ =~= start + (colon_parts(all.take(i as int)) + ":"@ + digits@));
            } else {
                assert(out@ =~= start + digits@);
            }
        }
        i += 1;
    }
    assert(all.take(i as int) =~= all);
}

fn count_zeros(segs: &Vec<u16>, from: usize) -> (r: usize)
    requires
        from <= segs@.len(),
    ensures
        r == zeros_from(seg_ints(segs@), from as int),
        from + r <= segs@.len(),
{
    let ghost all = seg_ints(segs@);
    let mut n: usize = 0;
    while from + n < segs.len() && segs[from + n] == 0
        invariant
            from + n <= segs.len(),
            all == seg_ints(segs@),
            zeros_from(all, from as int) == n + zeros_from(all, from + n),
        decreases segs.len() - n,
    {
        n += 1;
    }
    n
}

fn ipv6_string(segs: &Vec<u16>) -> (r: String)
    requires
        segs@.len() == 8,
    ensures
        r@ == ipv6_text(seg_ints(segs@)),
{
    let ghost all = seg_ints(segs@);
    let mut start: usize = 0;
    let mut len: usize = count_zeros(segs, 0);
    let mut i: usize = 1;
    while i < segs.len()
        invariant
            1 <= i <= segs.len(),
            segs@.len() == 8,
            all == seg_ints(segs@),
            start == longest_zeros(all, i as int),
            start < segs.len(),
            len == zeros_from(all, start as int),
            start + len <= segs.len(),
        decreases segs.len() - i,
    {
        let n = count_zeros(segs, i);
        if n > len {
            start = i;
            len = n;
        }
        i += 1;
    }
    let mut out: Vec<char> = Vec::new();
    if len > 1 {
        let head = slice_subrange(segs.as_slice(), 0, start);
        let tail = slice_subrange(segs.as_slice(), start + len, segs.len());
        assert(seg_ints(head@) =~= all.take(start as int));
        assert(seg_ints(tail@) =~= all.skip(start + len));
        push_parts(&mut out, head);
        let colons = chars_of("::");
        append_chars(&mut out, colons.as_slice());
        push_parts(&mut out, tail);
        assert(Seq::<char>::empty() + colon_parts(all.take(start as int)) =~= colon_parts(
            all.take(start as int),
        ));
    } else {
        push_parts(&mut out, segs.as_slice());
        assert(Seq::<char>::empty() + colon_parts(all) =~= colon_parts(all));
    }
    string_of(out.as_slice())
}

/// The number of leading characters that fit in eight bytes.
fn fit_eight(s: &[char]) -> (r: usize)
    ensures
        r == count_within(s@, 8),
        r <= s@.len(),
{
    let mut room: usize = 8;
    let mut i: usize = 0;
    assert(s@.skip(0) =~= s@);
    while i < s.len() && char_width(s[i]) <= room
        invariant
            i <= s.len(),
            count_within(s@, 8) == i + count_within(s@.skip(i as int), room as int),
        decreases s.len() - i,
    {
        assert(s@.skip(i as int).drop_first() =~= s@.skip(i + 1));
        room -= char_width(s[i]);
        i += 1;
    }
    i
}

fn bytes_of(s: &[char]) -> (r: Option<usize>)
    ensures
        r matches Some(n) ==> n == byte_len(s@),
        r is None ==> byte_len(s@) > 1000,
{
    let mut n: usize = 0;
    let mut i: usize = 0;
    assert(s@.take(0) =~= Seq::empty());
    while i < s.len()
        invariant
            i <= s.len(),
            n <= 1000,
            n == byte_len(s@.take(i as int)),
        decreases s.len() - i,
    {
        proof {
            crate::text::utf8::byte_len_push(s@.take(i as int), s@[i as int]);
            assert(s@.take(i + 1) =~= s@.take(i as int).push(s@[i as int]));
        }
        n += char_width(s[i]);
        i += 1;
        if n > 1000 {
            proof {
                crate::text::utf8::byte_len_split(s@, i as int);
            }
            return None;
        }
    }
    assert(s@.take(i as int) =~= s@);
    Some(n)
}

fn read_words(addr: &[char]) -> (r: Option<Vec<u32>>)
    requires
        cuts_clean(addr@, 4),
    ensures
        r matches Some(w) ==> w@.len() == 4 && hex_words(addr@, 4) == Some(
            Seq::new(4, |i: int| w@[i] as int),
        ),
        r is None ==> hex_words(addr@, 4) is None,
{
    reveal_with_fuel(hex_words, 5);
    reveal_with_fuel(cuts_clean, 5);
    let n0 = fit_eight(addr);
    let h0 = slice_subrange(addr, 0, n0);
    let t0 = slice_subrange(addr, n0, addr.len());
    assert(h0@ =~= head_within(addr@, 8));
    assert(t0@ =~= addr@.skip(count_within(addr@, 8)));
    let w0 = match parse_number(h0, 16, 0xffff_ffff) {
        Some(w) => w,
        None => {
            return None;
        },
    };
    let n1 = fit_eight(t0);
    let h1 = slice_subrange(t0, 0, n1);
    let t1 = slice_subrange(t0, n1, t0.len());
    assert(h1@ =~= head_within(t0@, 8));
    assert(t1@ =~= t0@.skip(count_within(t0@, 8)));
    let w1 = match parse_number(h1, 16, 0xffff_ffff) {
        Some(w) => w,
        None => {
            return None;
        },
    };
    let n2 = fit_eight(t1);
    let h2 = slice_subrange(t1, 0, n2);
    let t2 = slice_subrange(t1, n2, t1.len());
    assert(h2@ =~= head_within(t1@, 8));
    assert(t2@ =~= t1@.skip(count_within(t1@, 8)));
    let w2 = match parse_number(h2, 16, 0xffff_ffff) {
        Some(w) => w,
        None => {
            return None;
        },
    };
    let n3 = fit_eight(t2);
    let h3 = slice_subrange(t2, 0, n3);
    assert(h3@ =~= head_within(t2@, 8));
    let w3 = match parse_number(h3, 16, 0xffff_ffff) {
        Some(w) => w,
        None => {
            return None;
        },
    };
    let mut out: Vec<u32> = Vec::new();
    out.push(w0 as u32);
    out.push(w1 as u32);
    out.push(w2 as u32);
    out.push(w3 as u32);
    proof {
        let got = Seq::new(4, |i: int| out@[i] as int);
        let s3 = seq![w3 as int] + Seq::<int>::empty();
        let s2 = seq![w2 as int] + s3;
        let s1 = seq![w1 as int] + s2;
        let s0 = seq![w0 as int] + s1;
        assert(got =~= s0);
    }
    Some(out)
}

/// The address and port of a field in the system's list.
pub fn parse_hex_addr(field: &[char], v6: bool) -> (r: Option<(String, u16)>)
    requires
        addr_readable(field@, v6),
    ensures
        r matches Some(a) ==> hex_addr(field@, v6) == Some((a.0@, a.1 as int)),
        r is None ==> hex_addr(field@, v6) is None,
{
    let p = match find_char(field, ':') {
        Some(p) => p,
        None => {
            return None;
        },
    };
    let addr = slice_subrange(field, 0, p);
    let rest = slice_subrange(field, p + 1, field.len());
    assert(addr@ =~= field@.take(p as int));
    assert(rest@ =~= field@.skip(p + 1));
    let port: u16 = match parse_number(rest, 16, 65535) {
        Some(n) => n as u16,
        None => {
            return None;
        },
    };
    let len = bytes_of(addr);
    if !v6 {
        if len != Some(8) {
            return None;
        }
        return match parse_number(addr, 16, 0xffff_ffff) {
            Some(ip) => {
                let b = low_bytes(ip as u32);
                Some((dotted_text(b.0, b.1, b.2, b.3), port))
            },
            None => None,
        };
    }
    if len != Some(32) {
        return None;
    }
    let w = match read_words(addr) {
        Some(w) => w,
        None => {
            return None;
        },
    };
    let a = low_bytes(w[0]);
    let b = low_bytes(w[1]);
    let c = low_bytes(w[2]);
    let d = low_bytes(w[3]);
    let ghost ws = Seq::new(4, |i: int| w@[i] as int);
    let ghost bytes = words_bytes(ws);
    proof {
        assert(ws[0] == w@[0] && ws[1] == w@[1] && ws[2] == w@[2] && ws[3] == w@[3]);
        assert(bytes =~= seq![
            a.0 as int, a.1 as int, a.2 as int, a.3 as int,
            b.0 as int, b.1 as int, b.2 as int, b.3 as int,
            c.0 as int, c.1 as int, c.2 as int, c.3 as int,
            d.0 as int, d.1 as int, d.2 as int, d.3 as int,
        ]);
    }
    let mapped = a.0 == 0 && a.1 == 0 && a.2 == 0 && a.3 == 0 && b.0 == 0 && b.1 == 0 && b.2 == 0
        && b.3 == 0 && c.0 == 0 && c.1 == 0 && c.2 == 255 && c.3 == 255;
    proof {
        if is_mapped(bytes) {
            assert(bytes[0] == 0 && bytes[1] == 0 && bytes[2] == 0 && bytes[3] == 0 && bytes[4] == 0
                && bytes[5] == 0 && bytes[6] == 0 && bytes[7] == 0 && bytes[8] == 0 && bytes[9]
                == 0);
        }
        assert(mapped == is_mapped(bytes));
    }
    if mapped {
        assert(bytes.skip(12) =~= seq![d.0 as int, d.1 as int, d.2 as int, d.3 as int]);
        return Some((dotted_text(d.0, d.1, d.2, d.3), port));
    }
    let mut segs: Vec<u16> = Vec::new();
    segs.push(a.0 as u16 * 256 + a.1 as u16);
    segs.push(a.2 as u16 * 256 + a.3 as u16);
    segs.push(b.0 as u16 * 256 + b.1 as u16);
    segs.push(b.2 as u16 * 256 + b.3 as u16);
    segs.push(c.0 as u16 * 256 + c.1 as u16);
    segs.push(c.2 as u16 * 256 + c.3 as u16);
    segs.push(d.0 as u16 * 256 + d.1 as u16);
    segs.push(d.2 as u16 * 256 + d.3 as u16);
    assert(seg_ints(segs@) =~= segments(bytes));
    Some((ipv6_string(&segs), port))
}

/// A line of the system's list that is a listening socket's, as far as its address and
/// inode can be read.
pub open spec fn socket_line(line: Seq<char>, v6: bool) -> Option<SockView> {
    let fields = words(line);
    if fields.len() < 10 || fields[3] != "0A"@ {
        None
    } else {
        match (hex_addr(fields[1], v6), number(fields[9], 10, u64::MAX as int)) {
            (Some(a), Some(inode)) => Some(SockView { host: a.0, port: a.1, inode }),
            _ => None,
        }
    }
}

/// The addresses of the listening sockets can be read.
pub open spec fn line_readable(line: Seq<char>, v6: bool) -> bool {
    words(line).len() >= 10 && words(line)[3] == "0A"@ ==> addr_readable(words(line)[1], v6)
}

/// The listening sockets among the lines.
pub open spec fn socket_lines(lines: Seq<Seq<char>>, v6: bool) -> Seq<SockView>
    decreases lines.len(),
{
    if lines.len() == 0 {
        Seq::empty()
    } else {
        let before = socket_lines(lines.drop_last(), v6);
        match socket_line(lines.last(), v6) {
            Some(e) => before.push(e),
            None => before,
        }
    }
}

/// The lines below the heading.
pub open spec fn below_heading(text: Seq<char>) -> Seq<Seq<char>> {
    if line_list(text).len() == 0 {
        Seq::empty()
    } else {
        line_list(text).skip(1)
    }
}

fn read_socket_line(line: &[char], v6: bool) -> (r: Option<SockEntry>)
    requires
        line_readable(line@, v6),
    ensures
        r matches Some(e) ==> socket_line(line@, v6) == Some(e@),
        r is None ==> socket_line(line@, v6) is None,
{
    let fields = split_words(line);
    let ghost named = words(line@);
    assert(views(fields@) == named);
    if fields.len() < 10 {
        return None;
    }
    assert(fields@[3]@ == named[3] && fields@[1]@ == named[1] && fields@[9]@ == named[9]);
    if !is_text(fields[3], "0A") {
        return None;
    }
    match (parse_hex_addr(fields[1], v6), parse_decimal(fields[9], u64::MAX)) {
        (Some((host, port)), Some(inode)) => Some(SockEntry { host, port, inode }),
        _ => None,
    }
}

/// The listening sockets in the system's list.
pub fn parse_proc_net_tcp(text: &str, v6: bool) -> (r: Vec<SockEntry>)
    requires
        forall|i: int|
            0 <= i < below_heading(text@).len() ==> line_readable(
                #[trigger] below_heading(text@)[i],
                v6,
            ),
    ensures
        sock_views(r@) == socket_lines(below_heading(text@), v6),
{
    let chars = chars_of(text);
    let lines = split_lines(chars.as_slice());
    let ghost all = below_heading(text@);
    let mut out: Vec<SockEntry> = Vec::new();
    let mut i: usize = 1;
    assert(sock_views(out@) =~= Seq::empty());
    assert(all.take(0) =~= Seq::empty());
    if lines.len() == 0 {
        assert(all =~= Seq::empty());
        return out;
    }
    while i < lines.len()
        invariant
            1 <= i <= lines.len(),
            all == below_heading(text@),
            views(lines@) == line_list(text@),
            sock_views(out@) == socket_lines(all.take(i - 1), v6),
            forall|k: int| 0 <= k < all.len() ==> line_readable(#[trigger] all[k], v6),
        decreases lines.len() - i,
    {
        assert(lines@[i as int]@ == views(lines@)[i as int]);
        assert(lines@[i as int]@ == all[i - 1]);
        assert(all.take(i as int).drop_last() =~= all.take(i - 1));
        let ghost before = out@;
        if let Some(entry) = read_socket_line(lines[i], v6) {
            out.push(entry);
            assert(sock_views(out@) =~= sock_views(before).push(entry@));
        }
        i += 1;
    }
    assert(all.take(i - 1) =~= all);
    out
}

/// The parent in a process's status line: the second word behind its name.
pub open spec fn stat_parent(stat: Seq<char>) -> Option<int> {
    match last_position(stat, ") "@) {
        None => None,
        Some(p) => {
            let fields = words(stat.skip(p + ") "@.len()));
            if fields.len() < 2 {
                None
            } else {
                number(fields[1], 10, u32::MAX as int)
            }
        },
    }
}

/// The parent in a process's status line.
pub fn proc_stat_ppid(stat: &str) -> (r: Option<u32>)
    ensures
        r matches Some(n) ==> stat_parent(stat@) == Some(n as int),
        r is None ==> stat_parent(stat@) is None,
{
    let chars = chars_of(stat);
    let p = match rfind(chars.as_slice(), ") ") {
        Some(p) => p,
        None => {
            return None;
        },
    };
    proof {
        reveal_strlit(") ");
    }
    assert(p + 2 <= chars.len());
    let rest = slice_subrange(chars.as_slice(), p + 2, chars.len());
    assert(rest@ =~= stat@.skip(p + 2));
    let fields = split_words(rest);
    assert(views(fields@) == words(rest@));
    if fields.len() < 2 {
        return None;
    }
    assert(fields@[1]@ == views(fields@)[1]);
    match parse_decimal(fields[1], u32::MAX as u64) {
        Some(n) => Some(n as u32),
        None => None,
    }
}

/// The first port that the system hands out: the first number of the range that it names,
/// or 32768.
pub open spec fn port_floor(range: Option<Seq<char>>) -> int {
    match range {
        Some(text) => if words(text).len() > 0 && number(words(text)[0], 10, 65535) is Some {
            number(words(text)[0], 10, 65535)->0
        } else {
            32768
        },
        None => 32768,
    }
}

/// The first port that the system hands out.
pub fn parse_port_floor(range: Option<&str>) -> (r: u16)
    ensures
        r == port_floor(crate::text::chars::opt_str(range)),
{
    if let Some(text) = range {
        let chars = chars_of(text);
        let fields = split_words(chars.as_slice());
        assert(views(fields@) == words(text@));
        if fields.len() > 0 {
            assert(fields@[0]@ == views(fields@)[0]);
            if let Some(n) = parse_decimal(fields[0], 65535) {
                return n as u16;
            }
        }
    }
    32768
}

/// The inode of a socket's link.
pub open spec fn link_inode(link: Seq<char>) -> Option<int> {
    match without_prefix(link, "socket:["@) {
        None => None,
        Some(rest) => match without_suffix(rest, "]"@) {
            None => None,
            Some(num) => number(num, 10, u64::MAX as int),
        },
    }
}

/// The inode of a socket's link.
pub fn socket_inode(link: &str) -> (r: Option<u64>)
    ensures
        r matches Some(n) ==> link_inode(link@) == Some(n as int),
        r is None ==> link_inode(link@) is None,
{
    let chars = chars_of(link);
    match strip_prefix(chars.as_slice(), "socket:[") {
        Some(rest) => match strip_suffix(rest, "]") {
            Some(num) => parse_decimal(num, u64::MAX),
            None => None,
        },
        None => None,
    }
}

/// The name of a process, where it has one.
pub fn process_name(comm: &str) -> (r: Option<String>)
    ensures
        opt_text(r) == if trimmed(comm@).len() == 0 {
            None
        } else {
            Some(trimmed(comm@))
        },
{
    let name = trim_text(comm);
    if name.as_str().is_empty() {
        None
    } else {
        Some(name)
    }
}

/// The processes that belong to the roots after one look at a list of processes and their
/// parents: those before, and each whose parent belonged to them when its turn came.
pub open spec fn grown(owned: Set<u32>, procs: Seq<(u32, u32)>) -> Set<u32>
    decreases procs.len(),
{
    if procs.len() == 0 {
        owned
    } else {
        let before = grown(owned, procs.drop_last());
        if before.contains(procs.last().1) {
            before.insert(procs.last().0)
        } else {
            before
        }
    }
}

/// Adds the processes whose parents are in the set, in one pass. Says whether any was added.
pub fn grow_owned(owned: &mut BTreeSet<u32>, procs: &Vec<(u32, u32)>) -> (changed: bool)
    ensures
        final(owned)@ == grown(old(owned)@, procs@),
        changed == (final(owned)@ != old(owned)@),
{
    let ghost first = owned@;
    let mut changed = false;
    let mut i: usize = 0;
    while i < procs.len()
        invariant
            i <= procs.len(),
            owned@ == grown(first, procs@.take(i as int)),
            changed == (owned@ != first),
            first.subset_of(owned@),
        decreases procs.len() - i,
    {
        assert(procs@.take(i + 1).drop_last() =~= procs@.take(i as int));
        let pid = procs[i].0;
        let ghost before = owned@;
        if !owned.contains(&pid) {
            if owned.contains(&procs[i].1) {
                owned.insert(pid);
                changed = true;
                assert(!first.contains(pid));
                assert(owned@.contains(pid));
            }
        } else {
            assert(before.insert(pid) =~= before);
        }
        i += 1;
    }
    assert(procs@.take(i as int) =~= procs@);
    changed
}

/// The host and port of a local address.
pub open spec fn local_port(value: Seq<char>) -> Option<(Seq<char>, int)> {
    match last_char_position(value, ':') {
        None => None,
        Some(p) => match number(value.skip(p + 1), 10, 65535) {
            None => None,
            Some(port) => Some((no_trailing(no_leading(value.take(p), '['), ']'), port)),
        },
    }
}

/// `s` without the characters `c` that it begins with.
pub open spec fn no_leading(s: Seq<char>, c: char) -> Seq<char>
    decreases s.len(),
{
    if s.len() > 0 && s[0] == c {
        no_leading(s.drop_first(), c)
    } else {
        s
    }
}

/// `s` without the characters `c` that it ends with.
pub open spec fn no_trailing(s: Seq<char>, c: char) -> Seq<char>
    decreases s.len(),
{
    if s.len() > 0 && s.last() == c {
        no_trailing(s.drop_last(), c)
    } else {
        s
    }
}

fn drop_leading(s: &[char], c: char) -> (r: &[char])
    ensures
        r@ == no_leading(s@, c),
{
    let mut i: usize = 0;
    assert(s@.skip(0) =~= s@);
    while i < s.len() && s[i] == c
        invariant
            i <= s.len(),
            no_leading(s@.skip(i as int), c) == no_leading(s@, c),
        decreases s.len() - i,
    {
        assert(s@.skip(i as int).drop_first() =~= s@.skip(i + 1));
        i += 1;
    }
    assert(s@.subrange(i as int, s@.len() as int) =~= s@.skip(i as int));
    slice_subrange(s, i, s.len())
}

fn drop_trailing(s: &[char], c: char) -> (r: &[char])
    ensures
        r@ == no_trailing(s@, c),
{
    let mut n: usize = s.len();
    assert(s@.take(n as int) =~= s@);
    while n > 0 && s[n - 1] == c
        invariant
            n <= s.len(),
            no_trailing(s@.take(n as int), c) == no_trailing(s@, c),
        decreases n,
    {
        assert(s@.take(n as int).drop_last() =~= s@.take(n - 1));
        n -= 1;
    }
    assert(s@.subrange(0, n as int) =~= s@.take(n as int));
    slice_subrange(s, 0, n)
}

/// The host and port of a local address.
pub fn parse_local_port(value: &str) -> (r: Option<(String, u16)>)
    ensures
        r matches Some(a) ==> local_port(value@) == Some((a.0@, a.1 as int)),
        r is None ==> local_port(value@) is None,
{
    let chars = chars_of(value);
    local_port_of(chars.as_slice())
}

fn local_port_of(value: &[char]) -> (r: Option<(String, u16)>)
    ensures
        r matches Some(a) ==> local_port(value@) == Some((a.0@, a.1 as int)),
        r is None ==> local_port(value@) is None,
{
    let p = match rfind_char(value, ':') {
        Some(p) => p,
        None => {
            return None;
        },
    };
    let host = slice_subrange(value, 0, p);
    let rest = slice_subrange(value, p + 1, value.len());
    assert(host@ =~= value@.take(p as int));
    assert(rest@ =~= value@.skip(p + 1));
    match parse_decimal(rest, 65535) {
        Some(n) => Some((string_of(drop_trailing(drop_leading(host, '['), ']')), n as u16)),
        None => None,
    }
}

/// The leading ASCII digits of a text.
pub open spec fn leading_digits(s: Seq<char>) -> Seq<char>
    decreases s.len(),
{
    if s.len() > 0 && '0' <= s[0] <= '9' {
        seq![s[0]] + leading_digits(s.drop_first())
    } else {
        Seq::empty()
    }
}

/// The numbers that follow "pid=" in a line.
pub open spec fn pids_in(line: Seq<char>) -> Seq<int>
    decreases line.len(),
    via pids_in_decreases
{
    match position(line, "pid="@) {
        None => Seq::empty(),
        Some(p) => {
            let rest = line.skip(p + 4);
            match number(leading_digits(rest), 10, u32::MAX as int) {
                Some(n) => seq![n] + pids_in(rest),
                None => pids_in(rest),
            }
        },
    }
}

#[via_fn]
proof fn pids_in_decreases(line: Seq<char>) {
    reveal_strlit("pid=");
    position_from_is_first(line, "pid="@, 0);
}

/// The numbers of a list of processes.
pub open spec fn pid_ints(v: Seq<u32>) -> Seq<int> {
    Seq::new(v.len(), |i: int| v[i] as int)
}

fn take_digits(s: &[char]) -> (r: Vec<char>)
    ensures
        r@ == leading_digits(s@),
{
    let mut out: Vec<char> = Vec::new();
    let mut i: usize = 0;
    assert(s@.skip(0) =~= s@);
    assert(out@ + leading_digits(s@) =~= leading_digits(s@));
    while i < s.len() && '0' <= s[i] && s[i] <= '9'
        invariant
            i <= s.len(),
            out@ + leading_digits(s@.skip(i as int)) == leading_digits(s@),
        decreases s.len() - i,
    {
        let ghost rest = s@.skip(i as int);
        assert(rest.drop_first() =~= s@.skip(i + 1));
        out.push(s[i]);
        assert(out@ + leading_digits(s@.skip(i + 1)) =~= out@.drop_last() + (seq![s@[i as int]]
            + leading_digits(s@.skip(i + 1))));
        assert(out@.drop_last().push(s@[i as int]) =~= out@);
        i += 1;
    }
    assert(out@ + Seq::empty() =~= out@);
    out
}

/// The numbers that follow "pid=" in a line.
pub fn extract_pids(line: &str) -> (r: Vec<u32>)
    ensures
        pid_ints(r@) == pids_in(line@),
{
    let chars = chars_of(line);
    pids_of(chars.as_slice())
}

fn pids_of(line: &[char]) -> (r: Vec<u32>)
    ensures
        pid_ints(r@) == pids_in(line@),
{
    let mut out: Vec<u32> = Vec::new();
    let mut rest: &[char] = line;
    assert(pid_ints(out@) + pids_in(line@) =~= pids_in(line@));
    loop
        invariant
            pid_ints(out@) + pids_in(rest@) == pids_in(line@),
        decreases rest@.len(),
    {
        proof {
            reveal_strlit("pid=");
            position_from_is_first(rest@, "pid="@, 0);
        }
        let p = match find(rest, "pid=") {
            Some(p) => p,
            None => {
                assert(pid_ints(out@) + pids_in(rest@) =~= pid_ints(out@));
                return out;
            },
        };
        assert(p + 4 <= rest.len());
        let next = slice_subrange(rest, p + 4, rest.len());
        assert(next@ =~= rest@.skip(p + 4));
        let digits = take_digits(next);
        let ghost before = out@;
        if let Some(n) = parse_decimal(digits.as_slice(), u32::MAX as u64) {
            out.push(n as u32);
            assert(pid_ints(out@) =~= pid_ints(before).push(n as int));
            assert(pid_ints(out@) + pids_in(next@) =~= pid_ints(before) + (seq![n as int]
                + pids_in(next@)));
        }
        rest = next;
    }
}

/// What a line says of a listening port.
#[verifier::ext_equal]
pub struct ListenView {
    pub host: Seq<char>,
    pub port: int,
    pub pids: Seq<int>,
}

/// The processes among `pids` that are owned.
pub open spec fn owned_pids(pids: Seq<int>, owned: Set<u32>) -> Seq<int>
    decreases pids.len(),
{
    if pids.len() == 0 {
        Seq::empty()
    } else if owned.contains(pids.last() as u32) {
        owned_pids(pids.drop_last(), owned).push(pids.last())
    } else {
        owned_pids(pids.drop_last(), owned)
    }
}

/// The listening port of a line, where one of its processes is owned.
pub open spec fn listen_line(line: Seq<char>, owned: Set<u32>) -> Option<ListenView> {
    let fields = words(line);
    if fields.len() < 4 {
        None
    } else {
        match local_port(fields[3]) {
            None => None,
            Some(a) => {
                let pids = owned_pids(pids_in(line), owned);
                if pids.len() == 0 {
                    None
                } else {
                    Some(ListenView { host: a.0, port: a.1, pids })
                }
            },
        }
    }
}

/// `a`, with each of `b` that it does not hold behind it.
pub open spec fn pids_joined(a: Seq<int>, b: Seq<int>) -> Seq<int>
    decreases b.len(),
{
    if b.len() == 0 {
        a
    } else {
        let before = pids_joined(a, b.drop_last());
        if before.contains(b.last()) {
            before
        } else {
            before.push(b.last())
        }
    }
}

/// The listening ports of some lines: lines of one port are one port with the processes of
/// all of them.
pub open spec fn listening(lines: Seq<Seq<char>>, owned: Set<u32>) -> Map<u16, ListenView>
    decreases lines.len(),
{
    if lines.len() == 0 {
        Map::empty()
    } else {
        let before = listening(lines.drop_last(), owned);
        match listen_line(lines.last(), owned) {
            None => before,
            Some(l) => {
                let port = l.port as u16;
                before.insert(
                    port,
                    if before.contains_key(port) {
                        ListenView {
                            pids: pids_joined(before[port].pids, l.pids),
                            ..before[port]
                        }
                    } else {
                        l
                    },
                )
            },
        }
    }
}

/// What a port of the sidebar says.
pub open spec fn listen_view(l: ListeningPort) -> ListenView {
    ListenView { host: l.host@, port: l.port as int, pids: pid_ints(l.pids@) }
}

fn keep_owned(pids: &Vec<u32>, owned: &BTreeSet<u32>) -> (r: Vec<u32>)
    ensures
        pid_ints(r@) == owned_pids(pid_ints(pids@), owned@),
{
    let ghost all = pid_ints(pids@);
    let mut out: Vec<u32> = Vec::new();
    let mut i: usize = 0;
    assert(pid_ints(out@) =~= Seq::empty());
    while i < pids.len()
        invariant
            i <= pids.len(),
            all == pid_ints(pids@),
            pid_ints(out@) == owned_pids(all.take(i as int), owned@),
        decreases pids.len() - i,
    {
        assert(all.take(i + 1).drop_last() =~= all.take(i as int));
        let pid = pids[i];
        let ghost before = out@;
        if owned.contains(&pid) {
            out.push(pid);
            assert(pid_ints(out@) =~= pid_ints(before).push(pid as int));
        }
        i += 1;
    }
    assert(all.take(i as int) =~= all);
    out
}

fn join_pids(known: Vec<u32>, more: &Vec<u32>) -> (r: Vec<u32>)
    ensures
        pid_ints(r@) == pids_joined(pid_ints(known@), pid_ints(more@)),
{
    let ghost first = pid_ints(known@);
    let ghost all = pid_ints(more@);
    let mut out = known;
    let mut i: usize = 0;
    while i < more.len()
        invariant
            i <= more.len(),
            all == pid_ints(more@),
            pid_ints(out@) == pids_joined(first, all.take(i as int)),
        decreases more.len() - i,
    {
        assert(all.take(i + 1).drop_last() =~= all.take(i as int));
        let pid = more[i];
        let ghost before = out@;
        let held = holds_pid(&out, pid);
        if !held {
            out.push(pid);
            assert(pid_ints(out@) =~= pid_ints(before).push(pid as int));
        }
        i += 1;
    }
    assert(all.take(i as int) =~= all);
    out
}

fn holds_pid(pids: &Vec<u32>, pid: u32) -> (r: bool)
    ensures
        r == pid_ints(pids@).contains(pid as int),
{
    let mut i: usize = 0;
    while i < pids.len()
        invariant
            i <= pids.len(),
            forall|k: int| 0 <= k < i ==> pids@[k] != pid,
        decreases pids.len() - i,
    {
        if pids[i] == pid {
            assert(pid_ints(pids@)[i as int] == pid);
            return true;
        }
        i += 1;
    }
    false
}

fn read_listen_line(line: &[char], owned: &BTreeSet<u32>) -> (r: Option<ListeningPort>)
    ensures
        r matches Some(l) ==> listen_line(line@, owned@) == Some(listen_view(l)) && l.process is None
            && l.pane is None,
        r is None ==> listen_line(line@, owned@) is None,
{
    let fields = split_words(line);
    assert(views(fields@) == words(line@));
    if fields.len() < 4 {
        return None;
    }
    assert(fields@[3]@ == views(fields@)[3]);
    let (host, port) = match local_port_of(fields[3]) {
        Some(a) => a,
        None => {
            return None;
        },
    };
    let all = pids_of(line);
    let pids = keep_owned(&all, owned);
    if pids.len() == 0 {
        assert(pid_ints(pids@).len() == 0);
        return None;
    }
    assert(pid_ints(pids@).len() > 0);
    Some(ListeningPort { host, port, pids, process: None, pane: None })
}

/// The map holds the ports.
spec fn holds_listening(m: Map<u16, ListeningPort>, ports: Map<u16, ListenView>) -> bool {
    &&& m.dom() == ports.dom()
    &&& forall|k: u16| #[trigger]
        m.contains_key(k) ==> listen_view(m[k]) == ports[k] && m[k].process is None && m[k].pane is None
}

/// The ports in the output of the socket lister that owned processes listen on, by number.
pub fn parse_listening_ports(output: &str, owned: &BTreeSet<u32>) -> (r: Vec<ListeningPort>)
    ensures
        exists|keys: Seq<u16>|
            {
                &&& is_key_list(keys, listening(line_list(output@), owned@))
                &&& r@.len() == keys.len()
                &&& forall|i: int|
                    0 <= i < keys.len() ==> listen_view(#[trigger] r@[i]) == listening(
                        line_list(output@),
                        owned@,
                    )[keys[i]] && r@[i].process is None && r@[i].pane is None
            },
{
    let chars = chars_of(output);
    let lines = split_lines(chars.as_slice());
    let ghost all = line_list(output@);
    let mut ports: BTreeMap<u16, ListeningPort> = BTreeMap::new();
    let mut i: usize = 0;
    while i < lines.len()
        invariant
            i <= lines.len(),
            all == views(lines@),
            holds_listening(ports@, listening(all.take(i as int), owned@)),
        decreases lines.len() - i,
    {
        assert(all.take(i + 1).drop_last() =~= all.take(i as int));
        assert(all[i as int] == lines@[i as int]@);
        let ghost before = listening(all.take(i as int), owned@);
        let ghost held = ports@;
        if let Some(l) = read_listen_line(lines[i], owned) {
            let port = l.port;
            let next = match ports.remove(&port) {
                Some(known) => {
                    assert(held.contains_key(port));
                    ListeningPort {
                        host: known.host,
                        port: known.port,
                        pids: join_pids(known.pids, &l.pids),
                        process: None,
                        pane: None,
                    }
                },
                None => l,
            };
            ports.insert(port, next);
            assert(ports@ =~= held.insert(port, next));
            assert(ports@.dom() =~= before.insert(port, listen_view(next)).dom());
        }
        i += 1;
    }
    assert(all.take(i as int) =~= all);
    let keys = keys_of(&ports);
    let ghost made = listening(all, owned@);
    proof {
        assert(is_key_list(keys@, made));
    }
    let mut out: Vec<ListeningPort> = Vec::new();
    let mut k: usize = 0;
    let ghost whole = ports@;
    assert forall|n: int| 0 <= n < keys.len() implies ports@.contains_key(#[trigger] keys@[n]) by {
        assert(keys@.contains(keys@[n]));
    }
    while k < keys.len()
        invariant
            k <= keys.len(),
            holds_listening(whole, made),
            is_key_list(keys@, whole),
            out@.len() == k,
            forall|n: int|
                k <= n < keys.len() ==> ports@.contains_key(keys@[n])
                    && ports@[#[trigger] keys@[n]] == whole[keys@[n]],
            forall|n: int|
                0 <= n < k ==> listen_view(#[trigger] out@[n]) == made[keys@[n]]
                    && out@[n].process is None && out@[n].pane is None,
        decreases keys.len() - k,
    {
        let key = keys[k];
        assert(keys@.contains(keys@[k as int]));
        assert(whole.contains_key(keys@[k as int]));
        if let Some(l) = ports.remove(&key) {
            out.push(l);
        }
        k += 1;
    }
    out
}

} // verus!

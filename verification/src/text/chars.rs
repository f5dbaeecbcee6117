//! Characters, trimming, searching, splitting and joining.
use vstd::prelude::*;
use vstd::slice::slice_subrange;

verus! {

/// `String::push` appends one character to the end of the string.
pub assume_specification[ String::push ](s: &mut String, c: char)
    ensures
        final(s)@ == old(s)@.push(c),
;

/// A character with the Unicode property White_Space.
pub open spec fn is_white(c: char) -> bool {
    ||| '\u{9}' <= c <= '\u{d}'
    ||| c == ' '
    ||| c == '\u{85}'
    ||| c == '\u{a0}'
    ||| c == '\u{1680}'
    ||| '\u{2000}' <= c <= '\u{200a}'
    ||| c == '\u{2028}'
    ||| c == '\u{2029}'
    ||| c == '\u{202f}'
    ||| c == '\u{205f}'
    ||| c == '\u{3000}'
}

/// Whether `c` is white space.
pub fn white(c: char) -> (r: bool)
    ensures
        r == is_white(c),
{
    ('\u{9}' <= c && c <= '\u{d}') || c == ' ' || c == '\u{85}' || c == '\u{a0}' || c == '\u{1680}'
        || ('\u{2000}' <= c && c <= '\u{200a}') || c == '\u{2028}' || c == '\u{2029}' || c
        == '\u{202f}' || c == '\u{205f}' || c == '\u{3000}'
}

/// A control character: C0, DEL or C1.
pub open spec fn is_control_char(c: char) -> bool {
    c <= '\u{1f}' || ('\u{7f}' <= c <= '\u{9f}')
}

/// Whether `c` is a control character.
pub fn control_char(c: char) -> (r: bool)
    ensures
        r == is_control_char(c),
{
    c <= '\u{1f}' || ('\u{7f}' <= c && c <= '\u{9f}')
}

/// `c` with an ASCII capital replaced by its small letter.
pub open spec fn small(c: char) -> char {
    if 'A' <= c <= 'Z' {
        ((c as u32 + 32) as u32) as char
    } else {
        c
    }
}

/// `s` with every ASCII capital replaced by its small letter.
pub open spec fn lowered(s: Seq<char>) -> Seq<char> {
    Seq::new(s.len(), |i: int| small(s[i]))
}

/// The small letter of an ASCII capital, any other character as it is.
pub fn to_small(c: char) -> (r: char)
    ensures
        r == small(c),
{
    if 'A' <= c && c <= 'Z' {
        (c as u8 + 32) as char
    } else {
        c
    }
}

/// A copy of `s` in ASCII small letters.
pub fn lower(s: &[char]) -> (r: Vec<char>)
    ensures
        r@ == lowered(s@),
{
    let mut r: Vec<char> = Vec::new();
    let mut i: usize = 0;
    while i < s.len()
        invariant
            i <= s.len(),
            r@ == lowered(s@).take(i as int),
        decreases s.len() - i,
    {
        r.push(to_small(s[i]));
        i += 1;
        assert(lowered(s@).take(i as int) =~= lowered(s@).take(i - 1).push(lowered(s@)[i - 1]));
    }
    assert(lowered(s@).take(i as int) =~= lowered(s@));
    r
}

/// The characters of `s`.
pub fn chars_of(s: &str) -> (r: Vec<char>)
    ensures
        r@ == s@,
{
    let mut r: Vec<char> = Vec::new();
    for c in it: s.chars()
        invariant
            r@ == s@.take(it.index() as int),
            it.seq() == s@,
    {
        r.push(c);
        assert(s@.take(it.index() + 1) =~= s@.take(it.index() as int).push(c));
    }
    assert(s@.take(s@.len() as int) =~= s@);
    r
}

/// Appends `part` to `out`.
pub fn push_chars(out: &mut String, part: &[char])
    ensures
        final(out)@ == old(out)@ + part@,
{
    let mut i: usize = 0;
    while i < part.len()
        invariant
            i <= part.len(),
            out@ == old(out)@ + part@.take(i as int),
        decreases part.len() - i,
    {
        out.push(part[i]);
        i += 1;
        assert(part@.take(i as int) =~= part@.take(i - 1).push(part@[i - 1]));
    }
    assert(part@.take(i as int) =~= part@);
}

/// The text of `s`.
pub fn string_of(s: &[char]) -> (r: String)
    ensures
        r@ == s@,
{
    let mut r = String::new();
    push_chars(&mut r, s);
    assert(Seq::<char>::empty() + s@ =~= s@);
    r
}

/// A copy of `s`.
pub fn copy_chars(s: &[char]) -> (r: Vec<char>)
    ensures
        r@ == s@,
{
    let mut r: Vec<char> = Vec::new();
    append_chars(&mut r, s);
    assert(Seq::<char>::empty() + s@ =~= s@);
    r
}

/// Appends `part` to `out`.
pub fn append_chars(out: &mut Vec<char>, part: &[char])
    ensures
        final(out)@ == old(out)@ + part@,
{
    let mut i: usize = 0;
    while i < part.len()
        invariant
            i <= part.len(),
            out@ == old(out)@ + part@.take(i as int),
        decreases part.len() - i,
    {
        out.push(part[i]);
        i += 1;
        assert(part@.take(i as int) =~= part@.take(i - 1).push(part@[i - 1]));
    }
    assert(part@.take(i as int) =~= part@);
}

/// Whether `a` and `b` are the same text.
pub fn same_chars(a: &[char], b: &[char]) -> (r: bool)
    ensures
        r == (a@ == b@),
{
    if a.len() != b.len() {
        return false;
    }
    let mut i: usize = 0;
    while i < a.len()
        invariant
            i <= a.len(),
            a.len() == b.len(),
            forall|k: int| 0 <= k < i ==> a@[k] == b@[k],
        decreases a.len() - i,
    {
        if a[i] != b[i] {
            return false;
        }
        i += 1;
    }
    assert(a@ =~= b@);
    true
}

/// Whether `a` is the text `b`.
pub fn is_text(a: &[char], b: &str) -> (r: bool)
    ensures
        r == (a@ == b@),
{
    let b = chars_of(b);
    same_chars(a, b.as_slice())
}

/// Whether `a` and `b` are the same text.
pub fn same(a: &str, b: &str) -> (r: bool)
    ensures
        r == (a@ == b@),
{
    let a = chars_of(a);
    is_text(a.as_slice(), b)
}

/// `s` without its leading white space.
pub open spec fn trimmed_start(s: Seq<char>) -> Seq<char>
    decreases s.len(),
{
    if s.len() > 0 && is_white(s[0]) {
        trimmed_start(s.drop_first())
    } else {
        s
    }
}

/// `s` without its trailing white space.
pub open spec fn trimmed_end(s: Seq<char>) -> Seq<char>
    decreases s.len(),
{
    if s.len() > 0 && is_white(s.last()) {
        trimmed_end(s.drop_last())
    } else {
        s
    }
}

/// `s` without white space at either end.
pub open spec fn trimmed(s: Seq<char>) -> Seq<char> {
    trimmed_end(trimmed_start(s))
}

/// `s` without its leading white space.
pub fn trim_start(s: &[char]) -> (r: &[char])
    ensures
        r@ == trimmed_start(s@),
{
    let mut i: usize = 0;
    assert(s@.skip(0) =~= s@);
    while i < s.len() && white(s[i])
        invariant
            i <= s.len(),
            trimmed_start(s@.skip(i as int)) == trimmed_start(s@),
        decreases s.len() - i,
    {
        assert(s@.skip(i as int).drop_first() =~= s@.skip(i + 1));
        i += 1;
    }
    assert(s@.subrange(i as int, s@.len() as int) =~= s@.skip(i as int));
    slice_subrange(s, i, s.len())
}

/// `s` without its trailing white space.
pub fn trim_end(s: &[char]) -> (r: &[char])
    ensures
        r@ == trimmed_end(s@),
{
    let mut n: usize = s.len();
    assert(s@.take(n as int) =~= s@);
    while n > 0 && white(s[n - 1])
        invariant
            n <= s.len(),
            trimmed_end(s@.take(n as int)) == trimmed_end(s@),
        decreases n,
    {
        assert(s@.take(n as int).drop_last() =~= s@.take(n - 1));
        n -= 1;
    }
    assert(s@.subrange(0, n as int) =~= s@.take(n as int));
    slice_subrange(s, 0, n)
}

/// `s` without white space at either end.
pub fn trim(s: &[char]) -> (r: &[char])
    ensures
        r@ == trimmed(s@),
{
    trim_end(trim_start(s))
}

/// Trimming as far as `s` is a piece of the text: some suffix of it.
pub proof fn trimmed_start_is_suffix(s: Seq<char>)
    ensures
        trimmed_start(s).len() <= s.len(),
        trimmed_start(s) == s.skip(s.len() - trimmed_start(s).len()),
        trimmed_start(s).len() > 0 ==> !is_white(trimmed_start(s)[0]),
        forall|i: int| 0 <= i < s.len() - trimmed_start(s).len() ==> is_white(#[trigger] s[i]),
    decreases s.len(),
{
    if s.len() > 0 && is_white(s[0]) {
        trimmed_start_is_suffix(s.drop_first());
        let t = trimmed_start(s);
        assert(s.drop_first().skip(s.len() - 1 - t.len()) =~= s.skip(s.len() - t.len()));
        assert forall|i: int| 0 <= i < s.len() - t.len() implies is_white(#[trigger] s[i]) by {
            if i > 0 {
                assert(s.drop_first()[i - 1] == s[i]);
            }
        }
    } else {
        assert(s.skip(0) =~= s);
    }
}

/// What is left after trimming the end is a prefix of the text.
pub proof fn trimmed_end_is_prefix(s: Seq<char>)
    ensures
        trimmed_end(s).len() <= s.len(),
        trimmed_end(s) == s.take(trimmed_end(s).len() as int),
        trimmed_end(s).len() > 0 ==> !is_white(trimmed_end(s).last()),
    decreases s.len(),
{
    if s.len() > 0 && is_white(s.last()) {
        trimmed_end_is_prefix(s.drop_last());
        let t = trimmed_end(s);
        assert(s.drop_last().take(t.len() as int) =~= s.take(t.len() as int));
    } else {
        assert(s.take(s.len() as int) =~= s);
    }
}

/// `pat` stands in `s` at position `i`.
pub open spec fn stands_at(s: Seq<char>, pat: Seq<char>, i: int) -> bool {
    0 <= i && i + pat.len() <= s.len() && s.subrange(i, i + pat.len()) == pat
}

/// The first position at or after `from` where `pat` stands in `s`.
pub open spec fn position_from(s: Seq<char>, pat: Seq<char>, from: int) -> Option<int>
    decreases s.len() + 1 - from,
{
    if from < 0 || from + pat.len() > s.len() {
        None
    } else if stands_at(s, pat, from) {
        Some(from)
    } else {
        position_from(s, pat, from + 1)
    }
}

/// The first position where `pat` stands in `s`.
pub open spec fn position(s: Seq<char>, pat: Seq<char>) -> Option<int> {
    position_from(s, pat, 0)
}

/// `pat` stands somewhere in `s`.
pub open spec fn has_text(s: Seq<char>, pat: Seq<char>) -> bool {
    exists|i: int| stands_at(s, pat, i)
}

/// `s` begins with `pat`.
pub open spec fn begins(s: Seq<char>, pat: Seq<char>) -> bool {
    stands_at(s, pat, 0)
}

/// `s` ends with `pat`.
pub open spec fn finishes(s: Seq<char>, pat: Seq<char>) -> bool {
    pat.len() <= s.len() && stands_at(s, pat, s.len() - pat.len())
}

/// A found position is the first one.
pub proof fn position_from_is_first(s: Seq<char>, pat: Seq<char>, from: int)
    requires
        0 <= from,
    ensures
        position_from(s, pat, from) matches Some(p) ==> from <= p && stands_at(s, pat, p) && (
        forall|i: int| from <= i < p ==> !stands_at(s, pat, i)),
        position_from(s, pat, from) is None ==> (forall|i: int|
            from <= i ==> !stands_at(s, pat, i)),
    decreases s.len() + 1 - from,
{
    if from + pat.len() > s.len() {
    } else if stands_at(s, pat, from) {
    } else {
        position_from_is_first(s, pat, from + 1);
    }
}

/// The first place where `pat` stands is the position that is found.
pub proof fn position_from_is(s: Seq<char>, pat: Seq<char>, from: int, p: int)
    requires
        0 <= from <= p,
        stands_at(s, pat, p),
        forall|i: int| from <= i < p ==> !stands_at(s, pat, i),
    ensures
        position_from(s, pat, from) == Some(p),
    decreases p - from,
{
    if from < p {
        position_from_is(s, pat, from + 1, p);
    }
}

/// Looking from a later place finds the same, where nothing stands before it.
pub proof fn position_from_later(s: Seq<char>, pat: Seq<char>, from: int, later: int)
    requires
        0 <= from <= later <= s.len() + 1,
        forall|i: int| from <= i < later ==> !stands_at(s, pat, i),
    ensures
        position_from(s, pat, from) == position_from(s, pat, later),
    decreases later - from,
{
    if from < later {
        position_from_later(s, pat, from + 1, later);
    }
}

/// Looking in the rest of a text finds what looking further on in the text finds.
pub proof fn position_shift(s: Seq<char>, pat: Seq<char>, from: int, at: int)
    requires
        0 <= from <= at,
        from <= s.len(),
    ensures
        position_from(s, pat, at) == match position_from(s.skip(from), pat, at - from) {
            Some(p) => Some(p + from),
            None => None,
        },
    decreases s.len() + 1 - at,
{
    let t = s.skip(from);
    if at + pat.len() <= s.len() {
        assert(t.subrange(at - from, at - from + pat.len()) =~= s.subrange(at, at + pat.len()));
        if !stands_at(s, pat, at) {
            position_shift(s, pat, from, at + 1);
        }
    }
}

/// What is found in a text is found there in a longer one; what is not found in it may be
/// found in the longer one where it reaches past its end.
pub proof fn position_in_longer(a: Seq<char>, b: Seq<char>, pat: Seq<char>, from: int)
    requires
        0 <= from,
    ensures
        position_from(a, pat, from) is Some ==> position_from(a + b, pat, from) == position_from(
            a,
            pat,
            from,
        ),
        position_from(a, pat, from) is None ==> (forall|i: int|
            from <= i && #[trigger] stands_at(a + b, pat, i) ==> i + pat.len() > a.len()),
{
    position_from_is_first(a, pat, from);
    assert forall|i: int| from <= i && i + pat.len() <= a.len() implies #[trigger] stands_at(
        a + b,
        pat,
        i,
    ) == stands_at(a, pat, i) by {
        assert((a + b).subrange(i, i + pat.len()) =~= a.subrange(i, i + pat.len()));
    }
    match position_from(a, pat, from) {
        Some(p) => {
            position_from_is(a + b, pat, from, p);
        },
        None => {},
    }
}

/// A position is found exactly where the text is held.
pub proof fn position_iff_has_text(s: Seq<char>, pat: Seq<char>)
    ensures
        position(s, pat) is Some <==> has_text(s, pat),
{
    position_from_is_first(s, pat, 0);
}

/// Whether `pat` stands in `s` at position `i`.
pub fn at(s: &[char], pat: &[char], i: usize) -> (r: bool)
    ensures
        r == stands_at(s@, pat@, i as int),
{
    if i > s.len() || pat.len() > s.len() - i {
        return false;
    }
    same_chars(slice_subrange(s, i, i + pat.len()), pat)
}

/// The first position at or after `from` where `pat` stands in `s`.
pub fn find_from(s: &[char], pat: &[char], from: usize) -> (r: Option<usize>)
    ensures
        r matches Some(p) ==> position_from(s@, pat@, from as int) == Some(p as int),
        r is None ==> position_from(s@, pat@, from as int) is None,
{
    let mut i: usize = from;
    while i <= s.len() && pat.len() <= s.len() - i
        invariant
            position_from(s@, pat@, i as int) == position_from(s@, pat@, from as int),
        decreases s.len() + 1 - i,
    {
        if at(s, pat, i) {
            return Some(i);
        }
        if i == s.len() {
            assert(position_from(s@, pat@, i + 1) is None);
            return None;
        }
        i += 1;
    }
    None
}

/// The first position where the text `pat` stands in `s`.
pub fn find(s: &[char], pat: &str) -> (r: Option<usize>)
    ensures
        r matches Some(p) ==> position(s@, pat@) == Some(p as int),
        r is None ==> position(s@, pat@) is None,
{
    let pat = chars_of(pat);
    find_from(s, pat.as_slice(), 0)
}

/// Whether `pat` stands somewhere in `s`.
pub fn contains(s: &[char], pat: &str) -> (r: bool)
    ensures
        r == has_text(s@, pat@),
{
    let pat = chars_of(pat);
    contains_chars(s, pat.as_slice())
}

/// Whether `pat` stands somewhere in `s`.
pub fn contains_chars(s: &[char], pat: &[char]) -> (r: bool)
    ensures
        r == has_text(s@, pat@),
{
    proof {
        position_iff_has_text(s@, pat@);
    }
    find_from(s, pat, 0).is_some()
}

/// Whether `s` begins with `pat`.
pub fn starts_with(s: &[char], pat: &str) -> (r: bool)
    ensures
        r == begins(s@, pat@),
{
    let pat = chars_of(pat);
    at(s, pat.as_slice(), 0)
}

/// Whether `s` ends with `pat`.
pub fn ends_with(s: &[char], pat: &str) -> (r: bool)
    ensures
        r == finishes(s@, pat@),
{
    let pat = chars_of(pat);
    if pat.len() > s.len() {
        return false;
    }
    at(s, pat.as_slice(), s.len() - pat.len())
}

/// `s` without the prefix `pat`, where it has it.
pub open spec fn without_prefix(s: Seq<char>, pat: Seq<char>) -> Option<Seq<char>> {
    if begins(s, pat) {
        Some(s.skip(pat.len() as int))
    } else {
        None
    }
}

/// `s` without the suffix `pat`, where it has it.
pub open spec fn without_suffix(s: Seq<char>, pat: Seq<char>) -> Option<Seq<char>> {
    if finishes(s, pat) {
        Some(s.take(s.len() - pat.len()))
    } else {
        None
    }
}

/// `s` without the prefix `pat`, where it has it.
pub fn strip_prefix<'a>(s: &'a [char], pat: &str) -> (r: Option<&'a [char]>)
    ensures
        r matches Some(t) ==> without_prefix(s@, pat@) == Some(t@),
        r is None ==> without_prefix(s@, pat@) is None,
{
    let pat = chars_of(pat);
    if at(s, pat.as_slice(), 0) {
        assert(s@.subrange(pat@.len() as int, s@.len() as int) =~= s@.skip(pat@.len() as int));
        Some(slice_subrange(s, pat.len(), s.len()))
    } else {
        None
    }
}

/// `s` without the suffix `pat`, where it has it.
pub fn strip_suffix<'a>(s: &'a [char], pat: &str) -> (r: Option<&'a [char]>)
    ensures
        r matches Some(t) ==> without_suffix(s@, pat@) == Some(t@),
        r is None ==> without_suffix(s@, pat@) is None,
{
    if ends_with(s, pat) {
        let pat = chars_of(pat);
        assert(s@.subrange(0, s@.len() - pat@.len()) =~= s@.take(s@.len() - pat@.len()));
        Some(slice_subrange(s, 0, s.len() - pat.len()))
    } else {
        None
    }
}

/// The first position at or after `from` that holds the character `c`.
pub open spec fn char_position_from(s: Seq<char>, c: char, from: int) -> Option<int>
    decreases s.len() - from,
{
    if from < 0 || from >= s.len() {
        None
    } else if s[from] == c {
        Some(from)
    } else {
        char_position_from(s, c, from + 1)
    }
}

/// The first position that holds the character `c`.
pub open spec fn char_position(s: Seq<char>, c: char) -> Option<int> {
    char_position_from(s, c, 0)
}

/// A found character position is the first one.
pub proof fn char_position_from_is_first(s: Seq<char>, c: char, from: int)
    requires
        0 <= from,
    ensures
        char_position_from(s, c, from) matches Some(p) ==> from <= p < s.len() && s[p] == c && (
        forall|i: int| from <= i < p ==> s[i] != c),
        char_position_from(s, c, from) is None ==> (forall|i: int| from <= i < s.len() ==> s[i] != c),
    decreases s.len() - from,
{
    if from < s.len() && s[from] != c {
        char_position_from_is_first(s, c, from + 1);
    }
}

/// The first place that holds `c` is the position that is found.
pub proof fn char_position_from_is(s: Seq<char>, c: char, from: int, p: int)
    requires
        0 <= from <= p < s.len(),
        s[p] == c,
        forall|i: int| from <= i < p ==> s[i] != c,
    ensures
        char_position_from(s, c, from) == Some(p),
    decreases p - from,
{
    if from < p {
        char_position_from_is(s, c, from + 1, p);
    }
}

/// The first position at or after `from` that holds the character `c`.
pub fn find_char_from(s: &[char], c: char, from: usize) -> (r: Option<usize>)
    ensures
        r matches Some(p) ==> char_position_from(s@, c, from as int) == Some(p as int) && from <= p
            < s.len(),
        r is None ==> char_position_from(s@, c, from as int) is None,
{
    let mut i: usize = from;
    while i < s.len()
        invariant
            from <= i,
            char_position_from(s@, c, i as int) == char_position_from(s@, c, from as int),
        decreases s.len() - i,
    {
        if s[i] == c {
            return Some(i);
        }
        i += 1;
    }
    None
}

/// The first position that holds the character `c`.
pub fn find_char(s: &[char], c: char) -> (r: Option<usize>)
    ensures
        r matches Some(p) ==> char_position(s@, c) == Some(p as int) && p < s.len(),
        r is None ==> char_position(s@, c) is None,
{
    find_char_from(s, c, 0)
}

/// The last position below `end` that holds the character `c`.
pub open spec fn last_char_position_below(s: Seq<char>, c: char, end: int) -> Option<int>
    decreases end,
{
    if end <= 0 || end > s.len() {
        None
    } else if s[end - 1] == c {
        Some(end - 1)
    } else {
        last_char_position_below(s, c, end - 1)
    }
}

/// The last position that holds the character `c`.
pub open spec fn last_char_position(s: Seq<char>, c: char) -> Option<int> {
    last_char_position_below(s, c, s.len() as int)
}

/// The last position that holds the character `c`.
pub fn rfind_char(s: &[char], c: char) -> (r: Option<usize>)
    ensures
        r matches Some(p) ==> last_char_position(s@, c) == Some(p as int) && p < s.len(),
        r is None ==> last_char_position(s@, c) is None,
{
    let mut n: usize = s.len();
    while n > 0
        invariant
            n <= s.len(),
            last_char_position_below(s@, c, n as int) == last_char_position(s@, c),
        decreases n,
    {
        if s[n - 1] == c {
            return Some(n - 1);
        }
        n -= 1;
    }
    None
}

/// The last position at or below `last` where `pat` stands in `s`.
pub open spec fn last_position_from(s: Seq<char>, pat: Seq<char>, last: int) -> Option<int>
    decreases last + 1,
{
    if last < 0 {
        None
    } else if stands_at(s, pat, last) {
        Some(last)
    } else {
        last_position_from(s, pat, last - 1)
    }
}

/// The last position where `pat` stands in `s`.
pub open spec fn last_position(s: Seq<char>, pat: Seq<char>) -> Option<int> {
    last_position_from(s, pat, s.len() as int)
}

/// The last position where `pat` stands in `s`.
pub fn rfind(s: &[char], pat: &str) -> (r: Option<usize>)
    ensures
        r matches Some(p) ==> last_position(s@, pat@) == Some(p as int) && stands_at(
            s@,
            pat@,
            p as int,
        ),
        r is None ==> last_position(s@, pat@) is None,
{
    let needle = chars_of(pat);
    let mut i: usize = s.len();
    loop
        invariant
            i <= s.len(),
            needle@ == pat@,
            last_position_from(s@, pat@, i as int) == last_position(s@, pat@),
        decreases i,
    {
        if at(s, needle.as_slice(), i) {
            return Some(i);
        }
        if i == 0 {
            assert(last_position_from(s@, pat@, -1) is None);
            return None;
        }
        i -= 1;
    }
}

/// The texts that a list of pieces stands for.
pub open spec fn views(v: Seq<&[char]>) -> Seq<Seq<char>> {
    Seq::new(v.len(), |i: int| v[i]@)
}

/// The texts that a list of strings stands for.
pub open spec fn texts(v: Seq<String>) -> Seq<Seq<char>> {
    Seq::new(v.len(), |i: int| v[i]@)
}

/// The parts of `s` between the occurrences of the character `sep`.
pub open spec fn parts(s: Seq<char>, sep: char) -> Seq<Seq<char>>
    decreases s.len(),
{
    match char_position(s, sep) {
        Some(p) => if 0 <= p < s.len() {
            seq![s.take(p)] + parts(s.skip(p + 1), sep)
        } else {
            seq![s]
        },
        None => seq![s],
    }
}

/// A position found further on is one found in the rest.
pub proof fn char_position_shift(s: Seq<char>, c: char, from: int, at: int)
    requires
        0 <= from <= at <= s.len(),
    ensures
        char_position_from(s, c, at) == match char_position_from(s.skip(from), c, at - from) {
            Some(p) => Some(p + from),
            None => None,
        },
    decreases s.len() - at,
{
    if at < s.len() && s[at] != c {
        char_position_shift(s, c, from, at + 1);
    }
}

/// The parts of `s` between the occurrences of the character `sep`.
pub fn split_char<'a>(s: &'a [char], sep: char) -> (r: Vec<&'a [char]>)
    ensures
        views(r@) == parts(s@, sep),
        r@.len() > 0,
{
    let mut out: Vec<&'a [char]> = Vec::new();
    let mut start: usize = 0;
    assert(s@.skip(0) =~= s@);
    assert(views(out@) + parts(s@, sep) =~= parts(s@, sep));
    loop
        invariant
            start <= s.len(),
            views(out@) + parts(s@.skip(start as int), sep) == parts(s@, sep),
        decreases s.len() - start,
    {
        proof {
            char_position_shift(s@, sep, start as int, start as int);
        }
        let ghost before = out@;
        match find_char_from(s, sep, start) {
            Some(p) => {
                let piece = slice_subrange(s, start, p);
                out.push(piece);
                proof {
                    let rest = s@.skip(start as int);
                    assert(piece@ =~= rest.take(p - start));
                    assert(rest.skip(p - start + 1) =~= s@.skip(p + 1));
                    assert(views(out@) =~= views(before).push(piece@));
                    assert(views(out@) + parts(s@.skip(p + 1), sep) =~= views(before) + (seq![
                        piece@,
                    ] + parts(s@.skip(p + 1), sep)));
                }
                start = p + 1;
            },
            None => {
                let piece = slice_subrange(s, start, s.len());
                out.push(piece);
                proof {
                    assert(piece@ =~= s@.skip(start as int));
                    assert(views(out@) =~= views(before).push(piece@));
                    assert(views(out@) =~= views(before) + seq![piece@]);
                }
                return out;
            },
        }
    }
}

/// The number of leading characters that are not white space.
pub open spec fn word_len(s: Seq<char>) -> int
    decreases s.len(),
{
    if s.len() > 0 && !is_white(s[0]) {
        1 + word_len(s.drop_first())
    } else {
        0
    }
}

/// The length of the leading word lies within the text.
pub proof fn word_len_bounds(s: Seq<char>)
    ensures
        0 <= word_len(s) <= s.len(),
        s.len() > 0 && !is_white(s[0]) ==> word_len(s) > 0,
    decreases s.len(),
{
    if s.len() > 0 && !is_white(s[0]) {
        word_len_bounds(s.drop_first());
    }
}

/// The words of `s`: its longest pieces without white space.
pub open spec fn words(s: Seq<char>) -> Seq<Seq<char>>
    decreases s.len(),
    via words_decreases
{
    let t = trimmed_start(s);
    if t.len() == 0 {
        Seq::empty()
    } else {
        seq![t.take(word_len(t))] + words(t.skip(word_len(t)))
    }
}

#[via_fn]
proof fn words_decreases(s: Seq<char>) {
    trimmed_start_is_suffix(s);
    word_len_bounds(trimmed_start(s));
}

/// The words of `s`.
pub fn split_words<'a>(s: &'a [char]) -> (r: Vec<&'a [char]>)
    ensures
        views(r@) == words(s@),
{
    let mut out: Vec<&'a [char]> = Vec::new();
    let mut rest: &'a [char] = s;
    assert(views(out@) + words(s@) =~= words(s@));
    loop
        invariant
            views(out@) + words(rest@) == words(s@),
        decreases rest@.len(),
    {
        let t = trim_start(rest);
        if t.len() == 0 {
            assert(views(out@) + words(rest@) =~= views(out@));
            return out;
        }
        proof {
            trimmed_start_is_suffix(rest@);
        }
        let mut n: usize = 0;
        assert(t@.skip(0) =~= t@);
        while n < t.len() && !white(t[n])
            invariant
                n <= t.len(),
                word_len(t@) == n + word_len(t@.skip(n as int)),
            decreases t.len() - n,
        {
            assert(t@.skip(n as int).drop_first() =~= t@.skip(n + 1));
            n += 1;
        }
        proof {
            word_len_bounds(t@);
            assert(word_len(t@.skip(n as int)) == 0);
        }
        let ghost before = out@;
        let piece = slice_subrange(t, 0, n);
        out.push(piece);
        let next = slice_subrange(t, n, t.len());
        proof {
            assert(piece@ =~= t@.take(n as int));
            assert(next@ =~= t@.skip(n as int));
            assert(views(out@) =~= views(before).push(piece@));
            assert(views(out@) + words(next@) =~= views(before) + (seq![piece@] + words(next@)));
        }
        rest = next;
    }
}

/// The texts of `list`, one after the other, with `sep` between each two.
pub open spec fn joined(list: Seq<Seq<char>>, sep: Seq<char>) -> Seq<char>
    decreases list.len(),
{
    if list.len() == 0 {
        Seq::empty()
    } else if list.len() == 1 {
        list[0]
    } else {
        joined(list.drop_last(), sep) + sep + list.last()
    }
}

/// The pieces of `list`, with `sep` between each two.
pub fn join_pieces(list: &[&[char]], sep: &str) -> (r: Vec<char>)
    ensures
        r@ == joined(views(list@), sep@),
{
    let sep = chars_of(sep);
    let mut out: Vec<char> = Vec::new();
    let mut i: usize = 0;
    while i < list.len()
        invariant
            i <= list.len(),
            out@ == joined(views(list@).take(i as int), sep@),
        decreases list.len() - i,
    {
        let ghost all = views(list@);
        if i > 0 {
            append_chars(&mut out, sep.as_slice());
        }
        append_chars(&mut out, list[i]);
        i += 1;
        proof {
            assert(all.take(i as int).drop_last() =~= all.take(i - 1));
            if i == 1 {
                assert(out@ =~= all.take(1)[0]);
            }
        }
    }
    assert(views(list@).take(i as int) =~= views(list@));
    out
}

/// The strings of `list`, with `sep` between each two.
pub fn join_strings(list: &[String], sep: &str) -> (r: String)
    ensures
        r@ == joined(texts(list@), sep@),
{
    let mut out = String::new();
    let mut i: usize = 0;
    while i < list.len()
        invariant
            i <= list.len(),
            out@ == joined(texts(list@).take(i as int), sep@),
        decreases list.len() - i,
    {
        let ghost all = texts(list@);
        if i > 0 {
            out.append(sep);
        }
        out.append(list[i].as_str());
        i += 1;
        proof {
            assert(all.take(i as int).drop_last() =~= all.take(i - 1));
            if i == 1 {
                assert(out@ =~= all.take(1)[0]);
            }
        }
    }
    assert(texts(list@).take(i as int) =~= texts(list@));
    out
}

/// The text of an optional string.
pub open spec fn opt_text(o: Option<String>) -> Option<Seq<char>> {
    match o {
        Some(s) => Some(s@),
        None => None,
    }
}

/// The trimmed texts of `list`, without those that are empty.
pub open spec fn filled(list: Seq<Seq<char>>) -> Seq<Seq<char>>
    decreases list.len(),
{
    if list.len() == 0 {
        Seq::empty()
    } else if trimmed(list.last()).len() == 0 {
        filled(list.drop_last())
    } else {
        filled(list.drop_last()).push(trimmed(list.last()))
    }
}

/// The trimmed pieces of `list`, without those that are empty.
pub fn keep_filled<'a>(list: &Vec<&'a [char]>) -> (r: Vec<&'a [char]>)
    ensures
        views(r@) == filled(views(list@)),
{
    let mut out: Vec<&'a [char]> = Vec::new();
    let mut i: usize = 0;
    assert(views(out@) =~= Seq::empty());
    while i < list.len()
        invariant
            i <= list.len(),
            views(out@) == filled(views(list@).take(i as int)),
        decreases list.len() - i,
    {
        let t = trim(list[i]);
        let ghost before = out@;
        if t.len() > 0 {
            out.push(t);
            assert(views(out@) =~= views(before).push(t@));
        }
        i += 1;
        assert(views(list@).take(i as int).drop_last() =~= views(list@).take(i - 1));
    }
    assert(views(list@).take(i as int) =~= views(list@));
    out
}

/// Every character of `s` is an ASCII digit.
pub open spec fn is_numeric(s: Seq<char>) -> bool {
    forall|i: int| 0 <= i < s.len() ==> '0' <= #[trigger] s[i] <= '9'
}

/// Whether every character of `s` is an ASCII digit.
pub fn numeric(s: &[char]) -> (r: bool)
    ensures
        r == is_numeric(s@),
{
    let mut i: usize = 0;
    while i < s.len()
        invariant
            i <= s.len(),
            forall|k: int| 0 <= k < i ==> '0' <= #[trigger] s@[k] <= '9',
        decreases s.len() - i,
    {
        if !('0' <= s[i] && s[i] <= '9') {
            return false;
        }
        i += 1;
    }
    true
}

/// A copy of an optional string.
pub fn clone_opt(o: &Option<String>) -> (r: Option<String>)
    ensures
        r == *o,
{
    match o {
        Some(s) => Some(s.clone()),
        None => None,
    }
}

/// The text of an optional string slice.
pub open spec fn opt_str(o: Option<&str>) -> Option<Seq<char>> {
    match o {
        Some(s) => Some(s@),
        None => None,
    }
}

/// Whether two optional strings are the same.
pub fn same_opt(a: &Option<String>, b: &Option<String>) -> (r: bool)
    ensures
        r == (opt_text(*a) == opt_text(*b)),
{
    match (a, b) {
        (Some(a), Some(b)) => same(a.as_str(), b.as_str()),
        (None, None) => true,
        _ => false,
    }
}

/// Whether an optional string is the text.
pub fn is_opt_text(a: &Option<String>, b: &str) -> (r: bool)
    ensures
        r == (opt_text(*a) == Some(b@)),
{
    match a {
        Some(a) => same(a.as_str(), b),
        None => false,
    }
}

/// A string from an optional slice.
pub fn owned_opt(o: Option<&str>) -> (r: Option<String>)
    ensures
        opt_text(r) == opt_str(o),
{
    match o {
        Some(s) => Some(s.to_string()),
        None => None,
    }
}

/// Whether every character of `s` is white space.
pub open spec fn is_blank(s: Seq<char>) -> bool {
    trimmed(s).len() == 0
}

/// Whether `s` is empty but for white space.
pub fn blank(s: &str) -> (r: bool)
    ensures
        r == is_blank(s@),
{
    let chars = chars_of(s);
    trim(chars.as_slice()).len() == 0
}

/// A trimmed copy of `s`.
pub fn trim_text(s: &str) -> (r: String)
    ensures
        r@ == trimmed(s@),
{
    let chars = chars_of(s);
    string_of(trim(chars.as_slice()))
}

/// The newest `n` of `s`: its suffix of that length.
pub open spec fn newest<T>(s: Seq<T>, n: int) -> Seq<T> {
    if s.len() <= n {
        s
    } else {
        s.skip(s.len() - n)
    }
}

/// Drops the oldest items until at most `n` are left.
pub fn keep_newest<T>(v: &mut Vec<T>, n: usize)
    ensures
        final(v)@ == newest(old(v)@, n as int),
{
    let ghost all = v@;
    assert(all.skip(0) =~= all);
    let ghost mut gone: int = 0;
    while v.len() > n
        invariant
            0 <= gone <= all.len(),
            v@ == all.skip(gone),
            gone == 0 || all.len() - gone >= n,
        decreases v@.len(),
    {
        let _first = v.remove(0);
        proof {
            gone = gone + 1;
            assert(v@ =~= all.skip(gone));
        }
    }
}

/// A text that neither begins nor ends with white space is not changed by trimming.
pub proof fn trimmed_of_solid(s: Seq<char>)
    requires
        s.len() > 0 ==> !is_white(s[0]) && !is_white(s.last()),
    ensures
        trimmed(s) == s,
{
}

/// A letter or a digit.
pub open spec fn is_alnum(c: char) -> bool {
    ('a' <= c && c <= 'z') || ('A' <= c && c <= 'Z') || ('0' <= c && c <= '9')
}

/// A letter or a digit.
pub fn alnum(c: char) -> (r: bool)
    ensures
        r == is_alnum(c),
{
    ('a' <= c && c <= 'z') || ('A' <= c && c <= 'Z') || ('0' <= c && c <= '9')
}

/// A text with a name after it.
pub fn naming(before: &str, name: &str) -> (r: String)
    ensures
        r@ == before@ + name@,
{
    let mut out = before.to_string();
    out.append(name);
    out
}

/// A text with a name in it.
pub fn around(before: &str, name: &str, after: &str) -> (r: String)
    ensures
        r@ == before@ + name@ + after@,
{
    let mut out = naming(before, name);
    out.append(after);
    out
}

} // verus!

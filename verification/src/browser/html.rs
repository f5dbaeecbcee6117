//! The text of pages: entities, tags and attributes.
use crate::text::chars::{
    append_chars, char_position, chars_of, find_char, find_from, is_text, join_pieces, joined,
    lower, lowered, position, position_from_is_first, split_words, string_of, trim, trimmed, words,
};
use crate::text::utf8::{byte_len, byte_len_push, char_width};
use vstd::prelude::*;
use vstd::slice::slice_subrange;

verus! {

/// The text that an entity stands for; unknown ones stand for themselves.
pub open spec fn entity_text(entity: Seq<char>) -> Seq<char> {
    if entity == "amp"@ {
        "&"@
    } else if entity == "lt"@ {
        "<"@
    } else if entity == "gt"@ {
        ">"@
    } else if entity == "quot"@ {
        "\""@
    } else if entity == "apos"@ {
        "'"@
    } else {
        "&"@ + entity + ";"@
    }
}

fn push_text(out: &mut Vec<char>, s: &str)
    ensures
        final(out)@ == old(out)@ + s@,
{
    let chars = chars_of(s);
    append_chars(out, chars.as_slice());
}

fn push_entity(out: &mut Vec<char>, entity: &[char])
    ensures
        final(out)@ == old(out)@ + entity_text(entity@),
{
    if is_text(entity, "amp") {
        push_text(out, "&");
    } else if is_text(entity, "lt") {
        push_text(out, "<");
    } else if is_text(entity, "gt") {
        push_text(out, ">");
    } else if is_text(entity, "quot") {
        push_text(out, "\"");
    } else if is_text(entity, "apos") {
        push_text(out, "'");
    } else {
        let ghost before = out@;
        push_text(out, "&");
        append_chars(out, entity);
        push_text(out, ";");
        assert(out@ =~= before + ("&"@ + entity@ + ";"@));
    }
}

/// The most characters that an entity has.
pub const ENTITY_CAP: usize = 16;

/// A character of an entity.
pub open spec fn is_entity_char(c: char) -> bool {
    ('0' <= c <= '9') || ('A' <= c <= 'Z') || ('a' <= c <= 'z') || c == '#'
}

/// How many characters of an entity the text begins with, at most `cap`.
pub open spec fn entity_len(s: Seq<char>, cap: int) -> int
    decreases s.len(),
{
    if cap <= 0 || s.len() == 0 || !is_entity_char(s[0]) {
        0
    } else {
        1 + entity_len(s.drop_first(), cap - 1)
    }
}

/// The length lies within the text.
pub proof fn entity_len_bounds(s: Seq<char>, cap: int)
    ensures
        0 <= entity_len(s, cap) <= s.len(),
    decreases s.len(),
{
    if cap > 0 && s.len() > 0 && is_entity_char(s[0]) {
        entity_len_bounds(s.drop_first(), cap - 1);
    }
}

/// The text with its entities replaced. What is no entity stays, but for an ampersand at the
/// very end.
pub open spec fn unescaped(s: Seq<char>) -> Seq<char>
    decreases s.len(),
    via unescaped_decreases
{
    if s.len() == 0 {
        Seq::empty()
    } else if s[0] != '&' {
        seq![s[0]] + unescaped(s.drop_first())
    } else {
        let n = entity_len(s.drop_first(), ENTITY_CAP as int);
        let entity = s.subrange(1, 1 + n);
        let rest = s.skip(1 + n);
        if rest.len() == 0 {
            if n == 0 {
                Seq::empty()
            } else {
                "&"@ + entity
            }
        } else if rest[0] == ';' {
            entity_text(entity) + unescaped(rest.drop_first())
        } else {
            "&"@ + entity + unescaped(rest)
        }
    }
}

#[via_fn]
proof fn unescaped_decreases(s: Seq<char>) {
    if s.len() > 0 {
        entity_len_bounds(s.drop_first(), ENTITY_CAP as int);
    }
}

fn unescape_chars(s: &[char]) -> (r: Vec<char>)
    ensures
        r@ == unescaped(s@),
{
    let mut out: Vec<char> = Vec::new();
    let mut i: usize = 0;
    assert(s@.skip(0) =~= s@);
    assert(out@ + unescaped(s@) =~= unescaped(s@));
    while i < s.len()
        invariant
            i <= s.len(),
            out@ + unescaped(s@.skip(i as int)) == unescaped(s@),
        decreases s.len() - i,
    {
        let ghost rest = s@.skip(i as int);
        let ghost before = out@;
        assert(rest.drop_first() =~= s@.skip(i + 1));
        if s[i] != '&' {
            out.push(s[i]);
            i += 1;
            assert(out@ + unescaped(s@.skip(i as int)) =~= before + (seq![rest[0]] + unescaped(
                rest.drop_first(),
            )));
            continue ;
        }
        let start: usize = i + 1;
        let mut n: usize = 0;
        let ghost body = rest.drop_first();
        assert(body.skip(0) =~= body);
        while n < ENTITY_CAP && start + n < s.len() && entity_char(s[start + n])
            invariant
                n <= ENTITY_CAP,
                start == i + 1,
                start + n <= s.len(),
                body == s@.skip(start as int),
                entity_len(body, ENTITY_CAP as int) == n + entity_len(
                    body.skip(n as int),
                    ENTITY_CAP - n,
                ),
            decreases ENTITY_CAP - n,
        {
            assert(body.skip(n as int).drop_first() =~= body.skip(n + 1));
            assert(body.skip(n as int)[0] == s@[start + n]);
            n += 1;
        }
        proof {
            if start + n < s.len() {
                assert(body.skip(n as int)[0] == s@[start + n]);
            }
            assert(entity_len(body, ENTITY_CAP as int) == n);
        }
        let entity = slice_subrange(s, start, start + n);
        assert(entity@ =~= rest.subrange(1, 1 + n));
        assert(rest.skip(1 + n) =~= s@.skip(start + n));
        i = start + n;
        if i == s.len() {
            if n > 0 {
                push_text(&mut out, "&");
                append_chars(&mut out, entity);
                assert(out@ =~= before + ("&"@ + entity@));
            }
            assert(out@ + unescaped(s@.skip(i as int)) =~= before + unescaped(rest));
        } else if s[i] == ';' {
            push_entity(&mut out, entity);
            i += 1;
            assert(rest.skip(1 + n).drop_first() =~= s@.skip(i as int));
            assert(out@ + unescaped(s@.skip(i as int)) =~= before + (entity_text(entity@)
                + unescaped(s@.skip(i as int))));
        } else {
            push_text(&mut out, "&");
            append_chars(&mut out, entity);
            assert(out@ + unescaped(s@.skip(i as int)) =~= before + ("&"@ + entity@ + unescaped(
                s@.skip(i as int),
            )));
        }
    }
    assert(s@.skip(i as int) =~= Seq::empty());
    assert(out@ + Seq::<char>::empty() =~= out@);
    out
}

fn entity_char(c: char) -> (r: bool)
    ensures
        r == is_entity_char(c),
{
    ('0' <= c && c <= '9') || ('A' <= c && c <= 'Z') || ('a' <= c && c <= 'z') || c == '#'
}

/// The text with its entities replaced.
pub fn html_unescape(value: &str) -> (r: String)
    ensures
        r@ == unescaped(value@),
{
    let chars = chars_of(value);
    let out = unescape_chars(chars.as_slice());
    string_of(out.as_slice())
}

/// Where in a page its text is being read.
pub enum TextMode {
    Plain,
    Tag,
    /// Within an entity, which holds this so far.
    Entity(Seq<char>),
}

/// The text of a page with a space for each tag.
pub open spec fn raw_text(s: Seq<char>, mode: TextMode) -> Seq<char>
    decreases s.len(),
{
    if s.len() == 0 {
        Seq::empty()
    } else {
        let c = s[0];
        let rest = s.drop_first();
        match mode {
            TextMode::Tag => if c == '>' {
                seq![' '] + raw_text(rest, TextMode::Plain)
            } else {
                raw_text(rest, TextMode::Tag)
            },
            TextMode::Entity(e) => if c == ';' {
                entity_text(e) + raw_text(rest, TextMode::Plain)
            } else if byte_len(e) < ENTITY_CAP {
                raw_text(rest, TextMode::Entity(e.push(c)))
            } else {
                "&"@ + e + raw_text(rest, TextMode::Plain)
            },
            TextMode::Plain => if c == '<' {
                raw_text(rest, TextMode::Tag)
            } else if c == '&' {
                raw_text(rest, TextMode::Entity(Seq::empty()))
            } else {
                seq![c] + raw_text(rest, TextMode::Plain)
            },
        }
    }
}

/// The text of a page: without tags, its words with one space between.
pub open spec fn page_text(s: Seq<char>) -> Seq<char> {
    joined(words(raw_text(s, TextMode::Plain)), " "@)
}

/// What is being read: a tag, an entity, or neither.
pub open spec fn mode_of(in_tag: bool, in_entity: bool, entity: Seq<char>) -> TextMode {
    if in_tag {
        TextMode::Tag
    } else if in_entity {
        TextMode::Entity(entity)
    } else {
        TextMode::Plain
    }
}

/// The text of a page.
pub fn text_chars(s: &[char]) -> (r: Vec<char>)
    ensures
        r@ == page_text(s@),
{
    let mut out: Vec<char> = Vec::new();
    let mut in_tag = false;
    let mut in_entity = false;
    let mut entity: Vec<char> = Vec::new();
    let mut entity_bytes: usize = 0;
    let mut i: usize = 0;
    let ghost whole = raw_text(s@, TextMode::Plain);
    assert(s@.skip(0) =~= s@);
    assert(out@ + whole =~= whole);
    while i < s.len()
        invariant
            i <= s.len(),
            !in_tag || !in_entity,
            !in_entity ==> entity@.len() == 0,
            entity_bytes == byte_len(entity@),
            entity_bytes < ENTITY_CAP + 4,
            out@ + raw_text(s@.skip(i as int), mode_of(in_tag, in_entity, entity@)) == whole,
        decreases s.len() - i,
    {
        let c = s[i];
        let ghost rest = s@.skip(i as int);
        let ghost next = s@.skip(i + 1);
        let ghost before = out@;
        let ghost held = entity@;
        assert(rest.drop_first() =~= next);
        i += 1;
        if in_tag {
            if c == '>' {
                in_tag = false;
                out.push(' ');
                assert(out@ + raw_text(next, TextMode::Plain) =~= before + (seq![' '] + raw_text(
                    next,
                    TextMode::Plain,
                )));
            }
        } else if in_entity {
            if c == ';' {
                push_entity(&mut out, entity.as_slice());
                entity = Vec::new();
                entity_bytes = 0;
                in_entity = false;
                assert(out@ + raw_text(next, TextMode::Plain) =~= before + (entity_text(held)
                    + raw_text(next, TextMode::Plain)));
            } else if entity_bytes < ENTITY_CAP {
                entity.push(c);
                proof {
                    byte_len_push(held, c);
                }
                entity_bytes = entity_bytes + char_width(c);
                assert(entity@ =~= held.push(c));
            } else {
                push_text(&mut out, "&");
                append_chars(&mut out, entity.as_slice());
                entity = Vec::new();
                entity_bytes = 0;
                in_entity = false;
                assert(out@ + raw_text(next, TextMode::Plain) =~= before + ("&"@ + held + raw_text(
                    next,
                    TextMode::Plain,
                )));
            }
        } else if c == '<' {
            in_tag = true;
        } else if c == '&' {
            in_entity = true;
            assert(entity@ =~= Seq::empty());
        } else {
            out.push(c);
            assert(out@ + raw_text(next, TextMode::Plain) =~= before + (seq![c] + raw_text(
                next,
                TextMode::Plain,
            )));
        }
    }
    assert(s@.skip(i as int) =~= Seq::empty());
    assert(out@ + Seq::<char>::empty() =~= out@);
    let list = split_words(out.as_slice());
    join_pieces(list.as_slice(), " ")
}

/// The text of a page: without tags, its words with one space between.
pub fn html_to_text(html: &str) -> (r: String)
    ensures
        r@ == page_text(html@),
{
    let chars = chars_of(html);
    let out = text_chars(chars.as_slice());
    string_of(out.as_slice())
}

/// The value of an attribute that is written with the quote, and whether it is written so at
/// all.
pub open spec fn quoted_value(attrs: Seq<char>, name: Seq<char>, quote: char) -> Option<
    Option<Seq<char>>,
> {
    let needle = name + "="@ + seq![quote];
    match position(lowered(attrs), needle) {
        None => None,
        Some(p) => {
            let rest = attrs.skip(p + needle.len());
            match char_position(rest, quote) {
                Some(e) => Some(Some(unescaped(rest.take(e)))),
                None => Some(None),
            }
        },
    }
}

/// The value of an attribute; one in double quotes comes before one in single quotes.
pub open spec fn attr_value(attrs: Seq<char>, name: Seq<char>) -> Option<Seq<char>> {
    match quoted_value(attrs, name, '"') {
        Some(v) => v,
        None => match quoted_value(attrs, name, '\'') {
            Some(v) => v,
            None => None,
        },
    }
}

fn read_quoted(attrs: &[char], name: &str, quote: char) -> (r: Option<Option<Vec<char>>>)
    ensures
        r is None ==> quoted_value(attrs@, name@, quote) is None,
        r matches Some(None) ==> quoted_value(attrs@, name@, quote) == Some(None::<Seq<char>>),
        r matches Some(Some(v)) ==> quoted_value(attrs@, name@, quote) == Some(Some(v@)),
{
    let mut needle = chars_of(name);
    push_text(&mut needle, "=");
    needle.push(quote);
    assert(needle@ =~= name@ + "="@ + seq![quote]);
    let l = lower(attrs);
    match find_from(l.as_slice(), needle.as_slice(), 0) {
        None => None,
        Some(p) => {
            proof {
                position_from_is_first(l@, needle@, 0);
            }
            assert(p + needle.len() <= attrs.len());
            let rest = slice_subrange(attrs, p + needle.len(), attrs.len());
            assert(rest@ =~= attrs@.skip(p + needle@.len()));
            match find_char(rest, quote) {
                Some(e) => {
                    let value = slice_subrange(rest, 0, e);
                    assert(value@ =~= rest@.take(e as int));
                    Some(Some(unescape_chars(value)))
                },
                None => Some(None),
            }
        },
    }
}

/// The value of an attribute, with its entities replaced.
pub fn html_attr(attrs: &[char], name: &str) -> (r: Option<String>)
    ensures
        crate::text::chars::opt_text(r) == attr_value(attrs@, name@),
{
    let value = match read_quoted(attrs, name, '"') {
        Some(v) => v,
        None => match read_quoted(attrs, name, '\'') {
            Some(v) => v,
            None => None,
        },
    };
    match value {
        Some(v) => Some(string_of(v.as_slice())),
        None => None,
    }
}

/// The first tag that begins so, whatever its case: what stands in it, and what follows it.
pub open spec fn cut_tag(s: Seq<char>, open: Seq<char>) -> Option<(Seq<char>, Seq<char>)> {
    match position(lowered(s), open) {
        None => None,
        Some(p) => {
            let rest = s.skip(p + open.len());
            match char_position(rest, '>') {
                Some(e) => Some((rest.take(e), rest.skip(e + 1))),
                None => None,
            }
        },
    }
}

/// What is cut is shorter.
pub proof fn cut_tag_shortens(s: Seq<char>, open: Seq<char>)
    ensures
        cut_tag(s, open) matches Some((attrs, after)) ==> attrs.len() + after.len() < s.len(),
{
    position_from_is_first(lowered(s), open, 0);
    if let Some(p) = position(lowered(s), open) {
        let rest = s.skip(p + open.len());
        crate::text::chars::char_position_from_is_first(rest, '>', 0);
    }
}

/// The first tag that begins so.
pub fn next_tag<'a>(s: &'a [char], open: &[char]) -> (r: Option<(&'a [char], &'a [char])>)
    ensures
        r matches Some((attrs, after)) ==> cut_tag(s@, open@) == Some((attrs@, after@)) && attrs.len()
            + after.len() < s.len(),
        r is None ==> cut_tag(s@, open@) is None,
{
    proof {
        cut_tag_shortens(s@, open@);
    }
    let l = lower(s);
    match find_from(l.as_slice(), open, 0) {
        None => None,
        Some(p) => {
            proof {
                position_from_is_first(l@, open@, 0);
            }
            assert(p + open.len() <= s.len());
            let rest = slice_subrange(s, p + open.len(), s.len());
            assert(rest@ =~= s@.skip(p + open@.len()));
            match find_char(rest, '>') {
                Some(e) => {
                    let attrs = slice_subrange(rest, 0, e);
                    let after = slice_subrange(rest, e + 1, rest.len());
                    assert(attrs@ =~= rest@.take(e as int));
                    assert(after@ =~= rest@.skip(e + 1));
                    Some((attrs, after))
                },
                None => None,
            }
        },
    }
}

/// What stands before the closing tag, and what follows it.
pub open spec fn cut_close(s: Seq<char>, close: Seq<char>) -> Option<(Seq<char>, Seq<char>)> {
    match position(lowered(s), close) {
        Some(p) => Some((s.take(p), s.skip(p + close.len()))),
        None => None,
    }
}

/// What stands before the closing tag, and what follows it.
pub fn split_close<'a>(s: &'a [char], close: &[char]) -> (r: Option<(&'a [char], &'a [char])>)
    ensures
        r matches Some((body, rest)) ==> cut_close(s@, close@) == Some((body@, rest@)) && body.len()
            <= s.len() && rest.len() <= s.len(),
        r is None ==> cut_close(s@, close@) is None,
{
    let l = lower(s);
    match find_from(l.as_slice(), close, 0) {
        None => None,
        Some(p) => {
            proof {
                position_from_is_first(l@, close@, 0);
            }
            assert(p + close.len() <= s.len());
            let body = slice_subrange(s, 0, p);
            let rest = slice_subrange(s, p + close.len(), s.len());
            assert(body@ =~= s@.take(p as int));
            assert(rest@ =~= s@.skip(p + close@.len()));
            Some((body, rest))
        },
    }
}

/// The title of a page, where it has one that is not empty.
pub open spec fn title_of(html: Seq<char>) -> Option<Seq<char>> {
    match cut_tag(html, "<title"@) {
        None => None,
        Some((attrs, after)) => match cut_close(after, "</title>"@) {
            None => None,
            Some((body, rest)) => {
                let title = trimmed(unescaped(body));
                if title.len() == 0 {
                    None
                } else {
                    Some(title)
                }
            },
        },
    }
}

/// The title of a page, where it has one that is not empty.
pub fn html_title(html: &str) -> (r: Option<String>)
    ensures
        crate::text::chars::opt_text(r) == title_of(html@),
{
    let chars = chars_of(html);
    let open = chars_of("<title");
    let close = chars_of("</title>");
    match next_tag(chars.as_slice(), open.as_slice()) {
        None => None,
        Some((_attrs, after)) => match split_close(after, close.as_slice()) {
            None => None,
            Some((body, _rest)) => {
                let text = unescape_chars(body);
                let title = trim(text.as_slice());
                if title.len() == 0 {
                    None
                } else {
                    Some(string_of(title))
                }
            },
        },
    }
}

/// Text without ampersands has no entities to replace.
pub proof fn unescaped_of_plain(s: Seq<char>)
    requires
        forall|i: int| 0 <= i < s.len() ==> #[trigger] s[i] != '&',
    ensures
        unescaped(s) == s,
    decreases s.len(),
{
    if s.len() > 0 {
        assert forall|i: int| 0 <= i < s.drop_first().len() implies #[trigger] s.drop_first()[i]
            != '&' by {
            assert(s[i + 1] != '&');
        }
        unescaped_of_plain(s.drop_first());
        assert(seq![s[0]] + s.drop_first() =~= s);
    }
}

} // verus!

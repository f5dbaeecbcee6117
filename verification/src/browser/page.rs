//! What stands on pages: links, forms, scripts, and the values that expressions name.
use crate::browser::html::{
    attr_value, cut_close, cut_tag, cut_tag_shortens, html_attr, next_tag, page_text, split_close,
    text_chars,
};
use crate::browser::url::{absolute, absolutize_url};
use crate::daemon::output::trim_output;
use crate::text::chars::{
    append_chars, char_position, chars_of, find, find_char, lowered, opt_text, position,
    position_from_is_first, string_of, texts, trim, trimmed,
};
use crate::text::utf8::{byte_len, bytes_in, char_at_byte, char_at_byte_is, char_width, tail_within};
use vstd::prelude::*;
use vstd::slice::slice_subrange;

verus! {

/// A link of a page.
#[derive(Debug)]
pub struct Link {
    pub href: String,
    pub text: String,
}

/// A field of a form.
#[derive(Debug)]
pub struct FormField {
    pub name: String,
    pub kind: String,
    pub value: String,
}

/// A form of a page.
#[derive(Debug)]
pub struct Form {
    /// The number of the form on its page, from one.
    pub index: usize,
    pub method: String,
    pub action: String,
    pub label: Option<String>,
    pub fields: Vec<FormField>,
}

/// A script of a page.
#[derive(Debug)]
pub struct Script {
    /// The number of the script on its page, from one.
    pub index: usize,
    pub src: Option<String>,
    pub kind: String,
    pub bytes: usize,
    pub preview: String,
}

/// A call of the console in a script.
#[derive(Debug)]
pub struct ConsoleCall {
    pub method: String,
    pub preview: String,
}

/// What a link says.
#[verifier::ext_equal]
pub struct LinkView {
    pub href: Seq<char>,
    pub text: Seq<char>,
}

/// What a field says.
#[verifier::ext_equal]
pub struct FieldView {
    pub name: Seq<char>,
    pub kind: Seq<char>,
    pub value: Seq<char>,
}

/// What a form says.
#[verifier::ext_equal]
pub struct FormView {
    pub index: int,
    pub method: Seq<char>,
    pub action: Seq<char>,
    pub label: Option<Seq<char>>,
    pub fields: Seq<FieldView>,
}

/// What a script says.
#[verifier::ext_equal]
pub struct ScriptView {
    pub index: int,
    pub src: Option<Seq<char>>,
    pub kind: Seq<char>,
    pub bytes: int,
    pub preview: Seq<char>,
}

/// What a call of the console says.
#[verifier::ext_equal]
pub struct CallView {
    pub method: Seq<char>,
    pub preview: Seq<char>,
}

impl View for Link {
    type V = LinkView;

    open spec fn view(&self) -> LinkView {
        LinkView { href: self.href@, text: self.text@ }
    }
}

impl View for FormField {
    type V = FieldView;

    open spec fn view(&self) -> FieldView {
        FieldView { name: self.name@, kind: self.kind@, value: self.value@ }
    }
}

impl View for Form {
    type V = FormView;

    open spec fn view(&self) -> FormView {
        FormView {
            index: self.index as int,
            method: self.method@,
            action: self.action@,
            label: opt_text(self.label),
            fields: field_views(self.fields@),
        }
    }
}

impl View for Script {
    type V = ScriptView;

    open spec fn view(&self) -> ScriptView {
        ScriptView {
            index: self.index as int,
            src: opt_text(self.src),
            kind: self.kind@,
            bytes: self.bytes as int,
            preview: self.preview@,
        }
    }
}

impl View for ConsoleCall {
    type V = CallView;

    open spec fn view(&self) -> CallView {
        CallView { method: self.method@, preview: self.preview@ }
    }
}

/// What a list of links says.
pub open spec fn link_views(v: Seq<Link>) -> Seq<LinkView> {
    Seq::new(v.len(), |i: int| v[i]@)
}

/// What a list of fields says.
pub open spec fn field_views(v: Seq<FormField>) -> Seq<FieldView> {
    Seq::new(v.len(), |i: int| v[i]@)
}

/// What a list of forms says.
pub open spec fn form_views(v: Seq<Form>) -> Seq<FormView> {
    Seq::new(v.len(), |i: int| v[i]@)
}

/// What a list of scripts says.
pub open spec fn script_views(v: Seq<Script>) -> Seq<ScriptView> {
    Seq::new(v.len(), |i: int| v[i]@)
}

/// What a list of console calls says.
pub open spec fn call_views(v: Seq<ConsoleCall>) -> Seq<CallView> {
    Seq::new(v.len(), |i: int| v[i]@)
}

/// The text up to a closing tag; none where the tag is not closed.
pub open spec fn text_before(s: Seq<char>, close: Seq<char>) -> Seq<char> {
    match cut_close(s, close) {
        Some((body, rest)) => trimmed(page_text(body)),
        None => Seq::empty(),
    }
}

/// The text up to a closing tag.
pub fn read_text_before(s: &[char], close: &str) -> (r: String)
    ensures
        r@ == text_before(s@, close@),
{
    let close = chars_of(close);
    match split_close(s, close.as_slice()) {
        Some((body, _rest)) => {
            let text = text_chars(body);
            string_of(trim(text.as_slice()))
        },
        None => {
            let r = String::new();
            assert(r@ =~= Seq::empty());
            r
        },
    }
}

/// The links of a page, in order.
pub open spec fn links_in(html: Seq<char>, base: Seq<char>) -> Seq<LinkView>
    decreases html.len(),
    via links_in_decreases
{
    match cut_tag(html, "<a "@) {
        None => Seq::empty(),
        Some((attrs, after)) => (match attr_value(attrs, "href"@) {
            Some(href) => seq![
                LinkView { href: absolute(base, href), text: text_before(after, "</a>"@) },
            ],
            None => Seq::empty(),
        }) + links_in(after, base),
    }
}

#[via_fn]
proof fn links_in_decreases(html: Seq<char>, base: Seq<char>) {
    cut_tag_shortens(html, "<a "@);
}

/// The links of a page, in order.
pub fn html_links(html: &str, base_url: &str) -> (r: Vec<Link>)
    ensures
        link_views(r@) == links_in(html@, base_url@),
{
    let chars = chars_of(html);
    let open = chars_of("<a ");
    let mut rest: &[char] = chars.as_slice();
    let mut out: Vec<Link> = Vec::new();
    assert(link_views(out@) + links_in(html@, base_url@) =~= links_in(html@, base_url@));
    loop
        invariant
            open@ == "<a "@,
            link_views(out@) + links_in(rest@, base_url@) == links_in(html@, base_url@),
        decreases rest.len(),
    {
        match next_tag(rest, open.as_slice()) {
            None => {
                assert(link_views(out@) + Seq::<LinkView>::empty() =~= link_views(out@));
                return out;
            },
            Some((attrs, after)) => {
                let ghost before = out@;
                if let Some(href) = html_attr(attrs, "href") {
                    let link = Link {
                        href: absolutize_url(base_url, href.as_str()),
                        text: read_text_before(after, "</a>"),
                    };
                    out.push(link);
                    assert(link_views(out@) =~= link_views(before).push(link@));
                }
                assert(link_views(out@) + links_in(after@, base_url@) =~= link_views(before)
                    + links_in(rest@, base_url@));
                rest = after;
            },
        }
    }
}

/// The blocks of a tag: what stands in the opening tag, and what stands between the tags.
pub open spec fn blocks_in(html: Seq<char>, open: Seq<char>, close: Seq<char>) -> Seq<
    (Seq<char>, Seq<char>),
>
    decreases html.len(),
    via blocks_in_decreases
{
    match cut_tag(html, open) {
        None => Seq::empty(),
        Some((attrs, after)) => match cut_close(after, close) {
            None => Seq::empty(),
            Some((body, rest)) => seq![(attrs, body)] + blocks_in(rest, open, close),
        },
    }
}

#[via_fn]
proof fn blocks_in_decreases(html: Seq<char>, open: Seq<char>, close: Seq<char>) {
    cut_tag_shortens(html, open);
    if let Some((attrs, after)) = cut_tag(html, open) {
        position_from_is_first(lowered(after), close, 0);
    }
}

/// The blocks of the tag with the name.
pub open spec fn tag_blocks(html: Seq<char>, tag: Seq<char>) -> Seq<(Seq<char>, Seq<char>)> {
    blocks_in(html, "<"@ + tag, "</"@ + tag + ">"@)
}

/// What pairs of pieces say.
pub open spec fn block_views<'a>(v: Seq<(&'a [char], &'a [char])>) -> Seq<(Seq<char>, Seq<char>)> {
    Seq::new(v.len(), |i: int| (v[i].0@, v[i].1@))
}

/// The blocks of the tag with the name, in order.
pub fn html_tag_blocks<'a>(html: &'a [char], tag: &[char]) -> (r: Vec<(&'a [char], &'a [char])>)
    ensures
        block_views(r@) == tag_blocks(html@, tag@),
{
    let mut open = chars_of("<");
    append_chars(&mut open, tag);
    let mut close = chars_of("</");
    append_chars(&mut close, tag);
    let end = chars_of(">");
    append_chars(&mut close, end.as_slice());
    let ghost whole = tag_blocks(html@, tag@);
    let mut rest: &'a [char] = html;
    let mut out: Vec<(&'a [char], &'a [char])> = Vec::new();
    assert(block_views(out@) + whole =~= whole);
    loop
        invariant
            block_views(out@) + blocks_in(rest@, open@, close@) == whole,
            whole == tag_blocks(html@, tag@),
        decreases rest.len(),
    {
        let ghost before = out@;
        match next_tag(rest, open.as_slice()) {
            None => {
                assert(block_views(out@) + blocks_in(rest@, open@, close@) =~= block_views(out@));
                return out;
            },
            Some((attrs, after)) => match split_close(after, close.as_slice()) {
                None => {
                    assert(block_views(out@) + blocks_in(rest@, open@, close@) =~= block_views(
                        out@,
                    ));
                    return out;
                },
                Some((body, next)) => {
                    out.push((attrs, body));
                    assert(block_views(out@) =~= block_views(before).push((attrs@, body@)));
                    assert(block_views(out@) + blocks_in(next@, open@, close@) =~= block_views(
                        before,
                    ) + blocks_in(rest@, open@, close@));
                    rest = next;
                },
            },
        }
    }
}

/// A script, by its number, its tag and its body.
pub open spec fn script_of(index: int, attrs: Seq<char>, body: Seq<char>, base: Seq<char>) -> ScriptView {
    ScriptView {
        index,
        src: match attr_value(attrs, "src"@) {
            Some(src) => Some(absolute(base, src)),
            None => None,
        },
        kind: match attr_value(attrs, "type"@) {
            Some(kind) => kind,
            None => "text/javascript"@,
        },
        bytes: byte_len(body) as int,
        preview: tail_within(trimmed(body), 500),
    }
}

/// The scripts of a page, in order.
pub fn html_scripts(html: &str, base_url: &str) -> (r: Vec<Script>)
    ensures
        script_views(r@) == Seq::new(
            tag_blocks(html@, "script"@).len(),
            |i: int|
                script_of(
                    i + 1,
                    tag_blocks(html@, "script"@)[i].0,
                    tag_blocks(html@, "script"@)[i].1,
                    base_url@,
                ),
        ),
{
    let chars = chars_of(html);
    let tag = chars_of("script");
    let blocks = html_tag_blocks(chars.as_slice(), tag.as_slice());
    let ghost all = tag_blocks(html@, "script"@);
    assert(all == block_views(blocks@));
    let mut out: Vec<Script> = Vec::new();
    let mut i: usize = 0;
    while i < blocks.len()
        invariant
            i <= blocks.len(),
            all == block_views(blocks@),
            out@.len() == i,
            forall|k: int|
                0 <= k < i ==> (#[trigger] out@[k])@ == script_of(
                    k + 1,
                    all[k].0,
                    all[k].1,
                    base_url@,
                ),
        decreases blocks.len() - i,
    {
        let (attrs, body) = blocks[i];
        assert(all[i as int] == (attrs@, body@));
        let src = match html_attr(attrs, "src") {
            Some(src) => Some(absolutize_url(base_url, src.as_str())),
            None => None,
        };
        let kind = match html_attr(attrs, "type") {
            Some(kind) => kind,
            None => "text/javascript".to_string(),
        };
        let text = string_of(body);
        let script = Script {
            index: i + 1,
            src,
            kind,
            bytes: bytes_in(text.as_str()),
            preview: trim_output(string_of(trim(body)), 500),
        };
        assert(script@ =~= script_of(i + 1, attrs@, body@, base_url@));
        out.push(script);
        i += 1;
    }
    assert(script_views(out@) =~= Seq::new(
        all.len(),
        |i: int| script_of(i + 1, all[i].0, all[i].1, base_url@),
    ));
    out
}

/// How far the text goes with letters, digits and underscores.
pub open spec fn method_len(s: Seq<char>) -> int
    decreases s.len(),
{
    if s.len() == 0 || !is_method_char(s[0]) {
        0
    } else {
        1 + method_len(s.drop_first())
    }
}

/// A character of the name of a method.
pub open spec fn is_method_char(c: char) -> bool {
    ('0' <= c <= '9') || ('A' <= c <= 'Z') || ('a' <= c <= 'z') || c == '_'
}

/// The start of a call up to a semicolon, trimmed.
pub open spec fn call_preview(s: Seq<char>) -> Seq<char> {
    trimmed(
        match char_position(s, ';') {
            Some(e) => s.take(e),
            None => s,
        },
    )
}

/// What is looked at behind a call: what stands one byte behind as many bytes as its preview
/// has; nothing where that is inside a character.
pub open spec fn after_call(s: Seq<char>) -> Seq<char> {
    match char_at_byte(s, byte_len(call_preview(s)) as int + 1) {
        Some(k) => s.skip(k),
        None => Seq::empty(),
    }
}

/// The calls of the console in a script.
pub open spec fn calls_in(s: Seq<char>) -> Seq<CallView>
    decreases s.len(),
    via calls_in_decreases
{
    match position(s, "console."@) {
        None => Seq::empty(),
        Some(p) => {
            let rest = s.skip(p + 8);
            let n = method_len(rest);
            if n == 0 {
                calls_in(rest)
            } else {
                seq![
                    CallView {
                        method: rest.take(n),
                        preview: tail_within(call_preview(rest), 500),
                    },
                ] + calls_in(after_call(rest))
            }
        },
    }
}

#[via_fn]
proof fn calls_in_decreases(s: Seq<char>) {
    reveal_strlit("console.");
    position_from_is_first(s, "console."@, 0);
    if let Some(p) = position(s, "console."@) {
        let rest = s.skip(p + 8);
        char_at_byte_is(rest, byte_len(call_preview(rest)) as int + 1);
    }
}

fn method_char(c: char) -> (r: bool)
    ensures
        r == is_method_char(c),
{
    ('0' <= c && c <= '9') || ('A' <= c && c <= 'Z') || ('a' <= c && c <= 'z') || c == '_'
}

fn skip_call<'a>(rest: &'a [char], preview: &str) -> (r: &'a [char])
    requires
        preview@ == call_preview(rest@),
    ensures
        r@ == after_call(rest@),
        r.len() <= rest.len(),
{
    let bytes = bytes_in(preview);
    let mut left: usize = bytes;
    let mut i: usize = 0;
    let ghost offset = byte_len(call_preview(rest@)) + 1;
    assert(rest@.skip(0) =~= rest@);
    // One byte more than the preview has.
    let mut one: bool = true;
    while i < rest.len() && (left > 0 || one)
        invariant
            i <= rest.len(),
            offset == byte_len(call_preview(rest@)) + 1,
            char_at_byte(rest@, offset as int) == match char_at_byte(
                rest@.skip(i as int),
                left + if one {
                    1int
                } else {
                    0
                },
            ) {
                Some(k) => Some(k + i),
                None => None,
            },
        decreases rest.len() - i,
    {
        assert(rest@.skip(i as int).drop_first() =~= rest@.skip(i + 1));
        let w = char_width(rest[i]);
        if w <= left {
            left -= w;
        } else if one && w - 1 == left {
            left = 0;
            one = false;
        } else {
            let ghost over = left + (if one {
                1int
            } else {
                0
            }) - w;
            assert(over < 0);
            assert(char_at_byte(rest@.skip(i + 1), over) is None);
            let empty = slice_subrange(rest, 0, 0);
            assert(empty@ =~= Seq::empty());
            return empty;
        }
        i += 1;
    }
    if left == 0 && !one {
        let after = slice_subrange(rest, i, rest.len());
        assert(after@ =~= rest@.skip(i as int));
        after
    } else {
        let empty = slice_subrange(rest, 0, 0);
        assert(empty@ =~= Seq::empty());
        empty
    }
}

fn script_calls(body: &[char], out: &mut Vec<ConsoleCall>)
    ensures
        call_views(final(out)@) == call_views(old(out)@) + calls_in(body@),
{
    proof {
        reveal_strlit("console.");
    }
    let ghost whole = call_views(out@) + calls_in(body@);
    let mut rest: &[char] = body;
    loop
        invariant
            "console."@.len() == 8,
            call_views(out@) + calls_in(rest@) == whole,
            whole == call_views(old(out)@) + calls_in(body@),
        decreases rest.len(),
    {
        let ghost before = out@;
        let at = match find(rest, "console.") {
            Some(p) => p,
            None => {
                assert(call_views(out@) + calls_in(rest@) =~= call_views(out@));
                return ;
            },
        };
        proof {
            position_from_is_first(rest@, "console."@, 0);
        }
        assert(at + 8 <= rest.len());
        let ghost start = rest@;
        let next = slice_subrange(rest, at + 8, rest.len());
        assert(next@ =~= rest@.skip(at + 8));
        let mut n: usize = 0;
        assert(next@.skip(0) =~= next@);
        while n < next.len() && method_char(next[n])
            invariant
                n <= next.len(),
                method_len(next@) == n + method_len(next@.skip(n as int)),
            decreases next.len() - n,
        {
            assert(next@.skip(n as int).drop_first() =~= next@.skip(n + 1));
            n += 1;
        }
        if n == 0 {
            rest = next;
            continue ;
        }
        let method = slice_subrange(next, 0, n);
        assert(method@ =~= next@.take(n as int));
        let line = match find_char(next, ';') {
            Some(e) => {
                let head = slice_subrange(next, 0, e);
                assert(head@ =~= next@.take(e as int));
                head
            },
            None => next,
        };
        let preview = string_of(trim(line));
        let after = skip_call(next, preview.as_str());
        let call = ConsoleCall { method: string_of(method), preview: trim_output(preview, 500) };
        assert(call@ =~= (CallView {
            method: next@.take(n as int),
            preview: tail_within(call_preview(next@), 500),
        }));
        out.push(call);
        assert(call_views(out@) =~= call_views(before).push(call@));
        assert(call_views(out@) + calls_in(after@) =~= call_views(before) + calls_in(start));
        rest = after;
    }
}

/// The calls of the console in the first `count` blocks.
pub open spec fn block_calls(blocks: Seq<(Seq<char>, Seq<char>)>) -> Seq<CallView>
    decreases blocks.len(),
{
    if blocks.len() == 0 {
        Seq::empty()
    } else {
        block_calls(blocks.drop_last()) + calls_in(blocks.last().1)
    }
}

/// The calls of the console in the scripts of a page.
pub fn html_console_calls(html: &str) -> (r: Vec<ConsoleCall>)
    ensures
        call_views(r@) == block_calls(tag_blocks(html@, "script"@)),
{
    let chars = chars_of(html);
    let tag = chars_of("script");
    let blocks = html_tag_blocks(chars.as_slice(), tag.as_slice());
    let ghost all = block_views(blocks@);
    let mut out: Vec<ConsoleCall> = Vec::new();
    let mut i: usize = 0;
    assert(call_views(out@) =~= Seq::empty());
    while i < blocks.len()
        invariant
            i <= blocks.len(),
            all == block_views(blocks@),
            call_views(out@) == block_calls(all.take(i as int)),
        decreases blocks.len() - i,
    {
        assert(all.take(i + 1).drop_last() =~= all.take(i as int));
        assert(all.take(i + 1).last() == (blocks@[i as int].0@, blocks@[i as int].1@));
        script_calls(blocks[i].1, &mut out);
        i += 1;
    }
    assert(all.take(i as int) =~= all);
    out
}

/// The texts of blocks, without those that are blank.
pub open spec fn block_texts(blocks: Seq<(Seq<char>, Seq<char>)>) -> Seq<Seq<char>>
    decreases blocks.len(),
{
    if blocks.len() == 0 {
        Seq::empty()
    } else {
        let before = block_texts(blocks.drop_last());
        let text = page_text(blocks.last().1);
        if trimmed(text).len() == 0 {
            before
        } else {
            before.push(text)
        }
    }
}

fn read_block_texts(html: &str, tag: &[char]) -> (r: Vec<String>)
    ensures
        texts(r@) == block_texts(tag_blocks(html@, tag@)),
{
    let chars = chars_of(html);
    let blocks = html_tag_blocks(chars.as_slice(), tag);
    let ghost all = block_views(blocks@);
    let mut out: Vec<String> = Vec::new();
    let mut i: usize = 0;
    assert(texts(out@) =~= Seq::empty());
    while i < blocks.len()
        invariant
            i <= blocks.len(),
            all == block_views(blocks@),
            texts(out@) == block_texts(all.take(i as int)),
        decreases blocks.len() - i,
    {
        assert(all.take(i + 1).drop_last() =~= all.take(i as int));
        assert(all.take(i + 1).last() == (blocks@[i as int].0@, blocks@[i as int].1@));
        let text = text_chars(blocks[i].1);
        let ghost before = out@;
        if trim(text.as_slice()).len() > 0 {
            out.push(string_of(text.as_slice()));
            assert(texts(out@) =~= texts(before).push(text@));
        }
        i += 1;
    }
    assert(all.take(i as int) =~= all);
    out
}

/// What a page shows where scripts do not run.
pub fn html_noscript_blocks(html: &str) -> (r: Vec<String>)
    ensures
        texts(r@) == block_texts(tag_blocks(html@, "noscript"@)),
{
    let tag = chars_of("noscript");
    read_block_texts(html, tag.as_slice())
}

/// The text without the dots that it begins with.
pub open spec fn without_dots(s: Seq<char>) -> Seq<char>
    decreases s.len(),
{
    if s.len() > 0 && s[0] == '.' {
        without_dots(s.drop_first())
    } else {
        s
    }
}

/// A character of the name of an element.
pub open spec fn is_tag_char(c: char) -> bool {
    ('0' <= c <= '9') || ('A' <= c <= 'Z') || ('a' <= c <= 'z') || c == '-'
}

/// The name of an element that a selector means; none where it is no name.
pub open spec fn selected_tag(selector: Seq<char>) -> Option<Seq<char>> {
    let s = without_dots(trimmed(selector));
    if s.len() == 0 || !(forall|i: int| 0 <= i < s.len() ==> is_tag_char(#[trigger] s[i])) {
        None
    } else {
        Some(s)
    }
}

/// The texts of the elements that a selector means.
pub open spec fn element_texts(html: Seq<char>, selector: Seq<char>) -> Seq<Seq<char>> {
    match selected_tag(selector) {
        Some(tag) => block_texts(tag_blocks(html, tag)),
        None => Seq::empty(),
    }
}

/// The texts of the elements that a selector means.
pub fn html_elements_text(html: &str, selector: &str) -> (r: Vec<String>)
    ensures
        texts(r@) == element_texts(html@, selector@),
{
    let chars = chars_of(selector);
    let t = trim(chars.as_slice());
    let mut start: usize = 0;
    assert(t@.skip(0) =~= t@);
    while start < t.len() && t[start] == '.'
        invariant
            start <= t.len(),
            without_dots(t@.skip(start as int)) == without_dots(t@),
        decreases t.len() - start,
    {
        assert(t@.skip(start as int).drop_first() =~= t@.skip(start + 1));
        start += 1;
    }
    let name = slice_subrange(t, start, t.len());
    assert(name@ =~= t@.skip(start as int));
    if name.len() == 0 {
        let r: Vec<String> = Vec::new();
        assert(texts(r@) =~= Seq::empty());
        return r;
    }
    let mut i: usize = 0;
    while i < name.len()
        invariant
            i <= name.len(),
            name@ == without_dots(trimmed(selector@)),
            forall|k: int| 0 <= k < i ==> is_tag_char(#[trigger] name@[k]),
        decreases name.len() - i,
    {
        let c = name[i];
        if !(('0' <= c && c <= '9') || ('A' <= c && c <= 'Z') || ('a' <= c && c <= 'z') || c
            == '-') {
            assert(!is_tag_char(name@[i as int]));
            let r: Vec<String> = Vec::new();
            assert(texts(r@) =~= Seq::empty());
            return r;
        }
        i += 1;
    }
    read_block_texts(html, name)
}

} // verus!

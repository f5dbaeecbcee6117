//! The forms of pages, and how they are sent.
use crate::browser::html::{
    attr_value, cut_close, cut_tag, cut_tag_shortens, html_attr, html_unescape, next_tag,
    split_close, unescaped,
};
use crate::browser::page::{
    field_views, form_views, read_text_before, text_before, FieldView, Form, FormField, FormView,
};
use crate::browser::url::{absolute, absolutize_url, url_with_query, with_query};
use crate::shell::{join_shell_words, shell_joined, shell_words_of};
use crate::text::chars::{
    chars_of, contains, has_text, lower, lowered, opt_text, position_from_is_first, same,
    string_of, texts, trimmed,
};
use crate::text::pairs::{set_pair, with_pair};
use crate::text::utf8::{char_at_byte, char_at_byte_is, find_byte};
use vstd::prelude::*;
use vstd::slice::slice_subrange;

verus! {

/// A kind of input that is not sent.
pub open spec fn is_button(kind: Seq<char>) -> bool {
    kind == "submit"@ || kind == "button"@ || kind == "reset"@ || kind == "image"@
}

/// The field that an `input` tag makes; none without a name, or where it is a button.
pub open spec fn input_field(attrs: Seq<char>) -> Seq<FieldView> {
    let kind = match attr_value(attrs, "type"@) {
        Some(kind) => kind,
        None => "text"@,
    };
    match attr_value(attrs, "name"@) {
        Some(name) => if is_button(kind) {
            Seq::empty()
        } else {
            seq![
                FieldView {
                    name,
                    kind,
                    value: match attr_value(attrs, "value"@) {
                        Some(v) => v,
                        None => Seq::empty(),
                    },
                },
            ]
        },
        None => Seq::empty(),
    }
}

/// The fields that the `input` tags make, in order.
pub open spec fn inputs_in(html: Seq<char>) -> Seq<FieldView>
    decreases html.len(),
    via inputs_in_decreases
{
    match cut_tag(html, "<input"@) {
        None => Seq::empty(),
        Some((attrs, after)) => input_field(attrs) + inputs_in(after),
    }
}

#[via_fn]
proof fn inputs_in_decreases(html: Seq<char>) {
    cut_tag_shortens(html, "<input"@);
}

/// What is read on behind a closing tag. Where there is none, as many bytes are passed over
/// as it has; none where that many bytes end inside a character or are not there.
pub open spec fn after_close(s: Seq<char>, close: Seq<char>) -> Option<Seq<char>> {
    match cut_close(s, close) {
        Some((body, rest)) => Some(rest),
        None => if s.len() == 0 {
            Some(s)
        } else {
            match char_at_byte(s, close.len() as int) {
                Some(k) => Some(s.skip(k)),
                None => None,
            }
        },
    }
}

/// What is read on is no longer.
proof fn after_close_shortens(s: Seq<char>, close: Seq<char>)
    ensures
        after_close(s, close) matches Some(rest) ==> rest.len() <= s.len(),
{
    position_from_is_first(lowered(s), close, 0);
    char_at_byte_is(s, close.len() as int);
}

/// What stands before a closing tag; nothing where there is none.
pub open spec fn body_before(s: Seq<char>, close: Seq<char>) -> Seq<char> {
    match cut_close(s, close) {
        Some((body, rest)) => body,
        None => Seq::empty(),
    }
}

/// A field of a kind, where it has a name.
pub open spec fn named_field(attrs: Seq<char>, kind: Seq<char>, value: Seq<char>) -> Seq<FieldView> {
    match attr_value(attrs, "name"@) {
        Some(name) => seq![FieldView { name, kind, value }],
        None => Seq::empty(),
    }
}

/// The fields that `textarea` tags make, in order; none where one is not closed and what is
/// passed over ends inside a character.
pub open spec fn areas_in(html: Seq<char>) -> Option<Seq<FieldView>>
    decreases html.len(),
    via areas_in_decreases
{
    match cut_tag(html, "<textarea"@) {
        None => Some(Seq::empty()),
        Some((attrs, after)) => match after_close(after, "</textarea>"@) {
            None => None,
            Some(rest) => match areas_in(rest) {
                None => None,
                Some(more) => Some(
                    named_field(
                        attrs,
                        "textarea"@,
                        trimmed(unescaped(body_before(after, "</textarea>"@))),
                    ) + more,
                ),
            },
        },
    }
}

#[via_fn]
proof fn areas_in_decreases(html: Seq<char>) {
    cut_tag_shortens(html, "<textarea"@);
    if let Some((attrs, after)) = cut_tag(html, "<textarea"@) {
        after_close_shortens(after, "</textarea>"@);
    }
}

/// The value of an option: the one it is given, or else its text.
pub open spec fn option_value(attrs: Seq<char>, after: Seq<char>) -> Seq<char> {
    match attr_value(attrs, "value"@) {
        Some(v) => v,
        None => text_before(after, "</option>"@),
    }
}

/// The value of the first selected option, or else of the first one at all, which is `first`
/// where there was one before.
pub open spec fn chosen_option(html: Seq<char>, first: Option<Seq<char>>) -> Option<Seq<char>>
    decreases html.len(),
    via chosen_option_decreases
{
    match cut_tag(html, "<option"@) {
        None => first,
        Some((attrs, after)) => {
            let value = option_value(attrs, after);
            if has_text(lowered(attrs), "selected"@) {
                Some(value)
            } else {
                chosen_option(
                    after,
                    if first is Some {
                        first
                    } else {
                        Some(value)
                    },
                )
            }
        },
    }
}

#[via_fn]
proof fn chosen_option_decreases(html: Seq<char>, first: Option<Seq<char>>) {
    cut_tag_shortens(html, "<option"@);
}

/// The fields that `select` tags make, in order; none where one is not closed and what is
/// passed over ends inside a character.
pub open spec fn selects_in(html: Seq<char>) -> Option<Seq<FieldView>>
    decreases html.len(),
    via selects_in_decreases
{
    match cut_tag(html, "<select"@) {
        None => Some(Seq::empty()),
        Some((attrs, after)) => match after_close(after, "</select>"@) {
            None => None,
            Some(rest) => match selects_in(rest) {
                None => None,
                Some(more) => Some(
                    named_field(
                        attrs,
                        "select"@,
                        match chosen_option(body_before(after, "</select>"@), None) {
                            Some(v) => v,
                            None => Seq::empty(),
                        },
                    ) + more,
                ),
            },
        },
    }
}

#[via_fn]
proof fn selects_in_decreases(html: Seq<char>) {
    cut_tag_shortens(html, "<select"@);
    if let Some((attrs, after)) = cut_tag(html, "<select"@) {
        after_close_shortens(after, "</select>"@);
    }
}

/// The fields of a form: inputs, then text areas, then selections.
pub open spec fn fields_in(html: Seq<char>) -> Option<Seq<FieldView>> {
    match (areas_in(html), selects_in(html)) {
        (Some(areas), Some(selects)) => Some(inputs_in(html) + areas + selects),
        _ => None,
    }
}

fn push_field(out: &mut Vec<FormField>, field: FormField)
    ensures
        field_views(final(out)@) == field_views(old(out)@).push(field@),
{
    let ghost before = out@;
    out.push(field);
    assert(field_views(out@) =~= field_views(before).push(field@));
}

fn read_inputs(html: &[char], out: &mut Vec<FormField>)
    ensures
        field_views(final(out)@) == field_views(old(out)@) + inputs_in(html@),
{
    let open = chars_of("<input");
    let ghost whole = field_views(out@) + inputs_in(html@);
    let mut rest: &[char] = html;
    loop
        invariant
            open@ == "<input"@,
            field_views(out@) + inputs_in(rest@) == whole,
            whole == field_views(old(out)@) + inputs_in(html@),
        decreases rest.len(),
    {
        let ghost before = field_views(out@);
        match next_tag(rest, open.as_slice()) {
            None => {
                assert(before + inputs_in(rest@) =~= before);
                return ;
            },
            Some((attrs, after)) => {
                if let Some(name) = html_attr(attrs, "name") {
                    let kind = match html_attr(attrs, "type") {
                        Some(kind) => kind,
                        None => "text".to_string(),
                    };
                    if !(same(kind.as_str(), "submit") || same(kind.as_str(), "button") || same(
                        kind.as_str(),
                        "reset",
                    ) || same(kind.as_str(), "image")) {
                        let value = match html_attr(attrs, "value") {
                            Some(v) => v,
                            None => String::new(),
                        };
                        let field = FormField { name, kind, value };
                        assert(seq![field@] =~= input_field(attrs@));
                        push_field(out, field);
                    }
                }
                assert(field_views(out@) =~= before + input_field(attrs@));
                assert(field_views(out@) + inputs_in(after@) =~= before + inputs_in(rest@));
                rest = after;
            },
        }
    }
}

fn read_after_close<'a>(s: &'a [char], close: &[char]) -> (r: Option<&'a [char]>)
    ensures
        r matches Some(rest) ==> after_close(s@, close@) == Some(rest@) && rest.len() <= s.len(),
        r is None ==> after_close(s@, close@) is None,
{
    match split_close(s, close) {
        Some((_body, rest)) => Some(rest),
        None => if s.len() == 0 {
            Some(s)
        } else {
            match find_byte(s, close.len()) {
                Some(k) => {
                    let rest = slice_subrange(s, k, s.len());
                    assert(rest@ =~= s@.skip(k as int));
                    Some(rest)
                },
                None => None,
            }
        },
    }
}

fn read_body_before<'a>(s: &'a [char], close: &[char]) -> (r: &'a [char])
    ensures
        r@ == body_before(s@, close@),
{
    match split_close(s, close) {
        Some((body, _rest)) => body,
        None => {
            let empty = slice_subrange(s, 0, 0);
            assert(empty@ =~= Seq::empty());
            empty
        },
    }
}

fn read_areas(html: &[char], out: &mut Vec<FormField>) -> (ok: bool)
    ensures
        ok == (areas_in(html@) is Some),
        ok ==> field_views(final(out)@) == field_views(old(out)@) + areas_in(html@)->0,
{
    let open = chars_of("<textarea");
    let close = chars_of("</textarea>");
    let mut rest: &[char] = html;
    let ghost start = field_views(out@);
    let ghost mut done: Seq<FieldView> = Seq::empty();
    assert(start + done =~= start);
    proof {
        if let Some(more) = areas_in(html@) {
            assert(done + more =~= more);
        }
    }
    loop
        invariant
            open@ == "<textarea"@,
            close@ == "</textarea>"@,
            start == field_views(old(out)@),
            field_views(out@) == start + done,
            areas_in(html@) == match areas_in(rest@) {
                Some(more) => Some(done + more),
                None => None,
            },
        decreases rest.len(),
    {
        match next_tag(rest, open.as_slice()) {
            None => {
                assert(done + Seq::<FieldView>::empty() =~= done);
                return true;
            },
            Some((attrs, after)) => match read_after_close(after, close.as_slice()) {
                None => {
                    return false;
                },
                Some(next) => {
                    let ghost before = field_views(out@);
                    let body = string_of(read_body_before(after, close.as_slice()));
                    let text = html_unescape(body.as_str());
                    let text = crate::text::chars::trim_text(text.as_str());
                    let ghost added = named_field(attrs@, "textarea"@, text@);
                    if let Some(name) = html_attr(attrs, "name") {
                        let field = FormField { name, kind: "textarea".to_string(), value: text };
                        assert(seq![field@] =~= added);
                        push_field(out, field);
                    }
                    assert(field_views(out@) =~= before + added);
                    proof {
                        if let Some(more) = areas_in(next@) {
                            assert(done + (added + more) =~= (done + added) + more);
                        }
                        done = done + added;
                    }
                    assert(field_views(out@) =~= start + done);
                    rest = next;
                },
            },
        }
    }
}

/// The value of the selected option, or else of the first.
pub fn selected_option_value(html: &[char]) -> (r: Option<String>)
    ensures
        opt_text(r) == chosen_option(html@, None),
{
    let open = chars_of("<option");
    let mut first: Option<String> = None;
    let mut rest: &[char] = html;
    loop
        invariant
            open@ == "<option"@,
            chosen_option(rest@, opt_text(first)) == chosen_option(html@, None),
        decreases rest.len(),
    {
        match next_tag(rest, open.as_slice()) {
            None => {
                return first;
            },
            Some((attrs, after)) => {
                let value = match html_attr(attrs, "value") {
                    Some(v) => v,
                    None => read_text_before(after, "</option>"),
                };
                let small = lower(attrs);
                if contains(small.as_slice(), "selected") {
                    return Some(value);
                }
                if first.is_none() {
                    first = Some(value);
                }
                rest = after;
            },
        }
    }
}

fn read_selects(html: &[char], out: &mut Vec<FormField>) -> (ok: bool)
    ensures
        ok == (selects_in(html@) is Some),
        ok ==> field_views(final(out)@) == field_views(old(out)@) + selects_in(html@)->0,
{
    let open = chars_of("<select");
    let close = chars_of("</select>");
    let mut rest: &[char] = html;
    let ghost start = field_views(out@);
    let ghost mut done: Seq<FieldView> = Seq::empty();
    assert(start + done =~= start);
    proof {
        if let Some(more) = selects_in(html@) {
            assert(done + more =~= more);
        }
    }
    loop
        invariant
            open@ == "<select"@,
            close@ == "</select>"@,
            start == field_views(old(out)@),
            field_views(out@) == start + done,
            selects_in(html@) == match selects_in(rest@) {
                Some(more) => Some(done + more),
                None => None,
            },
        decreases rest.len(),
    {
        match next_tag(rest, open.as_slice()) {
            None => {
                assert(done + Seq::<FieldView>::empty() =~= done);
                return true;
            },
            Some((attrs, after)) => match read_after_close(after, close.as_slice()) {
                None => {
                    return false;
                },
                Some(next) => {
                    let ghost before = field_views(out@);
                    let body = read_body_before(after, close.as_slice());
                    let value = match selected_option_value(body) {
                        Some(v) => v,
                        None => {
                            let none = String::new();
                            assert(none@ =~= Seq::empty());
                            none
                        },
                    };
                    let ghost added = named_field(attrs@, "select"@, value@);
                    if let Some(name) = html_attr(attrs, "name") {
                        let field = FormField { name, kind: "select".to_string(), value };
                        assert(seq![field@] =~= added);
                        push_field(out, field);
                    }
                    assert(field_views(out@) =~= before + added);
                    proof {
                        if let Some(more) = selects_in(next@) {
                            assert(done + (added + more) =~= (done + added) + more);
                        }
                        done = done + added;
                    }
                    assert(field_views(out@) =~= start + done);
                    rest = next;
                },
            },
        }
    }
}

/// The fields of a form; none where they cannot be read to the end.
pub fn read_fields(html: &[char]) -> (r: Option<Vec<FormField>>)
    ensures
        r is None ==> fields_in(html@) is None,
        r matches Some(v) ==> fields_in(html@) == Some(field_views(v@)),
{
    let mut out: Vec<FormField> = Vec::new();
    assert(field_views(out@) =~= Seq::empty());
    read_inputs(html, &mut out);
    assert(field_views(out@) =~= inputs_in(html@));
    if !read_areas(html, &mut out) {
        return None;
    }
    if !read_selects(html, &mut out) {
        return None;
    }
    Some(out)
}

/// The fields of a form.
pub fn html_form_fields(html: &str) -> (r: Vec<FormField>)
    requires
        fields_in(html@) is Some,
    ensures
        Some(field_views(r@)) == fields_in(html@),
{
    let chars = chars_of(html);
    match read_fields(chars.as_slice()) {
        Some(v) => v,
        None => Vec::new(),
    }
}

/// A form, by its number, its tag, its fields and the address of its page.
pub open spec fn form_of(
    index: int,
    attrs: Seq<char>,
    base: Seq<char>,
    fields: Seq<FieldView>,
) -> FormView {
    FormView {
        index,
        method: lowered(
            match attr_value(attrs, "method"@) {
                Some(m) => m,
                None => "get"@,
            },
        ),
        action: match attr_value(attrs, "action"@) {
            Some(a) => absolute(base, a),
            None => base,
        },
        label: match attr_value(attrs, "aria-label"@) {
            Some(l) => Some(l),
            None => match attr_value(attrs, "name"@) {
                Some(l) => Some(l),
                None => attr_value(attrs, "id"@),
            },
        },
        fields,
    }
}

/// What stands in a form and what follows it; the whole rest where it is not closed.
pub open spec fn form_body(after: Seq<char>) -> (Seq<char>, Seq<char>) {
    match cut_close(after, "</form>"@) {
        Some(parts) => parts,
        None => (after, Seq::empty()),
    }
}

/// The forms of a page, in order, numbered from `index`; none where the fields of one
/// cannot be read to the end.
pub open spec fn forms_in(html: Seq<char>, base: Seq<char>, index: int) -> Option<Seq<FormView>>
    decreases html.len(),
    via forms_in_decreases
{
    match cut_tag(html, "<form"@) {
        None => Some(Seq::empty()),
        Some((attrs, after)) => {
            let (body, rest) = form_body(after);
            match (fields_in(body), forms_in(rest, base, index + 1)) {
                (Some(fields), Some(more)) => Some(
                    seq![form_of(index, attrs, base, fields)] + more,
                ),
                _ => None,
            }
        },
    }
}

#[via_fn]
proof fn forms_in_decreases(html: Seq<char>, base: Seq<char>, index: int) {
    cut_tag_shortens(html, "<form"@);
    if let Some((attrs, after)) = cut_tag(html, "<form"@) {
        position_from_is_first(lowered(after), "</form>"@, 0);
    }
}

fn read_form(index: usize, attrs: &[char], base_url: &str, fields: Vec<FormField>) -> (r: Form)
    ensures
        r@ == form_of(index as int, attrs@, base_url@, field_views(fields@)),
{
    let method = match html_attr(attrs, "method") {
        Some(m) => m,
        None => "get".to_string(),
    };
    let method = chars_of(method.as_str());
    let method = lower(method.as_slice());
    let action = match html_attr(attrs, "action") {
        Some(a) => absolutize_url(base_url, a.as_str()),
        None => base_url.to_string(),
    };
    let label = match html_attr(attrs, "aria-label") {
        Some(l) => Some(l),
        None => match html_attr(attrs, "name") {
            Some(l) => Some(l),
            None => html_attr(attrs, "id"),
        },
    };
    let form = Form { index, method: string_of(method.as_slice()), action, label, fields };
    assert(form@ =~= form_of(index as int, attrs@, base_url@, field_views(fields@)));
    form
}

/// The forms of a page, in order; none where the fields of one cannot be read to the end.
pub fn read_forms(html: &str, base_url: &str) -> (r: Option<Vec<Form>>)
    ensures
        r is None ==> forms_in(html@, base_url@, 1) is None,
        r matches Some(v) ==> forms_in(html@, base_url@, 1) == Some(form_views(v@)),
{
    let chars = chars_of(html);
    let open = chars_of("<form");
    let close = chars_of("</form>");
    let mut rest: &[char] = chars.as_slice();
    let mut out: Vec<Form> = Vec::new();
    proof {
        if let Some(more) = forms_in(html@, base_url@, 1) {
            assert(form_views(out@) + more =~= more);
        }
    }
    loop
        invariant
            open@ == "<form"@,
            close@ == "</form>"@,
            out@.len() + rest@.len() <= chars@.len(),
            forms_in(html@, base_url@, 1) == match forms_in(rest@, base_url@, out@.len() as int + 1) {
                Some(more) => Some(form_views(out@) + more),
                None => None,
            },
        decreases rest.len(),
    {
        match next_tag(rest, open.as_slice()) {
            None => {
                assert(form_views(out@) + Seq::<FormView>::empty() =~= form_views(out@));
                return Some(out);
            },
            Some((attrs, after)) => {
                let (body, next) = match split_close(after, close.as_slice()) {
                    Some((body, next)) => (body, next),
                    None => {
                        let empty = slice_subrange(after, 0, 0);
                        assert(empty@ =~= Seq::empty());
                        (after, empty)
                    },
                };
                assert(form_body(after@) == (body@, next@));
                let fields = match read_fields(body) {
                    Some(f) => f,
                    None => {
                        return None;
                    },
                };
                let ghost before = out@;
                assert(chars.len() == chars@.len());
                let index: usize = out.len() + 1;
                let form = read_form(index, attrs, base_url, fields);
                out.push(form);
                assert(form_views(out@) =~= form_views(before).push(form@));
                proof {
                    if let Some(more) = forms_in(next@, base_url@, before.len() as int + 2) {
                        assert(form_views(before) + (seq![form@] + more) =~= form_views(out@)
                            + more);
                    }
                }
                rest = next;
            },
        }
    }
}

/// The forms of a page, in order.
pub fn html_forms(html: &str, base_url: &str) -> (r: Vec<Form>)
    requires
        forms_in(html@, base_url@, 1) is Some,
    ensures
        Some(form_views(r@)) == forms_in(html@, base_url@, 1),
{
    match read_forms(html, base_url) {
        Some(v) => v,
        None => Vec::new(),
    }
}

/// `pairs` are the names and values of the fields, by name; a later field takes the place of
/// an earlier one with its name.
pub open spec fn default_pairs(fields: Seq<FormField>, pairs: Seq<(String, String)>) -> bool
    decreases fields.len(),
{
    if fields.len() == 0 {
        pairs.len() == 0
    } else {
        exists|before: Seq<(String, String)>, pair: (String, String)|
            default_pairs(fields.drop_last(), before) && pair.0@ == fields.last().name@ && pair.1@
                == fields.last().value@ && pairs == #[trigger] with_pair(before, pair)
    }
}

/// The names and values that a form is sent with where nothing is filled in.
pub fn form_default_fields(form: &Form) -> (r: Vec<(String, String)>)
    ensures
        default_pairs(form.fields@, r@),
        r@.len() <= form.fields@.len(),
{
    let mut out: Vec<(String, String)> = Vec::new();
    let mut i: usize = 0;
    assert(form.fields@.take(0).len() == 0);
    while i < form.fields.len()
        invariant
            i <= form.fields.len(),
            out@.len() <= i,
            default_pairs(form.fields@.take(i as int), out@),
        decreases form.fields.len() - i,
    {
        assert(form.fields@.take(i + 1).drop_last() =~= form.fields@.take(i as int));
        let name = form.fields[i].name.clone();
        let value = form.fields[i].value.clone();
        let ghost before = out@;
        let ghost pair = (name, value);
        set_pair(&mut out, name, value);
        proof {
            crate::text::pairs::with_pair_len(before, pair);
        }
        assert(out@ == with_pair(before, pair));
        assert(default_pairs(form.fields@.take(i + 1), out@));
        i += 1;
    }
    assert(form.fields@.take(i as int) =~= form.fields@);
    out
}

/// `after` are the pairs `before` once each of the values is filled in.
pub open spec fn filled_in(
    before: Seq<(String, String)>,
    values: Seq<(String, String)>,
    after: Seq<(String, String)>,
) -> bool
    decreases values.len(),
{
    if values.len() == 0 {
        after == before
    } else {
        exists|mid: Seq<(String, String)>|
            filled_in(before, values.drop_last(), mid) && after == #[trigger] with_pair(
                mid,
                values.last(),
            )
    }
}

/// Fills values in, each in the place of one with its name.
pub fn fill_in(pairs: &mut Vec<(String, String)>, values: &Vec<(String, String)>)
    requires
        old(pairs)@.len() + values@.len() < usize::MAX,
    ensures
        filled_in(old(pairs)@, values@, final(pairs)@),
{
    let ghost start = pairs@;
    let mut i: usize = 0;
    assert(values@.take(0).len() == 0);
    while i < values.len()
        invariant
            i <= values.len(),
            pairs@.len() <= start.len() + i,
            start.len() + values@.len() < usize::MAX,
            filled_in(start, values@.take(i as int), pairs@),
        decreases values.len() - i,
    {
        assert(values@.take(i + 1).drop_last() =~= values@.take(i as int));
        let ghost mid = pairs@;
        let name = values[i].0.clone();
        let value = values[i].1.clone();
        proof {
            crate::text::pairs::with_pair_len(mid, (name, value));
        }
        set_pair(pairs, name, value);
        let ghost so_far = values@.take(i + 1);
        assert(so_far.last() == (name, value));
        assert(so_far.drop_last() =~= values@.take(i as int));
        assert(filled_in(start, so_far.drop_last(), mid));
        assert(pairs@ == with_pair(mid, so_far.last()));
        assert(filled_in(start, so_far, pairs@));
        i += 1;
    }
    assert(values@.take(i as int) =~= values@);
}

/// The words that send values with `curl`.
pub open spec fn data_words(values: Seq<(String, String)>) -> Seq<Seq<char>>
    decreases values.len(),
{
    if values.len() == 0 {
        Seq::empty()
    } else {
        data_words(values.drop_last()).push("--data-urlencode"@).push(
            values.last().0@ + "="@ + values.last().1@,
        )
    }
}

/// The words that send a form by `post`.
pub open spec fn post_words(action: Seq<char>, values: Seq<(String, String)>) -> Seq<Seq<char>> {
    (seq!["curl"@, "-L"@, "-X"@, "POST"@] + data_words(values)).push(action)
}

/// What sends a form: the address for `get`, a command for `post`; other methods are not
/// known.
pub fn form_submission_target(action: &str, method: &str, values: &Vec<(String, String)>) -> (r:
    Result<String, String>)
    ensures
        if method@ == "get"@ {
            r matches Ok(t) && t@ == with_query(action@, values@)
        } else if method@ == "post"@ {
            r matches Ok(t) && t@ == shell_joined(post_words(action@, values@)) && shell_words_of(t@)
                == Some(post_words(action@, values@))
        } else {
            r matches Err(m) && m@ == method@
        },
{
    if same(method, "get") {
        return Ok(url_with_query(action, values));
    }
    if !same(method, "post") {
        return Err(method.to_string());
    }
    let mut argv: Vec<String> = Vec::new();
    argv.push("curl".to_string());
    argv.push("-L".to_string());
    argv.push("-X".to_string());
    argv.push("POST".to_string());
    let ghost start = seq!["curl"@, "-L"@, "-X"@, "POST"@];
    assert(texts(argv@) =~= start + data_words(values@.take(0)));
    let mut i: usize = 0;
    while i < values.len()
        invariant
            i <= values.len(),
            texts(argv@) == start + data_words(values@.take(i as int)),
        decreases values.len() - i,
    {
        assert(values@.take(i + 1).drop_last() =~= values@.take(i as int));
        let ghost before = argv@;
        argv.push("--data-urlencode".to_string());
        let mut pair = values[i].0.clone();
        pair.append("=");
        pair.append(values[i].1.as_str());
        argv.push(pair);
        assert(texts(argv@) =~= texts(before).push("--data-urlencode"@).push(pair@));
        assert(texts(argv@) =~= start + data_words(values@.take(i + 1)));
        i += 1;
    }
    assert(values@.take(i as int) =~= values@);
    let ghost before = argv@;
    argv.push(action.to_string());
    assert(texts(argv@) =~= post_words(action@, values@));
    Ok(join_shell_words(&argv))
}

} // verus!

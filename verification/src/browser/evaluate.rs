//! Expressions that name something on a page.
use crate::browser::forms::{forms_in, html_forms};
use crate::browser::html::{html_title, html_to_text, page_text, title_of};
use crate::browser::page::{
    element_texts, field_views, form_views, html_elements_text, html_links, link_views, links_in,
    FieldView, Form, FormField, FormView, Link, LinkView,
};
use crate::daemon::output::trim_output;
use crate::text::chars::{
    char_position, chars_of, clone_opt, find, find_char, is_text, join_strings, joined, position,
    position_from_is_first, string_of, strip_prefix, texts, trim, trimmed, without_prefix,
};
use crate::text::numbers::{number, parse_decimal};
use crate::text::utf8::tail_within;
use vstd::prelude::*;
use vstd::slice::slice_subrange;

verus! {

/// What an expression names.
#[derive(Debug)]
pub enum PageValue {
    Nothing,
    Text(String),
    Number(usize),
    Link(Link),
    Links(Vec<Link>),
    Form(Form),
    Forms(Vec<Form>),
    Fields(Vec<FormField>),
    Texts(Vec<String>),
}

/// Why an expression names nothing. The numbers count from one.
#[derive(Debug)]
pub enum EvalError {
    Empty,
    LinkOutOfRange(usize),
    FormOutOfRange(usize),
    LinkHasNoField(usize, String),
    FormHasNoField(usize, String),
    Unsupported(String),
}

/// What a value says.
#[verifier::ext_equal]
pub enum ValueView {
    Nothing,
    Text(Seq<char>),
    Number(int),
    Link(LinkView),
    Links(Seq<LinkView>),
    Form(FormView),
    Forms(Seq<FormView>),
    Fields(Seq<FieldView>),
    Texts(Seq<Seq<char>>),
}

/// What an error says.
#[verifier::ext_equal]
pub enum ErrorView {
    Empty,
    LinkOutOfRange(int),
    FormOutOfRange(int),
    LinkHasNoField(int, Seq<char>),
    FormHasNoField(int, Seq<char>),
    Unsupported(Seq<char>),
}

impl View for PageValue {
    type V = ValueView;

    open spec fn view(&self) -> ValueView {
        match self {
            PageValue::Nothing => ValueView::Nothing,
            PageValue::Text(s) => ValueView::Text(s@),
            PageValue::Number(n) => ValueView::Number(*n as int),
            PageValue::Link(l) => ValueView::Link(l@),
            PageValue::Links(v) => ValueView::Links(link_views(v@)),
            PageValue::Form(f) => ValueView::Form(f@),
            PageValue::Forms(v) => ValueView::Forms(form_views(v@)),
            PageValue::Fields(v) => ValueView::Fields(field_views(v@)),
            PageValue::Texts(v) => ValueView::Texts(texts(v@)),
        }
    }
}

impl View for EvalError {
    type V = ErrorView;

    open spec fn view(&self) -> ErrorView {
        match self {
            EvalError::Empty => ErrorView::Empty,
            EvalError::LinkOutOfRange(n) => ErrorView::LinkOutOfRange(*n as int),
            EvalError::FormOutOfRange(n) => ErrorView::FormOutOfRange(*n as int),
            EvalError::LinkHasNoField(n, f) => ErrorView::LinkHasNoField(*n as int, f@),
            EvalError::FormHasNoField(n, f) => ErrorView::FormHasNoField(*n as int, f@),
            EvalError::Unsupported(e) => ErrorView::Unsupported(e@),
        }
    }
}

/// The place that a number from one means.
pub open spec fn place_of(value: Seq<char>) -> Option<int> {
    match number(trimmed(value), 10, usize::MAX as int) {
        Some(n) => if n >= 1 {
            Some(n - 1)
        } else {
            None
        },
        None => None,
    }
}

/// What stands behind the name and an opening bracket.
pub open spec fn after_bracket(expression: Seq<char>, name: Seq<char>) -> Option<Seq<char>> {
    match without_prefix(expression, name) {
        Some(rest) => without_prefix(rest, "["@),
        None => None,
    }
}

/// The place in `name[n]`.
pub open spec fn indexed(expression: Seq<char>, name: Seq<char>) -> Option<int> {
    match after_bracket(expression, name) {
        Some(rest) => match char_position(rest, ']') {
            Some(i) => if rest.skip(i + 1).len() == 0 {
                place_of(rest.take(i))
            } else {
                None
            },
            None => None,
        },
        None => None,
    }
}

/// The place and the field in `name[n].field`.
pub open spec fn indexed_field(expression: Seq<char>, name: Seq<char>) -> Option<(int, Seq<char>)> {
    match after_bracket(expression, name) {
        Some(rest) => match position(rest, "]."@) {
            Some(i) => {
                let field = trimmed(rest.skip(i + 2));
                if field.len() == 0 {
                    None
                } else {
                    match place_of(rest.take(i)) {
                        Some(n) => Some((n, field)),
                        None => None,
                    }
                }
            },
            None => None,
        },
        None => None,
    }
}

/// The field of a link with the name.
pub open spec fn link_field(link: LinkView, field: Seq<char>) -> Option<ValueView> {
    if field == "href"@ {
        Some(ValueView::Text(link.href))
    } else if field == "text"@ {
        Some(ValueView::Text(link.text))
    } else {
        None
    }
}

/// The field of a form with the name.
pub open spec fn form_field(form: FormView, field: Seq<char>) -> Option<ValueView> {
    if field == "index"@ {
        Some(ValueView::Number(form.index))
    } else if field == "method"@ {
        Some(ValueView::Text(form.method))
    } else if field == "action"@ {
        Some(ValueView::Text(form.action))
    } else if field == "label"@ {
        Some(
            match form.label {
                Some(l) => ValueView::Text(l),
                None => ValueView::Nothing,
            },
        )
    } else if field == "fields"@ {
        Some(ValueView::Fields(form.fields))
    } else {
        None
    }
}

/// The most bytes of text that an expression names.
pub const TEXT_CAP: usize = 32_000;

/// What an expression names on a page with these links and forms.
pub open spec fn evaluated(
    e: Seq<char>,
    html: Seq<char>,
    links: Seq<LinkView>,
    forms: Seq<FormView>,
) -> Result<ValueView, ErrorView> {
    if e == "title"@ || e == "document.title"@ {
        Ok(
            match title_of(html) {
                Some(t) => ValueView::Text(t),
                None => ValueView::Nothing,
            },
        )
    } else if e == "text"@ || e == "document.body.innerText"@ || e == "body.innerText"@ {
        Ok(ValueView::Text(tail_within(page_text(html), TEXT_CAP as int)))
    } else if e == "links"@ {
        Ok(ValueView::Links(links))
    } else if e == "forms"@ {
        Ok(ValueView::Forms(forms))
    } else if indexed(e, "links"@) is Some {
        let n = indexed(e, "links"@)->0;
        if n < links.len() {
            Ok(ValueView::Link(links[n]))
        } else {
            Err(ErrorView::LinkOutOfRange(n + 1))
        }
    } else if indexed(e, "forms"@) is Some {
        let n = indexed(e, "forms"@)->0;
        if n < forms.len() {
            Ok(ValueView::Form(forms[n]))
        } else {
            Err(ErrorView::FormOutOfRange(n + 1))
        }
    } else if indexed_field(e, "links"@) is Some {
        let (n, field) = indexed_field(e, "links"@)->0;
        if n < links.len() && link_field(links[n], field) is Some {
            Ok(link_field(links[n], field)->0)
        } else {
            Err(ErrorView::LinkHasNoField(n + 1, field))
        }
    } else if indexed_field(e, "forms"@) is Some {
        let (n, field) = indexed_field(e, "forms"@)->0;
        if n < forms.len() && form_field(forms[n], field) is Some {
            Ok(form_field(forms[n], field)->0)
        } else {
            Err(ErrorView::FormHasNoField(n + 1, field))
        }
    } else if without_prefix(e, "text:"@) is Some {
        Ok(
            ValueView::Text(
                tail_within(
                    joined(element_texts(html, without_prefix(e, "text:"@)->0), "\n"@),
                    TEXT_CAP as int,
                ),
            ),
        )
    } else if without_prefix(e, "selector:"@) is Some {
        Ok(ValueView::Texts(element_texts(html, without_prefix(e, "selector:"@)->0)))
    } else {
        Err(ErrorView::Unsupported(e))
    }
}

fn one_based_index(value: &[char]) -> (r: Option<usize>)
    ensures
        r matches Some(n) ==> place_of(value@) == Some(n as int) && n < usize::MAX,
        r is None ==> place_of(value@) is None,
{
    match parse_decimal(trim(value), usize::MAX as u64) {
        Some(n) => if n >= 1 {
            Some(n as usize - 1)
        } else {
            None
        },
        None => None,
    }
}

fn read_after_bracket<'a>(expression: &'a [char], name: &str) -> (r: Option<&'a [char]>)
    ensures
        r matches Some(s) ==> after_bracket(expression@, name@) == Some(s@),
        r is None ==> after_bracket(expression@, name@) is None,
{
    match strip_prefix(expression, name) {
        Some(rest) => strip_prefix(rest, "["),
        None => None,
    }
}

fn indexed_expression(expression: &[char], name: &str) -> (r: Option<usize>)
    ensures
        r matches Some(n) ==> indexed(expression@, name@) == Some(n as int) && n < usize::MAX,
        r is None ==> indexed(expression@, name@) is None,
{
    match read_after_bracket(expression, name) {
        Some(rest) => match find_char(rest, ']') {
            Some(i) => {
                let index = slice_subrange(rest, 0, i);
                assert(index@ =~= rest@.take(i as int));
                if i + 1 == rest.len() {
                    one_based_index(index)
                } else {
                    None
                }
            },
            None => None,
        },
        None => None,
    }
}

fn indexed_field_expression<'a>(expression: &'a [char], name: &str) -> (r: Option<
    (usize, &'a [char]),
>)
    ensures
        r matches Some((n, f)) ==> indexed_field(expression@, name@) == Some((n as int, f@)) && n
            < usize::MAX,
        r is None ==> indexed_field(expression@, name@) is None,
{
    match read_after_bracket(expression, name) {
        Some(rest) => match find(rest, "].") {
            Some(i) => {
                proof {
                    position_from_is_first(rest@, "]."@, 0);
                    reveal_strlit("].");
                }
                assert(i + 2 <= rest.len());
                let index = slice_subrange(rest, 0, i);
                let suffix = slice_subrange(rest, i + 2, rest.len());
                assert(index@ =~= rest@.take(i as int));
                assert(suffix@ =~= rest@.skip(i + 2));
                let field = trim(suffix);
                if field.len() == 0 {
                    return None;
                }
                match one_based_index(index) {
                    Some(n) => Some((n, field)),
                    None => None,
                }
            },
            None => None,
        },
        None => None,
    }
}

fn clone_link(link: &Link) -> (r: Link)
    ensures
        r@ == link@,
{
    Link { href: link.href.clone(), text: link.text.clone() }
}

fn clone_fields(fields: &Vec<FormField>) -> (r: Vec<FormField>)
    ensures
        field_views(r@) == field_views(fields@),
{
    let mut out: Vec<FormField> = Vec::new();
    let mut i: usize = 0;
    while i < fields.len()
        invariant
            i <= fields.len(),
            out@.len() == i,
            forall|k: int| 0 <= k < i ==> (#[trigger] out@[k])@ == fields@[k]@,
        decreases fields.len() - i,
    {
        let f = &fields[i];
        out.push(
            FormField { name: f.name.clone(), kind: f.kind.clone(), value: f.value.clone() },
        );
        i += 1;
    }
    assert(field_views(out@) =~= field_views(fields@));
    out
}

fn clone_form(form: &Form) -> (r: Form)
    ensures
        r@ == form@,
{
    Form {
        index: form.index,
        method: form.method.clone(),
        action: form.action.clone(),
        label: clone_opt(&form.label),
        fields: clone_fields(&form.fields),
    }
}

fn clone_links(links: &Vec<Link>) -> (r: Vec<Link>)
    ensures
        link_views(r@) == link_views(links@),
{
    let mut out: Vec<Link> = Vec::new();
    let mut i: usize = 0;
    while i < links.len()
        invariant
            i <= links.len(),
            out@.len() == i,
            forall|k: int| 0 <= k < i ==> (#[trigger] out@[k])@ == links@[k]@,
        decreases links.len() - i,
    {
        out.push(clone_link(&links[i]));
        i += 1;
    }
    assert(link_views(out@) =~= link_views(links@));
    out
}

fn clone_forms(forms: &Vec<Form>) -> (r: Vec<Form>)
    ensures
        form_views(r@) == form_views(forms@),
{
    let mut out: Vec<Form> = Vec::new();
    let mut i: usize = 0;
    while i < forms.len()
        invariant
            i <= forms.len(),
            out@.len() == i,
            forall|k: int| 0 <= k < i ==> (#[trigger] out@[k])@ == forms@[k]@,
        decreases forms.len() - i,
    {
        out.push(clone_form(&forms[i]));
        i += 1;
    }
    assert(form_views(out@) =~= form_views(forms@));
    out
}

fn read_link_field(link: &Link, field: &[char]) -> (r: Option<PageValue>)
    ensures
        r matches Some(v) ==> link_field(link@, field@) == Some(v@),
        r is None ==> link_field(link@, field@) is None,
{
    if is_text(field, "href") {
        Some(PageValue::Text(link.href.clone()))
    } else if is_text(field, "text") {
        Some(PageValue::Text(link.text.clone()))
    } else {
        None
    }
}

fn read_form_field(form: &Form, field: &[char]) -> (r: Option<PageValue>)
    ensures
        r matches Some(v) ==> form_field(form@, field@) == Some(v@),
        r is None ==> form_field(form@, field@) is None,
{
    if is_text(field, "index") {
        Some(PageValue::Number(form.index))
    } else if is_text(field, "method") {
        Some(PageValue::Text(form.method.clone()))
    } else if is_text(field, "action") {
        Some(PageValue::Text(form.action.clone()))
    } else if is_text(field, "label") {
        Some(
            match &form.label {
                Some(l) => PageValue::Text(l.clone()),
                None => PageValue::Nothing,
            },
        )
    } else if is_text(field, "fields") {
        Some(PageValue::Fields(clone_fields(&form.fields)))
    } else {
        None
    }
}

/// What an expression names on a page with these links and forms.
pub fn evaluate_static_expression(
    expression: &str,
    html: &str,
    links: &Vec<Link>,
    forms: &Vec<Form>,
) -> (r: Result<PageValue, EvalError>)
    ensures
        match evaluated(expression@, html@, link_views(links@), form_views(forms@)) {
            Ok(v) => r matches Ok(value) && value@ == v,
            Err(e) => r matches Err(error) && error@ == e,
        },
{
    let chars = chars_of(expression);
    let e = chars.as_slice();
    if is_text(e, "title") || is_text(e, "document.title") {
        return Ok(
            match html_title(html) {
                Some(t) => PageValue::Text(t),
                None => PageValue::Nothing,
            },
        );
    }
    if is_text(e, "text") || is_text(e, "document.body.innerText") || is_text(e, "body.innerText") {
        return Ok(PageValue::Text(trim_output(html_to_text(html), TEXT_CAP)));
    }
    if is_text(e, "links") {
        return Ok(PageValue::Links(clone_links(links)));
    }
    if is_text(e, "forms") {
        return Ok(PageValue::Forms(clone_forms(forms)));
    }
    if let Some(n) = indexed_expression(e, "links") {
        if n < links.len() {
            return Ok(PageValue::Link(clone_link(&links[n])));
        }
        return Err(EvalError::LinkOutOfRange(n + 1));
    }
    if let Some(n) = indexed_expression(e, "forms") {
        if n < forms.len() {
            return Ok(PageValue::Form(clone_form(&forms[n])));
        }
        return Err(EvalError::FormOutOfRange(n + 1));
    }
    if let Some((n, field)) = indexed_field_expression(e, "links") {
        if n < links.len() {
            if let Some(v) = read_link_field(&links[n], field) {
                return Ok(v);
            }
        }
        return Err(EvalError::LinkHasNoField(n + 1, string_of(field)));
    }
    if let Some((n, field)) = indexed_field_expression(e, "forms") {
        if n < forms.len() {
            if let Some(v) = read_form_field(&forms[n], field) {
                return Ok(v);
            }
        }
        return Err(EvalError::FormHasNoField(n + 1, string_of(field)));
    }
    if let Some(selector) = strip_prefix(e, "text:") {
        let selector = string_of(selector);
        let found = html_elements_text(html, selector.as_str());
        return Ok(
            PageValue::Text(trim_output(join_strings(found.as_slice(), "\n"), TEXT_CAP)),
        );
    }
    if let Some(selector) = strip_prefix(e, "selector:") {
        let selector = string_of(selector);
        return Ok(PageValue::Texts(html_elements_text(html, selector.as_str())));
    }
    Err(EvalError::Unsupported(expression.to_string()))
}

/// What an expression, trimmed, names on a page.
pub fn evaluate_page(url: &str, expression: &str, body: &str) -> (r: Result<PageValue, EvalError>)
    requires
        forms_in(body@, url@, 1) is Some,
    ensures
        trimmed(expression@).len() == 0 ==> (r matches Err(error) && error@ == ErrorView::Empty),
        trimmed(expression@).len() > 0 ==> match evaluated(
            trimmed(expression@),
            body@,
            links_in(body@, url@),
            forms_in(body@, url@, 1)->0,
        ) {
            Ok(v) => r matches Ok(value) && value@ == v,
            Err(e) => r matches Err(error) && error@ == e,
        },
{
    let expression = crate::text::chars::trim_text(expression);
    if expression.as_str().is_empty() {
        return Err(EvalError::Empty);
    }
    let links = html_links(body, url);
    let forms = html_forms(body, url);
    evaluate_static_expression(expression.as_str(), body, &links, &forms)
}

} // verus!

//! Opening pages, links and forms in panes, and what is reported of pages.
use crate::browser::forms::{
    default_pairs, filled_in, fill_in, form_default_fields, form_submission_target, post_words,
};
use crate::browser::html::{html_title, html_to_text, page_text, title_of};
use crate::browser::page::{html_links, link_views, links_in, Form, Link};
use crate::browser::url::{
    compact_url_title, open_words, short_url, url_open_command, url_problem, validate_url,
    with_query, UrlError,
};
use crate::daemon::output::trim_output;
use crate::shell::shell_joined;
use crate::text::chars::{chars_of, lower, lowered, opt_text, same, string_of};
use crate::text::utf8::tail_within;
use vstd::prelude::*;

verus! {

/// What a pane that shows a page runs, and its title.
pub struct PagePlan {
    pub command: String,
    pub title: String,
}

/// The title that was asked for, or else the mark and the host.
pub open spec fn plan_title(title: Option<Seq<char>>, mark: Seq<char>, url: Seq<char>) -> Seq<char> {
    match title {
        Some(t) => t,
        None => mark + short_url(url),
    }
}

fn titled(title: Option<String>, mark: &str, url: &str) -> (r: String)
    ensures
        r@ == plan_title(opt_text(title), mark@, url@),
{
    match title {
        Some(t) => t,
        None => {
            let mut out = mark.to_string();
            let host = compact_url_title(url);
            out.append(host.as_str());
            out
        },
    }
}

/// How a page is opened in a pane, where the listed programs are installed.
pub fn open_url(url: &str, title: Option<String>, installed: &Vec<String>) -> (r: Result<
    PagePlan,
    UrlError,
>)
    ensures
        match url_problem(url@) {
            Some(e) => r matches Err(got) && got == e,
            None => r matches Ok(plan) && plan.command@ == shell_joined(
                open_words(url@, installed@),
            ) && plan.title@ == plan_title(opt_text(title), "url:"@, url@),
        },
{
    match validate_url(url) {
        Err(e) => Err(e),
        Ok(_) => {
            let command = url_open_command(url, installed);
            Ok(PagePlan { command, title: titled(title, "url:", url) })
        },
    }
}

/// Why a link is not opened.
#[derive(Debug)]
pub enum LinkError {
    /// Links are counted from one.
    ZeroIndex,
    OutOfRange(usize),
    Url(UrlError),
}

/// How a link of a page is opened, by its number from one: its address and the plan.
pub fn open_url_link(
    links: &Vec<Link>,
    index: usize,
    title: Option<String>,
    installed: &Vec<String>,
) -> (r: Result<(String, PagePlan), LinkError>)
    ensures
        if index == 0 {
            r matches Err(LinkError::ZeroIndex)
        } else if index > links@.len() {
            r matches Err(LinkError::OutOfRange(n)) && n == index
        } else {
            let href = links@[index - 1].href@;
            match url_problem(href) {
                Some(e) => r matches Err(LinkError::Url(got)) && got == e,
                None => r matches Ok(done) && done.0@ == href && done.1.command@ == shell_joined(
                    open_words(href, installed@),
                ) && done.1.title@ == plan_title(opt_text(title), "url:"@, href),
            }
        },
{
    if index == 0 {
        return Err(LinkError::ZeroIndex);
    }
    if index > links.len() {
        return Err(LinkError::OutOfRange(index));
    }
    let href = links[index - 1].href.clone();
    match open_url(href.as_str(), title, installed) {
        Ok(plan) => Ok((href, plan)),
        Err(e) => Err(LinkError::Url(e)),
    }
}

/// Why a form is not sent.
#[derive(Debug)]
pub enum SubmitError {
    /// Forms are counted from one.
    ZeroIndex,
    OutOfRange(usize),
    UnknownMethod(String),
    Url(UrlError),
}

/// What is done with a form.
pub struct Submission {
    /// Its method, in small letters.
    pub method: String,
    /// What it is sent with, by name.
    pub values: Vec<(String, String)>,
    /// The address, or the command.
    pub target: String,
    pub plan: PagePlan,
}

/// `s` is how the form is sent: its own values with the given ones filled in, by its method.
pub open spec fn submits(
    form: Form,
    fields: Seq<(String, String)>,
    title: Option<Seq<char>>,
    installed: Seq<String>,
    s: Submission,
) -> bool {
    &&& s.method@ == lowered(form.method@)
    &&& exists|own: Seq<(String, String)>| #[trigger]
        default_pairs(form.fields@, own) && filled_in(own, fields, s.values@)
    &&& if s.method@ == "get"@ {
        &&& s.target@ == with_query(form.action@, s.values@)
        &&& s.plan.command@ == shell_joined(open_words(s.target@, installed))
        &&& s.plan.title@ == plan_title(title, "form:"@, form.action@)
    } else {
        &&& s.method@ == "post"@
        &&& s.target@ == shell_joined(post_words(form.action@, s.values@))
        &&& s.plan.command@ == s.target@
        &&& s.plan.title@ == plan_title(title, "form:"@, form.action@)
    }
}

/// How a form of a page is sent, by its number from one. A form sent by `get` opens the
/// address with its values; one sent by `post` runs a command.
pub fn submit_form(
    forms: &Vec<Form>,
    index: usize,
    fields: &Vec<(String, String)>,
    title: Option<String>,
    installed: &Vec<String>,
) -> (r: Result<Submission, SubmitError>)
    requires
        0 < index <= forms@.len() ==> forms@[index - 1].fields@.len() + fields@.len() < usize::MAX,
    ensures
        index == 0 ==> (r matches Err(SubmitError::ZeroIndex)),
        index > forms@.len() ==> (r matches Err(SubmitError::OutOfRange(n)) && n == index),
        0 < index <= forms@.len() ==> {
            let form = forms@[index - 1];
            let method = lowered(form.method@);
            if method != "get"@ && method != "post"@ {
                r matches Err(SubmitError::UnknownMethod(m)) && m@ == method
            } else {
                match r {
                    Ok(s) => submits(form, fields@, opt_text(title), installed@, s),
                    Err(SubmitError::Url(e)) => method == "get"@ && exists|
                        own: Seq<(String, String)>,
                        values: Seq<(String, String)>,
                    | #[trigger]
                        default_pairs(form.fields@, own) && #[trigger] filled_in(
                            own,
                            fields@,
                            values,
                        ) && url_problem(with_query(form.action@, values)) == Some(e),
                    Err(_) => false,
                }
            }
        },
{
    if index == 0 {
        return Err(SubmitError::ZeroIndex);
    }
    if index > forms.len() {
        return Err(SubmitError::OutOfRange(index));
    }
    let form = &forms[index - 1];
    let method = chars_of(form.method.as_str());
    let method = lower(method.as_slice());
    let method = string_of(method.as_slice());
    let mut values = form_default_fields(form);
    let ghost own = values@;
    fill_in(&mut values, fields);
    assert(default_pairs(form.fields@, own) && filled_in(own, fields@, values@));
    let target = match form_submission_target(form.action.as_str(), method.as_str(), &values) {
        Ok(t) => t,
        Err(m) => {
            return Err(SubmitError::UnknownMethod(m));
        },
    };
    let title = titled(title, "form:", form.action.as_str());
    let plan = if same(method.as_str(), "get") {
        match open_url(target.as_str(), Some(title), installed) {
            Ok(plan) => plan,
            Err(e) => {
                return Err(SubmitError::Url(e));
            },
        }
    } else {
        PagePlan { command: target.clone(), title }
    };
    Ok(Submission { method, values, target, plan })
}

/// What is reported of a page.
pub struct PageSnapshot {
    pub title: Option<String>,
    pub text: String,
    pub links: Vec<Link>,
}

/// What is reported of a page.
pub fn page_snapshot(url: &str, body: &str) -> (r: PageSnapshot)
    ensures
        opt_text(r.title) == title_of(body@),
        r.text@ == tail_within(page_text(body@), crate::browser::evaluate::TEXT_CAP as int),
        link_views(r.links@) == links_in(body@, url@),
{
    PageSnapshot {
        title: html_title(body),
        text: trim_output(html_to_text(body), crate::browser::evaluate::TEXT_CAP),
        links: html_links(body, url),
    }
}

} // verus!

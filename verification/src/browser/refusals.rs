//! What a refusal says.
use crate::browser::evaluate::EvalError;
use crate::browser::network::{FetchError, FETCH_BODY_CAP};
use crate::browser::open::{LinkError, SubmitError};
use crate::browser::url::UrlError;
use crate::text::chars::{around, naming, string_of};
use crate::text::numbers::{decimal, decimal_chars};
use vstd::prelude::*;

verus! {

fn number(n: usize) -> (r: String)
    ensures
        r@ == decimal(n as nat),
{
    string_of(decimal_chars(n as u64).as_slice())
}

/// Why an address is not opened, in words.
pub open spec fn url_words(e: UrlError) -> Seq<char> {
    match e {
        UrlError::Empty => "open-url requires a URL"@,
        UrlError::BadCharacter => "URL must not contain whitespace or control characters"@,
        UrlError::BadScheme => "open-url only supports http:// and https:// URLs"@,
        UrlError::NoHost => "URL is missing a host"@,
    }
}

/// Why an address is not opened, in words.
pub fn url_message(e: &UrlError) -> (r: String)
    ensures
        r@ == url_words(*e),
{
    match e {
        UrlError::Empty => "open-url requires a URL".to_string(),
        UrlError::BadCharacter => "URL must not contain whitespace or control characters".to_string(),
        UrlError::BadScheme => "open-url only supports http:// and https:// URLs".to_string(),
        UrlError::NoHost => "URL is missing a host".to_string(),
    }
}

/// Why no link is opened, in words.
pub open spec fn link_words(e: LinkError) -> Seq<char> {
    match e {
        LinkError::ZeroIndex => "link index is 1-based"@,
        LinkError::OutOfRange(n) => "link index "@ + decimal(n as nat) + " out of range"@,
        LinkError::Url(e) => url_words(e),
    }
}

/// Why no link is opened, in words.
pub fn link_message(e: &LinkError) -> (r: String)
    ensures
        r@ == link_words(*e),
{
    match e {
        LinkError::ZeroIndex => "link index is 1-based".to_string(),
        LinkError::OutOfRange(n) => around("link index ", number(*n).as_str(), " out of range"),
        LinkError::Url(e) => url_message(e),
    }
}

/// Why a form is not sent, in words.
pub open spec fn submit_words(e: SubmitError) -> Seq<char> {
    match e {
        SubmitError::ZeroIndex => "form index is 1-based"@,
        SubmitError::OutOfRange(n) => "form index "@ + decimal(n as nat) + " out of range"@,
        SubmitError::UnknownMethod(name) => "unsupported form method "@ + name@,
        SubmitError::Url(e) => url_words(e),
    }
}

/// Why a form is not sent, in words.
pub fn submit_message(e: &SubmitError) -> (r: String)
    ensures
        r@ == submit_words(*e),
{
    match e {
        SubmitError::ZeroIndex => "form index is 1-based".to_string(),
        SubmitError::OutOfRange(n) => around("form index ", number(*n).as_str(), " out of range"),
        SubmitError::UnknownMethod(name) => naming("unsupported form method ", name.as_str()),
        SubmitError::Url(e) => url_message(e),
    }
}

/// Why an expression has no value, in words.
pub open spec fn evaluation_words(e: EvalError) -> Seq<char> {
    match e {
        EvalError::Empty => "browser evaluate expression cannot be empty"@,
        EvalError::LinkOutOfRange(n) => "link index "@ + decimal(n as nat) + " out of range"@,
        EvalError::FormOutOfRange(n) => "form index "@ + decimal(n as nat) + " out of range"@,
        EvalError::LinkHasNoField(n, field) => "link index "@ + decimal(n as nat) + " has no field "@ + field@,
        EvalError::FormHasNoField(n, field) => "form index "@ + decimal(n as nat) + " has no field "@ + field@,
        EvalError::Unsupported(name) => "unsupported static browser expression "@ + name@ + "; try title, text, links, forms, links[1], links[1].href, text:h1, or selector:p"@,
    }
}

/// Why an expression has no value, in words.
pub fn evaluation_message(e: &EvalError) -> (r: String)
    ensures
        r@ == evaluation_words(*e),
{
    match e {
        EvalError::Empty => "browser evaluate expression cannot be empty".to_string(),
        EvalError::LinkOutOfRange(n) => around("link index ", number(*n).as_str(), " out of range"),
        EvalError::FormOutOfRange(n) => around("form index ", number(*n).as_str(), " out of range"),
        EvalError::LinkHasNoField(n, field) => naming(
            around("link index ", number(*n).as_str(), " has no field ").as_str(),
            field.as_str(),
        ),
        EvalError::FormHasNoField(n, field) => naming(
            around("form index ", number(*n).as_str(), " has no field ").as_str(),
            field.as_str(),
        ),
        EvalError::Unsupported(name) => around("unsupported static browser expression ", name.as_str(), "; try title, text, links, forms, links[1], links[1].href, text:h1, or selector:p"),
    }
}

/// Why a page was not brought, in words, where `label` says what it was for.
pub open spec fn fetch_words(label: Seq<char>, e: FetchError) -> Seq<char> {
    match e {
        FetchError::Failed(said) => label + " failed: "@ + said@,
        FetchError::TooLarge(n) => label + " response too large ("@ + decimal(n as nat)
            + " bytes; max "@ + decimal(FETCH_BODY_CAP as nat) + ")"@,
    }
}

/// Why a page was not brought, in words.
pub fn fetch_message(label: &str, e: &FetchError) -> (r: String)
    ensures
        r@ == fetch_words(label@, *e),
{
    match e {
        FetchError::Failed(said) => around(label, " failed: ", said.as_str()),
        FetchError::TooLarge(n) => {
            let size = around(label, " response too large (", number(*n).as_str());
            let limit = around(size.as_str(), " bytes; max ", number(FETCH_BODY_CAP).as_str());
            naming(limit.as_str(), ")")
        },
    }
}

} // verus!

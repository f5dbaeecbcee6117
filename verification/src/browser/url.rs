//! Addresses of pages.
use crate::shell::{join_shell_words, shell_joined, shell_words_of};
use crate::text::chars::{
    begins, char_position, chars_of, contains, control_char, find, find_char, has_text,
    is_control_char, is_white, last_char_position, lower, lowered, position, push_chars, rfind_char,
    starts_with, string_of, strip_prefix, texts, white, without_prefix,
};
use crate::daemon::panes::{listed, lists};
use vstd::prelude::*;
use vstd::slice::slice_subrange;
use vstd::utf8::encode_utf8;

verus! {

/// Why an address is not opened.
#[derive(Debug, Clone, Copy, PartialEq, Eq, Structural)]
pub enum UrlError {
    Empty,
    /// It holds white space or a control character.
    BadCharacter,
    /// It begins neither with `http://` nor with `https://`.
    BadScheme,
    NoHost,
}

/// The text has white space or a control character.
pub open spec fn has_bad_character(s: Seq<char>) -> bool {
    exists|i: int| 0 <= i < s.len() && (is_white(#[trigger] s[i]) || is_control_char(s[i]))
}

/// What follows the scheme, in small letters.
pub open spec fn after_scheme(url: Seq<char>) -> Option<Seq<char>> {
    let l = lowered(url);
    match without_prefix(l, "http://"@) {
        Some(rest) => Some(rest),
        None => without_prefix(l, "https://"@),
    }
}

/// How far the text goes without a slash, a question mark or a hash.
pub open spec fn authority_len(s: Seq<char>) -> int
    decreases s.len(),
{
    if s.len() == 0 || s[0] == '/' || s[0] == '?' || s[0] == '#' {
        0
    } else {
        1 + authority_len(s.drop_first())
    }
}

/// The host: the authority without what stands before its last `@` and from its first colon
/// on.
pub open spec fn host_of(rest: Seq<char>) -> Seq<char> {
    let authority = rest.take(authority_len(rest));
    let host = match last_char_position(authority, '@') {
        Some(i) => authority.skip(i + 1),
        None => authority,
    };
    match char_position(host, ':') {
        Some(i) => host.take(i),
        None => host,
    }
}

/// What is wrong with an address; none where it can be opened.
pub open spec fn url_problem(url: Seq<char>) -> Option<UrlError> {
    if url.len() == 0 {
        Some(UrlError::Empty)
    } else if has_bad_character(url) {
        Some(UrlError::BadCharacter)
    } else {
        match after_scheme(url) {
            None => Some(UrlError::BadScheme),
            Some(rest) => if host_of(rest).len() == 0 {
                Some(UrlError::NoHost)
            } else {
                None
            },
        }
    }
}

fn find_host(rest: &[char]) -> (r: Vec<char>)
    ensures
        r@ == host_of(rest@),
{
    let mut n: usize = 0;
    assert(rest@.skip(0) =~= rest@);
    while n < rest.len() && rest[n] != '/' && rest[n] != '?' && rest[n] != '#'
        invariant
            n <= rest.len(),
            authority_len(rest@) == n + authority_len(rest@.skip(n as int)),
        decreases rest.len() - n,
    {
        assert(rest@.skip(n as int).drop_first() =~= rest@.skip(n + 1));
        n += 1;
    }
    let authority = slice_subrange(rest, 0, n);
    assert(authority@ =~= rest@.take(n as int));
    let host = match rfind_char(authority, '@') {
        Some(i) => {
            let host = slice_subrange(authority, i + 1, authority.len());
            assert(host@ =~= authority@.skip(i + 1));
            host
        },
        None => authority,
    };
    let host = match find_char(host, ':') {
        Some(i) => {
            let head = slice_subrange(host, 0, i);
            assert(head@ =~= host@.take(i as int));
            head
        },
        None => host,
    };
    crate::text::chars::copy_chars(host)
}

/// Whether an address can be opened: it names a host by `http` or `https` and holds no
/// white space. Private hosts are as good as others.
pub fn validate_url(url: &str) -> (r: Result<(), UrlError>)
    ensures
        match url_problem(url@) {
            Some(e) => r == Err::<(), UrlError>(e),
            None => r is Ok,
        },
{
    let chars = chars_of(url);
    if chars.len() == 0 {
        return Err(UrlError::Empty);
    }
    let mut i: usize = 0;
    while i < chars.len()
        invariant
            i <= chars.len(),
            chars@ == url@,
            chars@.len() > 0,
            forall|k: int|
                0 <= k < i ==> !is_white(#[trigger] chars@[k]) && !is_control_char(chars@[k]),
        decreases chars.len() - i,
    {
        if white(chars[i]) || control_char(chars[i]) {
            assert(is_white(url@[i as int]) || is_control_char(url@[i as int]));
            return Err(UrlError::BadCharacter);
        }
        i += 1;
    }
    let l = lower(chars.as_slice());
    let rest = match strip_prefix(l.as_slice(), "http://") {
        Some(rest) => rest,
        None => match strip_prefix(l.as_slice(), "https://") {
            Some(rest) => rest,
            None => {
                return Err(UrlError::BadScheme);
            },
        },
    };
    let host = find_host(rest);
    if host.len() == 0 {
        Err(UrlError::NoHost)
    } else {
        Ok(())
    }
}

/// The terminal browsers, in the order in which they are looked for.
pub open spec fn browser_names() -> Seq<Seq<char>> {
    seq!["w3m"@, "lynx"@, "links"@, "elinks"@, "browsh"@]
}

/// The first of the names that is installed.
pub open spec fn first_installed(names: Seq<Seq<char>>, installed: Seq<String>) -> Option<Seq<char>>
    decreases names.len(),
{
    if names.len() == 0 {
        None
    } else if lists(installed, names[0]) {
        Some(names[0])
    } else {
        first_installed(names.drop_first(), installed)
    }
}

/// The words that show a page: a terminal browser and the address, or `curl` where none is
/// installed.
pub open spec fn open_words(url: Seq<char>, installed: Seq<String>) -> Seq<Seq<char>> {
    match first_installed(browser_names(), installed) {
        Some(browser) => seq![browser, url],
        None => seq!["curl"@, "-L"@, "--max-time"@, "30"@, url],
    }
}

/// The terminal browsers, in the order in which they are looked for.
pub fn terminal_browsers() -> (r: Vec<String>)
    ensures
        texts(r@) == browser_names(),
{
    let mut names: Vec<String> = Vec::new();
    names.push("w3m".to_string());
    names.push("lynx".to_string());
    names.push("links".to_string());
    names.push("elinks".to_string());
    names.push("browsh".to_string());
    assert(texts(names@) =~= browser_names());
    names
}

/// The command that shows a page, where the listed programs are installed.
pub fn url_open_command(url: &str, installed: &Vec<String>) -> (r: String)
    ensures
        r@ == shell_joined(open_words(url@, installed@)),
        shell_words_of(r@) == Some(open_words(url@, installed@)),
{
    let names = terminal_browsers();
    let ghost all = browser_names();
    let mut argv: Vec<String> = Vec::new();
    let mut i: usize = 0;
    assert(all.skip(0) =~= all);
    while i < names.len()
        invariant
            i <= names.len(),
            all == browser_names(),
            texts(names@) == all,
            argv@.len() == 0,
            first_installed(all.skip(i as int), installed@) == first_installed(all, installed@),
        decreases names.len() - i,
    {
        assert(all.skip(i as int).drop_first() =~= all.skip(i + 1));
        assert(all.skip(i as int)[0] == names@[i as int]@);
        if listed(installed, names[i].as_str()) {
            argv.push(names[i].clone());
            argv.push(url.to_string());
            assert(texts(argv@) =~= open_words(url@, installed@));
            return join_shell_words(&argv);
        }
        i += 1;
    }
    argv.push("curl".to_string());
    argv.push("-L".to_string());
    argv.push("--max-time".to_string());
    argv.push("30".to_string());
    argv.push(url.to_string());
    assert(texts(argv@) =~= open_words(url@, installed@));
    join_shell_words(&argv)
}

/// A byte that stands for itself in a query.
pub open spec fn is_plain_byte(b: u8) -> bool {
    (48 <= b <= 57) || (65 <= b <= 90) || (97 <= b <= 122) || b == 45 || b == 46 || b == 95 || b
        == 126
}

/// The character of a hexadecimal digit.
pub open spec fn hex_char(n: int) -> char {
    if n < 10 {
        (48 + n) as char
    } else {
        (55 + n) as char
    }
}

/// A byte in a query: itself, a plus for a space, or a percent sign and two digits.
pub open spec fn encoded_byte(b: u8) -> Seq<char> {
    if is_plain_byte(b) {
        seq![b as char]
    } else if b == 32 {
        seq!['+']
    } else {
        seq!['%', hex_char(b as int / 16), hex_char(b as int % 16)]
    }
}

/// Bytes in a query.
pub open spec fn encoded_bytes(bytes: Seq<u8>) -> Seq<char>
    decreases bytes.len(),
{
    if bytes.len() == 0 {
        Seq::empty()
    } else {
        encoded_bytes(bytes.drop_last()) + encoded_byte(bytes.last())
    }
}

/// A text in a query.
pub open spec fn encoded(s: Seq<char>) -> Seq<char> {
    encoded_bytes(encode_utf8(s))
}

fn hex_digit(n: u8) -> (r: char)
    requires
        n < 16,
    ensures
        r == hex_char(n as int),
{
    if n < 10 {
        (48 + n) as char
    } else {
        (55 + n) as char
    }
}

/// A text in a query.
pub fn url_encode(value: &str) -> (r: String)
    ensures
        r@ == encoded(value@),
{
    let bytes = value.as_bytes();
    let mut out = String::new();
    let mut i: usize = 0;
    assert(bytes@.take(0) =~= Seq::empty());
    while i < bytes.len()
        invariant
            i <= bytes.len(),
            out@ == encoded_bytes(bytes@.take(i as int)),
        decreases bytes.len() - i,
    {
        let b = bytes[i];
        assert(bytes@.take(i + 1).drop_last() =~= bytes@.take(i as int));
        let ghost before = out@;
        if (48 <= b && b <= 57) || (65 <= b && b <= 90) || (97 <= b && b <= 122) || b == 45 || b
            == 46 || b == 95 || b == 126 {
            out.push(b as char);
        } else if b == 32 {
            out.push('+');
        } else {
            out.push('%');
            out.push(hex_digit(b / 16));
            out.push(hex_digit(b % 16));
        }
        assert(out@ =~= before + encoded_byte(b));
        i += 1;
    }
    assert(bytes@.take(i as int) =~= bytes@);
    out
}

/// A character that can stand in a query as it is.
pub open spec fn is_query_char(c: char) -> bool {
    ('0' <= c <= '9') || ('A' <= c <= 'Z') || ('a' <= c <= 'z') || c == '-' || c == '.' || c == '_'
        || c == '~' || c == '+' || c == '%'
}

/// What is encoded holds nothing that could end a value in a query.
pub proof fn encoded_is_safe(s: Seq<char>)
    ensures
        forall|i: int| 0 <= i < encoded(s).len() ==> is_query_char(#[trigger] encoded(s)[i]),
{
    encoded_bytes_are_safe(encode_utf8(s));
}

proof fn encoded_bytes_are_safe(bytes: Seq<u8>)
    ensures
        forall|i: int|
            0 <= i < encoded_bytes(bytes).len() ==> is_query_char(
                #[trigger] encoded_bytes(bytes)[i],
            ),
    decreases bytes.len(),
{
    if bytes.len() > 0 {
        let before = bytes.drop_last();
        encoded_bytes_are_safe(before);
        let b = bytes.last();
        let last = encoded_byte(b);
        assert forall|i: int| 0 <= i < last.len() implies is_query_char(#[trigger] last[i]) by {
            assert(0 <= b as int / 16 < 16);
            assert(0 <= b as int % 16 < 16);
        }
        let all = encoded_bytes(bytes);
        assert forall|i: int| 0 <= i < all.len() implies is_query_char(#[trigger] all[i]) by {
            if i < encoded_bytes(before).len() {
                assert(all[i] == encoded_bytes(before)[i]);
            } else {
                assert(all[i] == last[i - encoded_bytes(before).len()]);
            }
        }
    }
}

/// Names and values in a query.
pub open spec fn query_of(values: Seq<(String, String)>) -> Seq<char>
    decreases values.len(),
{
    if values.len() == 0 {
        Seq::empty()
    } else {
        let last = encoded(values.last().0@) + "="@ + encoded(values.last().1@);
        if values.len() == 1 {
            last
        } else {
            query_of(values.drop_last()) + "&"@ + last
        }
    }
}

/// An address with names and values in its query.
pub open spec fn with_query(url: Seq<char>, values: Seq<(String, String)>) -> Seq<char> {
    if values.len() == 0 {
        url
    } else {
        url + (if has_text(url, "?"@) {
            "&"@
        } else {
            "?"@
        }) + query_of(values)
    }
}

/// An address with names and values in its query.
pub fn url_with_query(url: &str, values: &Vec<(String, String)>) -> (r: String)
    ensures
        r@ == with_query(url@, values@),
{
    if values.len() == 0 {
        return url.to_string();
    }
    let mut query = String::new();
    let mut i: usize = 0;
    assert(values@.take(0).len() == 0);
    while i < values.len()
        invariant
            i <= values.len(),
            query@ == query_of(values@.take(i as int)),
        decreases values.len() - i,
    {
        assert(values@.take(i + 1).drop_last() =~= values@.take(i as int));
        if i > 0 {
            query.append("&");
        }
        let name = url_encode(values[i].0.as_str());
        let value = url_encode(values[i].1.as_str());
        query.append(name.as_str());
        query.append("=");
        query.append(value.as_str());
        i += 1;
        assert(query@ =~= query_of(values@.take(i as int)));
    }
    assert(values@.take(i as int) =~= values@);
    let chars = chars_of(url);
    let mut out = url.to_string();
    if contains(chars.as_slice(), "?") {
        out.append("&");
    } else {
        out.append("?");
    }
    out.append(query.as_str());
    out
}

/// The part of an address that titles a pane: the host.
pub open spec fn short_url(url: Seq<char>) -> Seq<char> {
    let rest = match without_prefix(url, "https://"@) {
        Some(rest) => rest,
        None => match without_prefix(url, "http://"@) {
            Some(rest) => rest,
            None => url,
        },
    };
    before_slash(rest)
}

/// What stands before the first slash.
pub open spec fn before_slash(s: Seq<char>) -> Seq<char> {
    match char_position(s, '/') {
        Some(i) => s.take(i),
        None => s,
    }
}

fn cut_slash<'a>(s: &'a [char]) -> (r: &'a [char])
    ensures
        r@ == before_slash(s@),
{
    match find_char(s, '/') {
        Some(i) => {
            let head = slice_subrange(s, 0, i);
            assert(head@ =~= s@.take(i as int));
            head
        },
        None => s,
    }
}

/// The part of an address that titles a pane.
pub fn compact_url_title(url: &str) -> (r: String)
    ensures
        r@ == short_url(url@),
{
    let chars = chars_of(url);
    let rest = match strip_prefix(chars.as_slice(), "https://") {
        Some(rest) => rest,
        None => match strip_prefix(chars.as_slice(), "http://") {
            Some(rest) => rest,
            None => chars.as_slice(),
        },
    };
    string_of(cut_slash(rest))
}

/// What follows the scheme of a page in its address, and the scheme.
pub open spec fn split_scheme(url: Seq<char>) -> Option<(Seq<char>, Seq<char>)> {
    match position(url, "://"@) {
        Some(i) => Some((url.take(i), url.skip(i + 3))),
        None => None,
    }
}

/// The directory of a page: what stands before the last slash, where that has a slash itself,
/// or else the host.
pub open spec fn directory_of(rest: Seq<char>) -> Seq<char> {
    match last_char_position(rest, '/') {
        Some(i) => if has_text(rest.take(i), "/"@) {
            rest.take(i)
        } else {
            before_slash(rest)
        },
        None => before_slash(rest),
    }
}

/// The address that a reference on a page means.
pub open spec fn absolute(base: Seq<char>, href: Seq<char>) -> Seq<char> {
    if begins(href, "http://"@) || begins(href, "https://"@) {
        href
    } else {
        match split_scheme(base) {
            None => href,
            Some((scheme, rest)) => if begins(href, "/"@) {
                scheme + "://"@ + before_slash(rest) + href
            } else {
                scheme + "://"@ + directory_of(rest) + "/"@ + href
            },
        }
    }
}

/// The address that a reference on a page means.
pub fn absolutize_url(base_url: &str, href: &str) -> (r: String)
    ensures
        r@ == absolute(base_url@, href@),
{
    let reference = chars_of(href);
    let reference = reference.as_slice();
    if starts_with(reference, "http://") || starts_with(reference, "https://") {
        return href.to_string();
    }
    let base = chars_of(base_url);
    let base = base.as_slice();
    let at = match find(base, "://") {
        Some(i) => i,
        None => {
            return href.to_string();
        },
    };
    proof {
        crate::text::chars::position_from_is_first(base@, "://"@, 0);
        reveal_strlit("://");
    }
    assert(at + 3 <= base.len());
    let scheme = slice_subrange(base, 0, at);
    assert(scheme@ =~= base@.take(at as int));
    let rest = slice_subrange(base, at + 3, base.len());
    assert(rest@ =~= base@.skip(at + 3));
    let mut out = string_of(scheme);
    out.append("://");
    if starts_with(reference, "/") {
        push_chars(&mut out, cut_slash(rest));
        out.append(href);
    } else {
        let dir = match rfind_char(rest, '/') {
            Some(i) => {
                let head = slice_subrange(rest, 0, i);
                assert(head@ =~= rest@.take(i as int));
                if contains(head, "/") {
                    head
                } else {
                    cut_slash(rest)
                }
            },
            None => cut_slash(rest),
        };
        push_chars(&mut out, dir);
        out.append("/");
        out.append(href);
    }
    out
}

} // verus!

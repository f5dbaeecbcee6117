//! What addresses mean and what is read off pages.
use crate::browser::evaluate::{evaluated, form_field, link_field, ErrorView, ValueView};
use crate::browser::forms::{
    chosen_option, data_words, form_of, input_field, option_value, post_words,
};
use crate::browser::html::{
    attr_value, cut_tag, entity_len, entity_text, page_text, raw_text, title_of, unescaped,
    unescaped_of_plain, TextMode,
};
use crate::browser::network::header_of;
use crate::browser::page::{FieldView, FormView, LinkView};
use crate::browser::url::{
    absolute, authority_len, before_slash, browser_names, encoded, encoded_byte, encoded_bytes,
    first_installed, has_bad_character, hex_char, host_of, is_plain_byte, open_words, query_of,
    short_url, split_scheme, url_problem, with_query, UrlError,
};
use crate::daemon::panes::lists;
use crate::laws::commands::last_place_is;
use crate::text::chars::{
    begins, char_position, char_position_from_is, char_position_from_is_first, has_text,
    is_control_char, is_white, lowered, position_from_is, small, stands_at, trimmed_of_solid,
};
use crate::text::utf8::{byte_len, byte_len_push, tail_within};
use vstd::prelude::*;
use vstd::utf8::encode_utf8;

verus! {

/// The number of a hexadecimal digit in capital letters.
pub open spec fn hex_value(c: char) -> int {
    if '0' <= c <= '9' {
        c as int - 48
    } else {
        c as int - 55
    }
}

/// The bytes that a value in a query stands for: a plus is a space, a percent sign and two digits
/// the byte with that number, and any other character itself.
pub open spec fn decoded(s: Seq<char>) -> Seq<u8>
    decreases s.len(),
{
    if s.len() == 0 {
        Seq::empty()
    } else if s[0] == '%' && s.len() >= 3 {
        seq![(hex_value(s[1]) * 16 + hex_value(s[2])) as u8] + decoded(s.skip(3))
    } else if s[0] == '+' {
        seq![32u8] + decoded(s.drop_first())
    } else {
        seq![s[0] as u8] + decoded(s.drop_first())
    }
}

proof fn hex_digits_read_back(n: int)
    requires
        0 <= n < 16,
    ensures
        hex_value(hex_char(n)) == n,
{
}

proof fn decoded_byte(b: u8, rest: Seq<char>)
    ensures
        decoded(encoded_byte(b) + rest) == seq![b] + decoded(rest),
{
    let s = encoded_byte(b) + rest;
    if is_plain_byte(b) {
        assert(s[0] == b as char);
        assert(s.drop_first() =~= rest);
        assert((b as char) as u8 == b);
    } else if b == 32 {
        assert(s[0] == '+');
        assert(s.drop_first() =~= rest);
    } else {
        let hi = b as int / 16;
        let lo = b as int % 16;
        hex_digits_read_back(hi);
        hex_digits_read_back(lo);
        assert(s[0] == '%' && s[1] == hex_char(hi) && s[2] == hex_char(lo));
        assert(s.skip(3) =~= rest);
        assert(hi * 16 + lo == b);
    }
}

proof fn decoded_bytes_are(bytes: Seq<u8>, rest: Seq<char>)
    ensures
        decoded(encoded_bytes(bytes) + rest) == bytes + decoded(rest),
    decreases bytes.len(),
{
    if bytes.len() > 0 {
        let before = bytes.drop_last();
        let last = bytes.last();
        decoded_byte(last, rest);
        decoded_bytes_are(before, encoded_byte(last) + rest);
        assert(encoded_bytes(bytes) + rest =~= encoded_bytes(before) + (encoded_byte(last) + rest));
        assert(before + (seq![last] + decoded(rest)) =~= bytes + decoded(rest));
    } else {
        assert(encoded_bytes(bytes) + rest =~= rest);
        assert(bytes + decoded(rest) =~= decoded(rest));
    }
}

/// What is encoded for a query is read back to the letter.
pub proof fn encoding_loses_nothing(s: Seq<char>)
    ensures
        decoded(encoded(s)) == encode_utf8(s),
{
    decoded_bytes_are(encode_utf8(s), Seq::empty());
    assert(encoded(s) + Seq::<char>::empty() =~= encoded(s));
    assert(decoded(Seq::<char>::empty()) =~= Seq::empty());
    assert(encode_utf8(s) + Seq::<u8>::empty() =~= encode_utf8(s));
}

/// Names and values stand in a query with an equals sign between them and an ampersand between
/// pairs, behind a question mark, or behind another pair where there is one already.
pub proof fn queries_are_appended(
    url: Seq<char>,
    first: (String, String),
    second: (String, String),
)
    ensures
        with_query(url, Seq::empty()) == url,
        !has_text(url, "?"@) ==> with_query(url, seq![first]) == url + "?"@ + encoded(first.0@)
            + "="@ + encoded(first.1@),
        has_text(url, "?"@) ==> with_query(url, seq![first]) == url + "&"@ + encoded(first.0@)
            + "="@ + encoded(first.1@),
        query_of(seq![first, second]) == encoded(first.0@) + "="@ + encoded(first.1@) + "&"@
            + encoded(second.0@) + "="@ + encoded(second.1@),
{
    let one = seq![first];
    assert(one.last() == first);
    assert(query_of(one) == encoded(first.0@) + "="@ + encoded(first.1@));
    if !has_text(url, "?"@) {
        assert(url + "?"@ + (encoded(first.0@) + "="@ + encoded(first.1@)) =~= url + "?"@ + encoded(
            first.0@,
        ) + "="@ + encoded(first.1@));
    } else {
        assert(url + "&"@ + (encoded(first.0@) + "="@ + encoded(first.1@)) =~= url + "&"@ + encoded(
            first.0@,
        ) + "="@ + encoded(first.1@));
    }
    let two = seq![first, second];
    assert(two.drop_last() =~= one);
    assert(two.last() == second);
    assert(query_of(two) =~= encoded(first.0@) + "="@ + encoded(first.1@) + "&"@ + encoded(
        second.0@,
    ) + "="@ + encoded(second.1@));
}

/// A host: letters, digits, dots and hyphens.
pub open spec fn is_host(s: Seq<char>) -> bool {
    s.len() > 0 && forall|i: int|
        0 <= i < s.len() ==> ('a' <= #[trigger] s[i] <= 'z') || ('0' <= s[i] <= '9') || s[i] == '.'
            || s[i] == '-'
}

/// A page is opened by its host and `http` or `https`; another scheme, an empty address, one with
/// white space and one without a host are refused.
pub proof fn pages_are_opened_by_their_hosts(host: Seq<char>)
    requires
        is_host(host),
    ensures
        url_problem("http://"@ + host) is None,
        url_problem("https://"@ + host) is None,
        url_problem(Seq::empty()) == Some(UrlError::Empty),
        url_problem("ftp://"@ + host) == Some(UrlError::BadScheme),
        url_problem(host) == Some(UrlError::BadScheme) || begins(host, "http"@),
        url_problem("http://"@ + host + " "@) == Some(UrlError::BadCharacter),
        url_problem("http://"@) == Some(UrlError::NoHost),
        url_problem("https:///"@) == Some(UrlError::NoHost),
{
    url_literals();
    plain_host(host);
    scheme_and_host("http://"@, host);
    scheme_and_host("https://"@, host);
    let ftp = "ftp://"@ + host;
    plain_text(ftp);
    small_is_same(ftp);
    assert(ftp[0] == 'f');
    not_begun(ftp, "http://"@);
    not_begun(ftp, "https://"@);
    plain_text(host);
    small_is_same(host);
    if begins(host, "http://"@) {
        assert(host.subrange(0, 7)[4] == host[4]);
    }
    if begins(host, "https://"@) {
        assert(host.subrange(0, 8)[5] == host[5]);
    }
    let spaced = "http://"@ + host + " "@;
    assert(is_white(spaced[spaced.len() - 1]));
    let bare = "http://"@;
    plain_text(bare);
    small_is_same(bare);
    assert(bare.subrange(0, 7) =~= "http://"@);
    assert(bare.skip(7) =~= Seq::empty());
    no_host(Seq::empty());
    let slash = "https:///"@;
    plain_text(slash);
    small_is_same(slash);
    assert(slash.subrange(0, 8) =~= "https://"@);
    assert(slash[4] == 's');
    if begins(slash, "http://"@) {
        assert(slash.subrange(0, 7)[4] == slash[4]);
    }
    assert(slash.skip(8) =~= seq!['/']);
    no_host(seq!['/']);
}

proof fn no_host(rest: Seq<char>)
    requires
        rest.len() == 0 || rest[0] == '/',
    ensures
        host_of(rest).len() == 0,
{
    let authority = rest.take(0);
    assert(authority_len(rest) == 0);
    last_place_is(authority, '@', 0, -1);
    char_position_from_is_first(authority, ':', 0);
}

proof fn not_begun(s: Seq<char>, head: Seq<char>)
    requires
        head.len() > 0,
        s.len() > 0,
        s[0] != head[0],
    ensures
        !begins(s, head),
{
    if begins(s, head) {
        assert(s.subrange(0, head.len() as int)[0] == s[0]);
    }
}

proof fn url_literals()
    ensures
        "http://"@ == seq!['h', 't', 't', 'p', ':', '/', '/'],
        "https://"@ == seq!['h', 't', 't', 'p', 's', ':', '/', '/'],
        "https:///"@ == seq!['h', 't', 't', 'p', 's', ':', '/', '/', '/'],
        "ftp://"@ == seq!['f', 't', 'p', ':', '/', '/'],
        "://"@ == seq![':', '/', '/'],
        " "@ == seq![' '],
        "/"@ == seq!['/'],
{
    reveal_strlit("http://");
    reveal_strlit("https://");
    reveal_strlit("https:///");
    reveal_strlit("ftp://");
    reveal_strlit("://");
    reveal_strlit(" ");
    reveal_strlit("/");
    assert("http://"@ =~= seq!['h', 't', 't', 'p', ':', '/', '/']);
    assert("https://"@ =~= seq!['h', 't', 't', 'p', 's', ':', '/', '/']);
    assert("https:///"@ =~= seq!['h', 't', 't', 'p', 's', ':', '/', '/', '/']);
    assert("ftp://"@ =~= seq!['f', 't', 'p', ':', '/', '/']);
    assert("://"@ =~= seq![':', '/', '/']);
    assert(" "@ =~= seq![' ']);
    assert("/"@ =~= seq!['/']);
}

/// No white space and no control character, and no capital letter.
pub open spec fn is_plain_text(s: Seq<char>) -> bool {
    forall|i: int|
        0 <= i < s.len() ==> '!' <= #[trigger] s[i] <= '~' && !('A' <= s[i] <= 'Z')
}

proof fn plain_text(s: Seq<char>)
    requires
        is_plain_text(s),
    ensures
        !has_bad_character(s),
{
    assert forall|i: int| 0 <= i < s.len() implies !is_white(#[trigger] s[i]) && !is_control_char(
        s[i],
    ) by {}
}

proof fn small_is_same(s: Seq<char>)
    requires
        is_plain_text(s),
    ensures
        lowered(s) == s,
{
    assert forall|i: int| 0 <= i < s.len() implies small(#[trigger] s[i]) == s[i] by {}
    assert(lowered(s) =~= s);
}

proof fn plain_host(host: Seq<char>)
    requires
        is_host(host),
    ensures
        is_plain_text(host),
        host_of(host) == host,
{
    whole_authority(host);
    assert(host.take(host.len() as int) =~= host);
    last_place_is(host, '@', host.len() as int, -1);
    char_position_from_is_first(host, ':', 0);
    assert(char_position(host, ':') is None) by {
        if char_position(host, ':') is Some {
            let p = char_position(host, ':')->0;
            assert(host[p] == ':');
        }
    }
}

proof fn whole_authority(s: Seq<char>)
    requires
        forall|i: int| 0 <= i < s.len() ==> #[trigger] s[i] != '/' && s[i] != '?' && s[i] != '#',
    ensures
        authority_len(s) == s.len(),
    decreases s.len(),
{
    if s.len() > 0 {
        let rest = s.drop_first();
        assert forall|i: int| 0 <= i < rest.len() implies #[trigger] rest[i] != '/' && rest[i] != '?'
            && rest[i] != '#' by {
            assert(rest[i] == s[i + 1]);
        }
        assert(s[0] != '/');
        whole_authority(rest);
    }
}

proof fn scheme_and_host(scheme: Seq<char>, host: Seq<char>)
    requires
        scheme == "http://"@ || scheme == "https://"@,
        is_host(host),
    ensures
        url_problem(scheme + host) is None,
{
    url_literals();
    plain_host(host);
    let url = scheme + host;
    assert forall|i: int| 0 <= i < url.len() implies '!' <= #[trigger] url[i] <= '~' && !('A'
        <= url[i] <= 'Z') by {
        if i >= scheme.len() {
            assert(url[i] == host[i - scheme.len()]);
        }
    }
    plain_text(url);
    small_is_same(url);
    assert(url.skip(scheme.len() as int) =~= host);
    if scheme == "http://"@ {
        assert(url.subrange(0, 7) =~= "http://"@);
    } else {
        assert(url.subrange(0, 8) =~= "https://"@);
        assert(url[4] == 's');
        if begins(url, "http://"@) {
            assert(url.subrange(0, 7)[4] == url[4]);
        }
    }
}

/// A page is shown by the first of w3m, lynx, links, elinks and browsh that is installed, and
/// fetched where none is.
pub proof fn browsers_are_looked_for_in_order(url: Seq<char>, installed: Seq<String>)
    ensures
        lists(installed, "w3m"@) ==> open_words(url, installed) == seq!["w3m"@, url],
        !lists(installed, "w3m"@) && lists(installed, "lynx"@) ==> open_words(url, installed)
            == seq!["lynx"@, url],
        !lists(installed, "w3m"@) && !lists(installed, "lynx"@) && lists(installed, "links"@)
            ==> open_words(url, installed) == seq!["links"@, url],
        !lists(installed, "w3m"@) && !lists(installed, "lynx"@) && !lists(installed, "links"@)
            && lists(installed, "elinks"@) ==> open_words(url, installed) == seq!["elinks"@, url],
        !lists(installed, "w3m"@) && !lists(installed, "lynx"@) && !lists(installed, "links"@)
            && !lists(installed, "elinks"@) && lists(installed, "browsh"@) ==> open_words(
            url,
            installed,
        ) == seq!["browsh"@, url],
        !lists(installed, "w3m"@) && !lists(installed, "lynx"@) && !lists(installed, "links"@)
            && !lists(installed, "elinks"@) && !lists(installed, "browsh"@) ==> open_words(
            url,
            installed,
        ) == seq!["curl"@, "-L"@, "--max-time"@, "30"@, url],
{
    let all = browser_names();
    let l1 = all.drop_first();
    let l2 = l1.drop_first();
    let l3 = l2.drop_first();
    let l4 = l3.drop_first();
    let l5 = l4.drop_first();
    assert(all[0] == "w3m"@ && l1[0] == "lynx"@ && l2[0] == "links"@ && l3[0] == "elinks"@ && l4[0]
        == "browsh"@ && l5.len() == 0);
    reveal_with_fuel(first_installed, 7);
}

/// A reference on a page is an address of its own, or one on the host of the page where it begins
/// with a slash, or one in the directory of the page.
pub proof fn references_are_resolved(scheme: Seq<char>, host: Seq<char>, dir: Seq<char>, page: Seq<char>, href: Seq<char>)
    requires
        is_host(scheme),
        is_host(host),
        forall|i: int| 0 <= i < page.len() ==> #[trigger] page[i] != '/',
    ensures
        begins(href, "http://"@) || begins(href, "https://"@) ==> absolute(
            scheme + "://"@ + host + "/"@ + dir + "/"@ + page,
            href,
        ) == href,
        begins(href, "/"@) && !begins(href, "http://"@) && !begins(href, "https://"@) ==> absolute(
            scheme + "://"@ + host + "/"@ + dir + "/"@ + page,
            href,
        ) == scheme + "://"@ + host + href,
        !begins(href, "/"@) && !begins(href, "http://"@) && !begins(href, "https://"@) ==> absolute(
            scheme + "://"@ + host + "/"@ + dir + "/"@ + page,
            href,
        ) == scheme + "://"@ + host + "/"@ + dir + "/"@ + href,
        !begins(href, "/"@) && !begins(href, "http://"@) && !begins(href, "https://"@) ==> absolute(
            scheme + "://"@ + host,
            href,
        ) == scheme + "://"@ + host + "/"@ + href,
{
    url_literals();
    let rest = host + "/"@ + dir + "/"@ + page;
    let base = scheme + "://"@ + host + "/"@ + dir + "/"@ + page;
    assert(base =~= scheme + "://"@ + rest);
    scheme_is_cut(scheme, rest);
    let n = host.len() as int;
    assert forall|i: int| 0 <= i < n implies rest[i] != '/' by {
        assert(rest[i] == host[i]);
    }
    assert(rest[n] == '/');
    char_position_from_is(rest, '/', 0, n);
    assert(rest.take(n) =~= host);
    let p = n + 1 + dir.len();
    assert(rest[p] == '/');
    assert forall|i: int| p < i < rest.len() implies #[trigger] rest[i] != '/' by {
        assert(rest[i] == page[i - p - 1]);
    }
    last_place_is(rest, '/', rest.len() as int, p);
    let head = rest.take(p);
    assert(head =~= host + "/"@ + dir);
    assert(head.subrange(n, n + 1) =~= "/"@);
    assert(stands_at(head, "/"@, n));
    assert(scheme + "://"@ + head + "/"@ + href =~= scheme + "://"@ + host + "/"@ + dir + "/"@
        + href);
    scheme_is_cut(scheme, host);
    last_place_is(host, '/', host.len() as int, -1);
    char_position_from_is_first(host, '/', 0);
    assert(char_position(host, '/') is None) by {
        if char_position(host, '/') is Some {
            assert(host[char_position(host, '/')->0] == '/');
        }
    }
}

proof fn scheme_is_cut(scheme: Seq<char>, rest: Seq<char>)
    requires
        is_host(scheme),
    ensures
        split_scheme(scheme + "://"@ + rest) == Some((scheme, rest)),
{
    url_literals();
    let url = scheme + "://"@ + rest;
    let n = scheme.len() as int;
    assert(url.subrange(n, n + 3) =~= "://"@);
    assert forall|i: int| 0 <= i < n implies !stands_at(url, "://"@, i) by {
        if stands_at(url, "://"@, i) {
            assert(url.subrange(i, i + 3)[0] == url[i]);
            assert(url[i] == scheme[i]);
        }
    }
    position_from_is(url, "://"@, 0, n);
    assert(url.take(n) =~= scheme);
    assert(url.skip(n + 3) =~= rest);
}

/// The pane of a page is titled after the host.
pub proof fn panes_are_titled_after_hosts(host: Seq<char>, path: Seq<char>)
    requires
        is_host(host),
        path.len() == 0 || path[0] == '/',
    ensures
        short_url("https://"@ + host + path) == host,
        short_url("http://"@ + host + path) == host,
{
    url_literals();
    let rest = host + path;
    host_before_path(host, path);
    let secure = "https://"@ + host + path;
    assert(secure.subrange(0, 8) =~= "https://"@);
    assert(secure.skip(8) =~= rest);
    let open = "http://"@ + host + path;
    assert(open[4] == ':');
    if begins(open, "https://"@) {
        assert(open.subrange(0, 8)[4] == open[4]);
    }
    assert(open.subrange(0, 7) =~= "http://"@);
    assert(open.skip(7) =~= rest);
}

proof fn host_before_path(host: Seq<char>, path: Seq<char>)
    requires
        is_host(host),
        path.len() == 0 || path[0] == '/',
    ensures
        before_slash(host + path) == host,
{
    let rest = host + path;
    let n = host.len() as int;
    assert forall|i: int| 0 <= i < n implies rest[i] != '/' by {
        assert(rest[i] == host[i]);
    }
    if path.len() > 0 {
        assert(rest[n] == '/');
        char_position_from_is(rest, '/', 0, n);
        assert(rest.take(n) =~= host);
    } else {
        char_position_from_is_first(rest, '/', 0);
        assert(rest =~= host);
    }
}

/// The entities that pages write for the characters with a meaning of their own.
pub proof fn entities_stand_for_characters()
    ensures
        entity_text("amp"@) == "&"@,
        entity_text("lt"@) == "<"@,
        entity_text("gt"@) == ">"@,
        entity_text("quot"@) == "\""@,
        entity_text("apos"@) == "'"@,
{
    reveal_strlit("amp");
    reveal_strlit("lt");
    reveal_strlit("gt");
    reveal_strlit("quot");
    reveal_strlit("apos");
    assert("amp"@.len() == 3);
    assert("lt"@.len() == 2);
    assert("gt"@.len() == 2);
    assert("quot"@.len() == 4);
    assert("apos"@.len() == 4);
    assert("lt"@[0] != "gt"@[0]);
    assert("quot"@[0] != "apos"@[0]);
}

/// An entity with its semicolon is replaced by what it stands for, a character that begins none
/// stays, and so does what follows.
pub proof fn entities_are_replaced(entity: Seq<char>, rest: Seq<char>, c: char)
    requires
        0 < entity.len() <= 16,
        forall|i: int|
            0 <= i < entity.len() ==> ('a' <= #[trigger] entity[i] <= 'z') || ('A' <= entity[i]
                <= 'Z') || ('0' <= entity[i] <= '9'),
        c != '&',
    ensures
        unescaped(seq!['&'] + entity + seq![';'] + rest) == entity_text(entity) + unescaped(rest),
        unescaped(seq![c] + rest) == seq![c] + unescaped(rest),
{
    let s = seq!['&'] + entity + seq![';'] + rest;
    let body = entity + seq![';'] + rest;
    assert(s.drop_first() =~= body);
    entity_is_read(entity, seq![';'] + rest, 16);
    assert(body =~= entity + (seq![';'] + rest));
    let n = entity.len() as int;
    assert(s.subrange(1, 1 + n) =~= entity);
    assert(s.skip(1 + n) =~= seq![';'] + rest);
    assert((seq![';'] + rest).drop_first() =~= rest);
    assert((seq![c] + rest).drop_first() =~= rest);
}

proof fn entity_is_read(entity: Seq<char>, rest: Seq<char>, cap: int)
    requires
        entity.len() <= cap,
        forall|i: int|
            0 <= i < entity.len() ==> ('a' <= #[trigger] entity[i] <= 'z') || ('A' <= entity[i]
                <= 'Z') || ('0' <= entity[i] <= '9'),
        rest.len() > 0 && rest[0] == ';',
    ensures
        entity_len(entity + rest, cap) == entity.len(),
    decreases entity.len(),
{
    let s = entity + rest;
    if entity.len() > 0 {
        let shorter = entity.drop_first();
        assert(s.drop_first() =~= shorter + rest);
        assert(s[0] == entity[0]);
        assert forall|i: int| 0 <= i < shorter.len() implies ('a' <= #[trigger] shorter[i] <= 'z') || (
        'A' <= shorter[i] <= 'Z') || ('0' <= shorter[i] <= '9') by {
            assert(shorter[i] == entity[i + 1]);
        }
        entity_is_read(shorter, rest, cap - 1);
    } else {
        assert(s =~= rest);
    }
}

/// The text of a page has a space in the place of each tag, and every other character stays.
pub proof fn tags_are_spaces(tag: Seq<char>, rest: Seq<char>, c: char)
    requires
        forall|i: int| 0 <= i < tag.len() ==> #[trigger] tag[i] != '>',
        c != '<' && c != '&',
    ensures
        raw_text(seq!['<'] + tag + seq!['>'] + rest, TextMode::Plain) == seq![' '] + raw_text(
            rest,
            TextMode::Plain,
        ),
        raw_text(seq![c] + rest, TextMode::Plain) == seq![c] + raw_text(rest, TextMode::Plain),
        raw_text(seq!['&', 'l', 't', ';'] + rest, TextMode::Plain) == "<"@ + raw_text(
            rest,
            TextMode::Plain,
        ),
{
    let s = seq!['<'] + tag + seq!['>'] + rest;
    assert(s.drop_first() =~= tag + (seq!['>'] + rest));
    within_a_tag(tag, rest);
    assert((seq![c] + rest).drop_first() =~= rest);
    entities_stand_for_characters();
    reveal_strlit("lt");
    let e0 = seq!['&', 'l', 't', ';'] + rest;
    let e1 = e0.drop_first();
    let e2 = e1.drop_first();
    let e3 = e2.drop_first();
    assert(e0[0] == '&' && e1[0] == 'l' && e2[0] == 't' && e3[0] == ';');
    assert(e3.drop_first() =~= rest);
    let none = Seq::<char>::empty();
    let one = none.push('l');
    let two = one.push('t');
    assert(two =~= "lt"@);
    byte_len_push(none, 'l');
    assert(byte_len(none) == 0);
    assert(raw_text(e3, TextMode::Entity(two)) == entity_text(two) + raw_text(rest, TextMode::Plain));
    assert(raw_text(e2, TextMode::Entity(one)) == raw_text(e3, TextMode::Entity(two)));
    assert(raw_text(e1, TextMode::Entity(none)) == raw_text(e2, TextMode::Entity(one)));
}

proof fn within_a_tag(tag: Seq<char>, rest: Seq<char>)
    requires
        forall|i: int| 0 <= i < tag.len() ==> #[trigger] tag[i] != '>',
    ensures
        raw_text(tag + (seq!['>'] + rest), TextMode::Tag) == seq![' '] + raw_text(
            rest,
            TextMode::Plain,
        ),
    decreases tag.len(),
{
    let s = tag + (seq!['>'] + rest);
    if tag.len() > 0 {
        let shorter = tag.drop_first();
        assert(s.drop_first() =~= shorter + (seq!['>'] + rest));
        assert(s[0] == tag[0]);
        assert forall|i: int| 0 <= i < shorter.len() implies #[trigger] shorter[i] != '>' by {
            assert(shorter[i] == tag[i + 1]);
        }
        within_a_tag(shorter, rest);
    } else {
        assert(s =~= seq!['>'] + rest);
        assert(s.drop_first() =~= rest);
    }
}

/// The value of an attribute stands behind its name and an equals sign, between quotes.
pub proof fn attributes_have_values(name: Seq<char>, value: Seq<char>, rest: Seq<char>)
    requires
        is_host(name),
        forall|i: int|
            0 <= i < value.len() ==> #[trigger] value[i] != '"' && value[i] != '&',
    ensures
        attr_value(name + "=\""@ + value + "\""@ + rest, name) == Some(value),
{
    reveal_strlit("=\"");
    reveal_strlit("\"");
    reveal_strlit("=");
    assert("=\""@ =~= seq!['=', '"']);
    assert("\""@ =~= seq!['"']);
    assert("="@ =~= seq!['=']);
    let attrs = name + "=\""@ + value + "\""@ + rest;
    let needle = name + "="@ + seq!['"'];
    let n = needle.len() as int;
    plain_host(name);
    assert(lowered(attrs).subrange(0, n) =~= needle) by {
        assert forall|i: int| 0 <= i < n implies lowered(attrs)[i] == needle[i] by {
            assert(lowered(attrs)[i] == small(attrs[i]));
            if i < name.len() {
                assert(attrs[i] == name[i]);
            }
        }
    }
    assert(lowered(attrs).len() == attrs.len());
    position_from_is(lowered(attrs), needle, 0, 0);
    let after = attrs.skip(n);
    assert(after =~= value + "\""@ + rest);
    assert forall|i: int| 0 <= i < value.len() implies after[i] != '"' by {
        assert(after[i] == value[i]);
    }
    assert(after[value.len() as int] == '"');
    char_position_from_is(after, '"', 0, value.len() as int);
    assert(after.take(value.len() as int) =~= value);
    unescaped_of_plain(value);
}

/// The fields of a form are its inputs with a name, with their kind and value; buttons are none. An
/// input without a kind is a text, and one without a value is empty.
pub proof fn inputs_are_fields(attrs: Seq<char>)
    ensures
        attr_value(attrs, "name"@) is None ==> input_field(attrs).len() == 0,
        attr_value(attrs, "type"@) == Some("submit"@) || attr_value(attrs, "type"@) == Some(
            "button"@,
        ) || attr_value(attrs, "type"@) == Some("reset"@) || attr_value(attrs, "type"@) == Some(
            "image"@,
        ) ==> input_field(attrs).len() == 0,
        attr_value(attrs, "name"@) is Some && attr_value(attrs, "type"@) == Some("hidden"@)
            && attr_value(attrs, "value"@) is Some ==> input_field(attrs) == seq![
            FieldView {
                name: attr_value(attrs, "name"@)->0,
                kind: "hidden"@,
                value: attr_value(attrs, "value"@)->0,
            },
        ],
        attr_value(attrs, "name"@) is Some && attr_value(attrs, "type"@) is None && attr_value(
            attrs,
            "value"@,
        ) is None ==> input_field(attrs) == seq![
            FieldView {
                name: attr_value(attrs, "name"@)->0,
                kind: "text"@,
                value: Seq::empty(),
            },
        ],
{
    reveal_strlit("submit");
    reveal_strlit("button");
    reveal_strlit("reset");
    reveal_strlit("image");
    reveal_strlit("hidden");
    reveal_strlit("text");
    assert("submit"@.len() == 6);
    assert("button"@.len() == 6);
    assert("reset"@.len() == 5);
    assert("image"@.len() == 5);
    assert("hidden"@.len() == 6);
    assert("text"@.len() == 4);
    assert("submit"@[0] != "button"@[0]);
    assert("submit"@[0] != "hidden"@[0]);
    assert("button"@[0] != "hidden"@[0]);
    assert("reset"@[0] != "image"@[0]);
}

/// A form is sent by `get` to its own page where it does not say otherwise; it is labelled by its
/// label, its name or its id, in this order.
pub proof fn forms_say_how_they_are_sent(
    index: int,
    attrs: Seq<char>,
    base: Seq<char>,
    fields: Seq<FieldView>,
)
    ensures
        ({
            let f = form_of(index, attrs, base, fields);
            &&& f.index == index
            &&& f.fields == fields
            &&& attr_value(attrs, "method"@) is None ==> f.method == "get"@
            &&& attr_value(attrs, "method"@) is Some ==> f.method == lowered(
                attr_value(attrs, "method"@)->0,
            )
            &&& attr_value(attrs, "action"@) is None ==> f.action == base
            &&& attr_value(attrs, "action"@) is Some ==> f.action == absolute(
                base,
                attr_value(attrs, "action"@)->0,
            )
            &&& attr_value(attrs, "aria-label"@) is Some ==> f.label == attr_value(
                attrs,
                "aria-label"@,
            )
            &&& attr_value(attrs, "aria-label"@) is None && attr_value(attrs, "name"@) is Some
                ==> f.label == attr_value(attrs, "name"@)
            &&& attr_value(attrs, "aria-label"@) is None && attr_value(attrs, "name"@) is None
                ==> f.label == attr_value(attrs, "id"@)
        }),
{
    reveal_strlit("get");
    assert("get"@ =~= seq!['g', 'e', 't']);
    assert(lowered("get"@) =~= "get"@);
}

/// The option that is selected gives the value, or else the first one.
pub proof fn selected_options_count(html: Seq<char>, first: Option<Seq<char>>)
    ensures
        cut_tag(html, "<option"@) is None ==> chosen_option(html, first) == first,
        cut_tag(html, "<option"@) matches Some((attrs, after)) ==> {
            &&& has_text(lowered(attrs), "selected"@) ==> chosen_option(html, first) == Some(
                option_value(attrs, after),
            )
            &&& !has_text(lowered(attrs), "selected"@) && cut_tag(after, "<option"@) is None && first
                is None ==> chosen_option(html, first) == Some(option_value(attrs, after))
            &&& !has_text(lowered(attrs), "selected"@) && first is Some ==> chosen_option(
                html,
                first,
            ) == chosen_option(after, first)
            &&& attr_value(attrs, "value"@) is Some ==> Some(option_value(attrs, after))
                == attr_value(attrs, "value"@)
        },
{
    match cut_tag(html, "<option"@) {
        Some((attrs, after)) => {
            if cut_tag(after, "<option"@) is None {
                assert(chosen_option(after, Some(option_value(attrs, after))) == Some(
                    option_value(attrs, after),
                ));
            }
        },
        None => {},
    }
}

/// A form that is posted is sent by a command with each name and value, and the address last.
pub proof fn forms_are_posted(action: Seq<char>, value: (String, String))
    ensures
        post_words(action, Seq::empty()) == seq!["curl"@, "-L"@, "-X"@, "POST"@, action],
        post_words(action, seq![value]) == seq![
            "curl"@,
            "-L"@,
            "-X"@,
            "POST"@,
            "--data-urlencode"@,
            value.0@ + "="@ + value.1@,
            action,
        ],
{
    let none = Seq::<(String, String)>::empty();
    let one = seq![value];
    assert(one.drop_last() =~= none);
    assert(one.last() == value);
    assert(data_words(none) =~= Seq::empty());
    assert(data_words(one) =~= seq![
        "--data-urlencode"@,
        value.0@ + "="@ + value.1@,
    ]);
    assert(post_words(action, none) =~= seq!["curl"@, "-L"@, "-X"@, "POST"@, action]);
    assert(post_words(action, one) =~= seq![
        "curl"@,
        "-L"@,
        "-X"@,
        "POST"@,
        "--data-urlencode"@,
        value.0@ + "="@ + value.1@,
        action,
    ]);
}

/// The parts of links and forms that an expression can name.
pub proof fn parts_have_names(link: LinkView, form: FormView)
    ensures
        link_field(link, "href"@) == Some(ValueView::Text(link.href)),
        link_field(link, "text"@) == Some(ValueView::Text(link.text)),
        form_field(form, "index"@) == Some(ValueView::Number(form.index)),
        form_field(form, "method"@) == Some(ValueView::Text(form.method)),
        form_field(form, "action"@) == Some(ValueView::Text(form.action)),
        form_field(form, "fields"@) == Some(ValueView::Fields(form.fields)),
        form.label is None ==> form_field(form, "label"@) == Some(ValueView::Nothing),
        form.label matches Some(l) ==> form_field(form, "label"@) == Some(ValueView::Text(l)),
{
    reveal_strlit("href");
    reveal_strlit("text");
    reveal_strlit("index");
    reveal_strlit("method");
    reveal_strlit("action");
    reveal_strlit("label");
    reveal_strlit("fields");
    assert("href"@.len() == 4);
    assert("text"@.len() == 4);
    assert("index"@.len() == 5);
    assert("method"@.len() == 6);
    assert("action"@.len() == 6);
    assert("label"@.len() == 5);
    assert("fields"@.len() == 6);
    assert("href"@[0] != "text"@[0]);
    assert("index"@[0] != "label"@[0]);
    assert("method"@[0] != "action"@[0]);
    assert("method"@[0] != "fields"@[0]);
    assert("action"@[0] != "fields"@[0]);
}

/// What stands on a page is named by plain words.
pub proof fn expressions_name_parts(
    html: Seq<char>,
    links: Seq<LinkView>,
    forms: Seq<FormView>,
)
    ensures
        title_of(html) matches Some(t) ==> evaluated("title"@, html, links, forms) == Ok::<
            ValueView,
            ErrorView,
        >(ValueView::Text(t)) && evaluated("document.title"@, html, links, forms) == Ok::<
            ValueView,
            ErrorView,
        >(ValueView::Text(t)),
        title_of(html) is None ==> evaluated("title"@, html, links, forms) == Ok::<
            ValueView,
            ErrorView,
        >(ValueView::Nothing),
        evaluated("links"@, html, links, forms) == Ok::<ValueView, ErrorView>(
            ValueView::Links(links),
        ),
        evaluated("forms"@, html, links, forms) == Ok::<ValueView, ErrorView>(
            ValueView::Forms(forms),
        ),
        evaluated("text"@, html, links, forms) == Ok::<ValueView, ErrorView>(
            ValueView::Text(
                tail_within(page_text(html), 32000),
            ),
        ),
        evaluated("document.body.innerText"@, html, links, forms) == evaluated(
            "text"@,
            html,
            links,
            forms,
        ),
{
    reveal_strlit("title");
    reveal_strlit("document.title");
    reveal_strlit("text");
    reveal_strlit("document.body.innerText");
    reveal_strlit("body.innerText");
    reveal_strlit("links");
    reveal_strlit("forms");
    assert("title"@.len() == 5);
    assert("document.title"@.len() == 14);
    assert("text"@.len() == 4);
    assert("document.body.innerText"@.len() == 23);
    assert("body.innerText"@.len() == 14);
    assert("links"@.len() == 5);
    assert("forms"@.len() == 5);
    assert("title"@[0] != "links"@[0]);
    assert("title"@[0] != "forms"@[0]);
    assert("document.title"@[0] != "body.innerText"@[0]);
    assert("links"@[0] != "forms"@[0]);
}

/// A header is a name before the first colon and a value behind it, both without white space
/// around them; a line without a colon is none.
pub proof fn headers_have_names(name: Seq<char>, value: Seq<char>)
    requires
        is_host(name),
        value.len() > 0 ==> !is_white(value[0]) && !is_white(value.last()),
    ensures
        header_of(name + ":"@ + value) == seq![(name, value)],
        header_of(name).len() == 0,
{
    reveal_strlit(":");
    let line = name + ":"@ + value;
    let n = name.len() as int;
    assert forall|i: int| 0 <= i < n implies line[i] != ':' by {
        assert(line[i] == name[i]);
    }
    assert(line[n] == ':');
    char_position_from_is(line, ':', 0, n);
    assert(line.take(n) =~= name);
    assert(line.skip(n + 1) =~= value);
    assert(!is_white(name[0]) && !is_white(name[n - 1]));
    trimmed_of_solid(name);
    trimmed_of_solid(value);
    char_position_from_is_first(name, ':', 0);
    assert(char_position(name, ':') is None) by {
        if char_position(name, ':') is Some {
            assert(name[char_position(name, ':')->0] == ':');
        }
    }
}

} // verus!

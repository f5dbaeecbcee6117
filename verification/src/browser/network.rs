//! What `curl` says of a page.
use crate::daemon::stream::{decode_lossy, utf8_lossy};
use crate::text::chars::{
    char_position, chars_of, find_char, opt_text, parts, split_char, string_of, strip_prefix, trim,
    trimmed, views, without_prefix,
};
use crate::text::lines::{line_list, split_lines};
use crate::text::numbers::{number, parse_decimal};
use vstd::prelude::*;
use vstd::slice::slice_subrange;

verus! {

/// A header of an answer.
#[derive(Debug)]
pub struct Header {
    pub name: String,
    pub value: String,
}

/// What `curl` reports of an answer.
#[derive(Debug)]
pub struct CurlNetworkMeta {
    pub status: Option<u16>,
    pub effective_url: Option<String>,
    pub content_type: Option<String>,
    pub bytes: Option<u64>,
    /// The seconds that it took, as they are written.
    pub time_total: Option<String>,
    pub redirects: Option<u64>,
}

/// What a report says.
#[verifier::ext_equal]
pub struct MetaView {
    pub status: Option<int>,
    pub effective_url: Option<Seq<char>>,
    pub content_type: Option<Seq<char>>,
    pub bytes: Option<int>,
    pub time_total: Option<Seq<char>>,
    pub redirects: Option<int>,
}

impl View for CurlNetworkMeta {
    type V = MetaView;

    open spec fn view(&self) -> MetaView {
        MetaView {
            status: match self.status {
                Some(n) => Some(n as int),
                None => None,
            },
            effective_url: opt_text(self.effective_url),
            content_type: opt_text(self.content_type),
            bytes: match self.bytes {
                Some(n) => Some(n as int),
                None => None,
            },
            time_total: opt_text(self.time_total),
            redirects: match self.redirects {
                Some(n) => Some(n as int),
                None => None,
            },
        }
    }
}

/// What headers say.
pub open spec fn header_views(v: Seq<Header>) -> Seq<(Seq<char>, Seq<char>)> {
    Seq::new(v.len(), |i: int| (v[i].name@, v[i].value@))
}

/// The part with the number, where there is one.
pub open spec fn part(list: Seq<Seq<char>>, n: int) -> Option<Seq<char>> {
    if n < list.len() {
        Some(list[n])
    } else {
        None
    }
}

/// The number that a part writes down.
pub open spec fn part_number(list: Seq<Seq<char>>, n: int, max: int) -> Option<int> {
    match part(list, n) {
        Some(s) => number(s, 10, max),
        None => None,
    }
}

/// The part with the number, where it is not empty.
pub open spec fn part_text(list: Seq<Seq<char>>, n: int) -> Option<Seq<char>> {
    match part(list, n) {
        Some(s) => if s.len() == 0 {
            None
        } else {
            Some(s)
        },
        None => None,
    }
}

/// What the line of the report says, behind its mark.
pub open spec fn meta_of(rest: Seq<char>) -> MetaView {
    let list = parts(rest, '\t');
    MetaView {
        status: part_number(list, 0, u16::MAX as int),
        effective_url: part_text(list, 1),
        content_type: part_text(list, 2),
        bytes: part_number(list, 3, u64::MAX as int),
        time_total: part(list, 4),
        redirects: part_number(list, 5, u64::MAX as int),
    }
}

/// Nothing reported.
pub open spec fn no_meta() -> MetaView {
    MetaView {
        status: None,
        effective_url: None,
        content_type: None,
        bytes: None,
        time_total: None,
        redirects: None,
    }
}

/// The last report among the lines.
pub open spec fn meta_in(lines: Seq<Seq<char>>) -> MetaView
    decreases lines.len(),
{
    if lines.len() == 0 {
        no_meta()
    } else {
        match without_prefix(lines.last(), "VMUX_CURL_META\t"@) {
            Some(rest) => meta_of(rest),
            None => meta_in(lines.drop_last()),
        }
    }
}

/// The header that a line is: a name, a colon and a value.
pub open spec fn header_of(line: Seq<char>) -> Seq<(Seq<char>, Seq<char>)> {
    match char_position(line, ':') {
        Some(i) => {
            let name = trimmed(line.take(i));
            if name.len() == 0 {
                Seq::empty()
            } else {
                seq![(name, trimmed(line.skip(i + 1)))]
            }
        },
        None => Seq::empty(),
    }
}

/// The headers among the lines, in order.
pub open spec fn headers_in(lines: Seq<Seq<char>>) -> Seq<(Seq<char>, Seq<char>)>
    decreases lines.len(),
{
    if lines.len() == 0 {
        Seq::empty()
    } else if without_prefix(lines.last(), "VMUX_CURL_META\t"@) is Some {
        headers_in(lines.drop_last())
    } else {
        headers_in(lines.drop_last()) + header_of(lines.last())
    }
}

fn read_number(list: &Vec<&[char]>, n: usize, max: u64) -> (r: Option<u64>)
    ensures
        r matches Some(v) ==> part_number(views(list@), n as int, max as int) == Some(v as int) && v
            <= max,
        r is None ==> part_number(views(list@), n as int, max as int) is None,
{
    if n < list.len() {
        assert(views(list@)[n as int] == list@[n as int]@);
        parse_decimal(list[n], max)
    } else {
        None
    }
}

fn read_part(list: &Vec<&[char]>, n: usize) -> (r: Option<String>)
    ensures
        opt_text(r) == part(views(list@), n as int),
{
    if n < list.len() {
        assert(views(list@)[n as int] == list@[n as int]@);
        Some(string_of(list[n]))
    } else {
        None
    }
}

fn read_filled(list: &Vec<&[char]>, n: usize) -> (r: Option<String>)
    ensures
        opt_text(r) == part_text(views(list@), n as int),
{
    if n < list.len() && list[n].len() > 0 {
        assert(views(list@)[n as int] == list@[n as int]@);
        Some(string_of(list[n]))
    } else {
        proof {
            if n < list.len() {
                assert(views(list@)[n as int] == list@[n as int]@);
            }
        }
        None
    }
}

fn read_meta(rest: &[char]) -> (r: CurlNetworkMeta)
    ensures
        r@ == meta_of(rest@),
{
    let list = split_char(rest, '\t');
    let status = match read_number(&list, 0, u16::MAX as u64) {
        Some(n) => Some(n as u16),
        None => None,
    };
    let meta = CurlNetworkMeta {
        status,
        effective_url: read_filled(&list, 1),
        content_type: read_filled(&list, 2),
        bytes: read_number(&list, 3, u64::MAX),
        time_total: read_part(&list, 4),
        redirects: read_number(&list, 5, u64::MAX),
    };
    assert(meta@ =~= meta_of(rest@));
    meta
}

/// Reads the headers and the report of an answer.
pub fn parse_curl_network_output(output: &str) -> (r: (Vec<Header>, CurlNetworkMeta))
    ensures
        header_views(r.0@) == headers_in(line_list(output@)),
        r.1@ == meta_in(line_list(output@)),
{
    let chars = chars_of(output);
    let lines = split_lines(chars.as_slice());
    let ghost all = line_list(output@);
    assert(all == views(lines@));
    let mut headers: Vec<Header> = Vec::new();
    let mut meta = CurlNetworkMeta {
        status: None,
        effective_url: None,
        content_type: None,
        bytes: None,
        time_total: None,
        redirects: None,
    };
    assert(header_views(headers@) =~= Seq::empty());
    assert(meta@ =~= no_meta());
    let mut i: usize = 0;
    while i < lines.len()
        invariant
            i <= lines.len(),
            all == views(lines@),
            header_views(headers@) == headers_in(all.take(i as int)),
            meta@ == meta_in(all.take(i as int)),
        decreases lines.len() - i,
    {
        let line = lines[i];
        assert(all.take(i + 1).drop_last() =~= all.take(i as int));
        assert(all.take(i + 1).last() == line@);
        i += 1;
        match strip_prefix(line, "VMUX_CURL_META\t") {
            Some(rest) => {
                meta = read_meta(rest);
            },
            None => {
                let ghost before = headers@;
                if let Some(at) = find_char(line, ':') {
                    let name = slice_subrange(line, 0, at);
                    let value = slice_subrange(line, at + 1, line.len());
                    assert(name@ =~= line@.take(at as int));
                    assert(value@ =~= line@.skip(at + 1));
                    let name = trim(name);
                    if name.len() > 0 {
                        let header = Header { name: string_of(name), value: string_of(trim(value)) };
                        headers.push(header);
                        assert(header_views(headers@) =~= header_views(before) + header_of(line@));
                    }
                }
                assert(header_views(headers@) =~= header_views(before) + header_of(line@));
            },
        }
    }
    assert(all.take(i as int) =~= all);
    (headers, meta)
}

/// The most bytes of a page that are read.
pub const FETCH_BODY_CAP: usize = 2097152;

/// Why a page could not be had.
#[derive(Debug)]
pub enum FetchError {
    /// What `curl` said.
    Failed(String),
    /// The page has so many bytes.
    TooLarge(usize),
}

/// What `curl` said of its failure.
pub open spec fn failure_text(stderr: Seq<u8>) -> Seq<char> {
    let said = trimmed(utf8_lossy(stderr));
    if said.len() == 0 {
        "curl failed"@
    } else {
        said
    }
}

fn read_failure(stderr: &Vec<u8>) -> (r: String)
    ensures
        r@ == failure_text(stderr@),
{
    let said = decode_lossy(stderr.as_slice());
    let said = crate::text::chars::trim_text(said.as_str());
    if said.as_str().is_empty() {
        "curl failed".to_string()
    } else {
        said
    }
}

/// The page that `curl` brought.
pub fn fetched_body(success: bool, stdout: &Vec<u8>, stderr: &Vec<u8>) -> (r: Result<
    String,
    FetchError,
>)
    ensures
        if !success {
            r matches Err(FetchError::Failed(m)) && m@ == failure_text(stderr@)
        } else if stdout@.len() > FETCH_BODY_CAP {
            r matches Err(FetchError::TooLarge(n)) && n == stdout@.len()
        } else {
            r matches Ok(body) && body@ == utf8_lossy(stdout@)
        },
{
    if !success {
        return Err(FetchError::Failed(read_failure(stderr)));
    }
    if stdout.len() > FETCH_BODY_CAP {
        return Err(FetchError::TooLarge(stdout.len()));
    }
    Ok(decode_lossy(stdout.as_slice()))
}

/// The headers and the report that `curl` brought.
pub fn fetched_network(success: bool, stdout: &Vec<u8>, stderr: &Vec<u8>) -> (r: Result<
    (Vec<Header>, CurlNetworkMeta),
    String,
>)
    ensures
        if !success {
            r matches Err(m) && m@ == failure_text(stderr@)
        } else {
            r matches Ok(answer) && header_views(answer.0@) == headers_in(
                line_list(utf8_lossy(stdout@)),
            ) && answer.1@ == meta_in(line_list(utf8_lossy(stdout@)))
        },
{
    if !success {
        return Err(read_failure(stderr));
    }
    let text = decode_lossy(stdout.as_slice());
    Ok(parse_curl_network_output(text.as_str()))
}

} // verus!

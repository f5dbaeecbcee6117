//! Lines of a text.
use crate::text::chars::{char_position, char_position_shift, find_char_from, views};
use vstd::prelude::*;
use vstd::slice::slice_subrange;

verus! {

/// A line without the carriage return that stood before its line feed.
pub open spec fn without_return(s: Seq<char>) -> Seq<char> {
    if s.len() > 0 && s.last() == '\r' {
        s.drop_last()
    } else {
        s
    }
}

/// The lines of `s`. A line ends at a line feed, or at a carriage return and a
/// line feed, which are not part of it; what follows the last line feed is a line
/// where it is not empty.
pub open spec fn line_list(s: Seq<char>) -> Seq<Seq<char>>
    decreases s.len(),
{
    if s.len() == 0 {
        Seq::empty()
    } else {
        match char_position(s, '\n') {
            Some(p) => if 0 <= p < s.len() {
                seq![without_return(s.take(p))] + line_list(s.skip(p + 1))
            } else {
                seq![s]
            },
            None => seq![s],
        }
    }
}

/// The lines of `s`.
pub fn split_lines<'a>(s: &'a [char]) -> (r: Vec<&'a [char]>)
    ensures
        views(r@) == line_list(s@),
{
    let mut out: Vec<&'a [char]> = Vec::new();
    let mut start: usize = 0;
    assert(s@.skip(0) =~= s@);
    assert(views(out@) + line_list(s@) =~= line_list(s@));
    while start < s.len()
        invariant
            start <= s.len(),
            views(out@) + line_list(s@.skip(start as int)) == line_list(s@),
        decreases s.len() - start,
    {
        proof {
            char_position_shift(s@, '\n', start as int, start as int);
        }
        let ghost before = out@;
        let ghost rest = s@.skip(start as int);
        match find_char_from(s, '\n', start) {
            Some(p) => {
                let end: usize = if p > start && s[p - 1] == '\r' {
                    p - 1
                } else {
                    p
                };
                let piece = slice_subrange(s, start, end);
                out.push(piece);
                proof {
                    assert(piece@ =~= without_return(rest.take(p - start)));
                    assert(rest.skip(p - start + 1) =~= s@.skip(p + 1));
                    assert(views(out@) =~= views(before).push(piece@));
                    assert(views(out@) + line_list(s@.skip(p + 1)) =~= views(before) + (seq![
                        piece@,
                    ] + line_list(s@.skip(p + 1))));
                }
                start = p + 1;
            },
            None => {
                let piece = slice_subrange(s, start, s.len());
                out.push(piece);
                proof {
                    assert(piece@ =~= rest);
                    assert(views(out@) =~= views(before).push(piece@));
                    assert(views(out@) =~= views(before) + seq![piece@]);
                }
                return out;
            },
        }
    }
    proof {
        assert(s@.skip(start as int) =~= Seq::empty());
        assert(views(out@) + line_list(s@.skip(start as int)) =~= views(out@));
    }
    out
}

/// How many line feeds a text has.
pub open spec fn feeds(text: Seq<char>) -> nat
    decreases text.len(),
{
    if text.len() == 0 {
        0
    } else {
        feeds(text.drop_first()) + if text[0] == '\n' {
            1nat
        } else {
            0nat
        }
    }
}

/// How many line feeds bytes have.
pub open spec fn newline_count(bytes: Seq<u8>) -> nat
    decreases bytes.len(),
{
    if bytes.len() == 0 {
        0
    } else {
        newline_count(bytes.drop_last()) + if bytes.last() == 10 {
            1nat
        } else {
            0nat
        }
    }
}

} // verus!

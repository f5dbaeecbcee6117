//! The last lines of a log, which is read from its end in parts.
use crate::cli::texts::{
    a_line_for_each_feed, bytecount_newlines, last_of, lines_add_up, next_tail_start, tail_of,
    tail_text_lines, TAIL_CHUNK,
};
use crate::daemon::stream::{decode_lossy, utf8_lossy};
use crate::text::lines::{feeds, line_list, newline_count};
use vstd::prelude::*;

verus! {

/// What has been read of a log.
#[derive(Debug)]
pub struct LogEnd {
    /// Where it begins in the log.
    pub pos: u64,
    /// How many line feeds it has.
    pub found: usize,
    pub read: Vec<u8>,
}

/// Where the first line feed stands, or how many bytes there are.
pub open spec fn first_feed(bytes: Seq<u8>) -> int
    decreases bytes.len(),
{
    if bytes.len() == 0 || bytes[0] == 10 {
        0
    } else {
        1 + first_feed(bytes.drop_first())
    }
}

impl LogEnd {
    /// It is the end of the log.
    pub open spec fn ends(self, log: Seq<u8>) -> bool {
        &&& self.pos <= log.len()
        &&& self.read@ == log.skip(self.pos as int)
        &&& self.found == newline_count(self.read@)
    }

    /// Enough has been read for so many lines.
    pub open spec fn suffices(self, lines: usize) -> bool {
        self.pos == 0 || self.found > lines
    }

    /// What the lines are taken from: all that was read, or else, where the first line may be
    /// cut, what stands behind it.
    pub open spec fn whole_lines(self) -> Seq<u8> {
        if self.pos == 0 || first_feed(self.read@) >= self.read@.len() {
            self.read@
        } else {
            self.read@.skip(first_feed(self.read@) + 1)
        }
    }
}

/// The first line feed is one, and none stands before it.
proof fn first_feed_is_first(bytes: Seq<u8>)
    ensures
        0 <= first_feed(bytes) <= bytes.len(),
        first_feed(bytes) < bytes.len() ==> bytes[first_feed(bytes)] == 10,
        newline_count(bytes.take(first_feed(bytes))) == 0,
        first_feed(bytes) == bytes.len() ==> newline_count(bytes) == 0,
    decreases bytes.len(),
{
    let p = first_feed(bytes);
    if bytes.len() > 0 && bytes[0] != 10 {
        first_feed_is_first(bytes.drop_first());
        let one = bytes.take(1);
        assert(one.drop_last() =~= Seq::empty());
        assert(newline_count(one.drop_last()) == 0);
        counts_add_up(one, bytes.drop_first().take(p - 1));
        assert(one + bytes.drop_first().take(p - 1) =~= bytes.take(p));
        if p == bytes.len() {
            assert(bytes.take(p) =~= bytes);
        }
    } else {
        assert(bytes.take(0) =~= Seq::empty());
    }
}

/// Two byte strings have the line feeds of both.
proof fn counts_add_up(a: Seq<u8>, b: Seq<u8>)
    ensures
        newline_count(a + b) == newline_count(a) + newline_count(b),
    decreases b.len(),
{
    if b.len() == 0 {
        assert(a + b =~= a);
    } else {
        counts_add_up(a, b.drop_last());
        assert((a + b).drop_last() =~= a + b.drop_last());
    }
}

/// What stands before its whole lines makes no difference to the last lines of a log.
proof fn whole_lines_suffice(end: LogEnd, log: Seq<u8>, text: Seq<char>, lines: usize)
    requires
        end.ends(log),
        end.pos > 0,
        end.found > lines,
        feeds(text) == newline_count(end.whole_lines()),
        forall|before: Seq<u8>| #[trigger]
            utf8_lossy(before.push(10) + end.whole_lines()) == utf8_lossy(before).push('\n') + text,
    ensures
        tail_of(utf8_lossy(log), lines as int) == tail_of(text, lines as int),
{
    let rest = end.read@;
    first_feed_is_first(rest);
    let p = first_feed(rest);
    let kept = end.whole_lines();
    let before = log.take(end.pos + p);
    assert(log =~= before.push(10) + kept);
    let u = utf8_lossy(before).push('\n');
    let head = rest.take(p + 1);
    assert(head.drop_last() =~= rest.take(p));
    counts_add_up(head, kept);
    assert(head + kept =~= rest);
    a_line_for_each_feed(text);
    lines_add_up(u, text);
    assert(last_of(line_list(u + text), lines as int) =~= last_of(line_list(text), lines as int));
    if lines > 0 {
        assert(text.len() > 0) by {
            if text.len() == 0 {
                assert(feeds(text) == 0);
            }
        }
        assert((u + text).last() == text.last());
    }
}

/// Nothing has been read of a log of so many bytes.
pub fn log_end(len: u64) -> (r: LogEnd)
    ensures
        r.pos == len,
        forall|log: Seq<u8>| #[trigger] log.len() == len ==> #[trigger] r.ends(log),
{
    let r = LogEnd { pos: len, found: 0, read: Vec::new() };
    assert forall|log: Seq<u8>| #[trigger] log.len() == len implies #[trigger] r.ends(log) by {
        assert(r.read@ =~= log.skip(len as int));
    }
    r
}

impl LogEnd {
    /// Where the next part to be read begins; none where enough has been read for the lines.
    pub fn next_start(&self, lines: usize) -> (r: Option<u64>)
        ensures
            r is None <==> self.suffices(lines),
            r matches Some(start) ==> start < self.pos && start == if self.pos
                > TAIL_CHUNK {
                (self.pos - TAIL_CHUNK) as u64
            } else {
                0
            },
    {
        next_tail_start(self.pos, self.found, lines)
    }

    /// Puts the part of the log that begins at `start` before what has been read.
    pub fn put_before(&mut self, start: u64, part: Vec<u8>)
        requires
            start <= old(self).pos,
            old(self).found <= old(self).read@.len(),
            old(self).read@.len() + part@.len() <= usize::MAX,
        ensures
            final(self).pos == start,
            final(self).read@ == part@ + old(self).read@,
            final(self).found == old(self).found + newline_count(part@),
            final(self).found <= final(self).read@.len(),
            forall|log: Seq<u8>| #[trigger]
                old(self).ends(log) && part@ == log.subrange(start as int, old(self).pos as int)
                    ==> final(self).ends(log),
    {
        let ghost before = *self;
        let ghost added = part@;
        let n = bytecount_newlines(part.as_slice());
        let mut all = part;
        all.append(&mut self.read);
        self.read = all;
        self.found = self.found + n;
        self.pos = start;
        assert forall|log: Seq<u8>| #[trigger]
            before.ends(log) && added == log.subrange(start as int, before.pos as int) implies self.ends(
            log,
        ) by {
            counts_add_up(added, before.read@);
            assert(self.read@ =~= log.skip(start as int));
        }
    }

    /// The last lines of the log. However it was read, they are those of its whole text.
    pub fn last_lines(&self, lines: usize) -> (r: String)
        ensures
            r@ == tail_of(utf8_lossy(self.whole_lines()), lines as int),
            forall|log: Seq<u8>| #[trigger]
                self.ends(log) && self.suffices(lines) ==> r@ == tail_of(
                    utf8_lossy(log),
                    lines as int,
                ),
    {
        let mut i: usize = 0;
        proof {
            first_feed_is_first(self.read@);
            assert(self.read@.skip(0) =~= self.read@);
        }
        while i < self.read.len() && self.read[i] != 10
            invariant
                i <= self.read.len(),
                first_feed(self.read@) == i + first_feed(self.read@.skip(i as int)),
            decreases self.read.len() - i,
        {
            assert(self.read@.skip(i as int).drop_first() =~= self.read@.skip(i + 1));
            i += 1;
        }
        assert(i == first_feed(self.read@));
        let from: usize = if self.pos == 0 || i >= self.read.len() {
            0
        } else {
            i + 1
        };
        let part = vstd::slice::slice_subrange(self.read.as_slice(), from, self.read.len());
        assert(part@ =~= self.whole_lines());
        let text = decode_lossy(part);
        let r = tail_text_lines(text.as_str(), lines);
        assert forall|log: Seq<u8>| #[trigger]
            self.ends(log) && self.suffices(lines) implies r@ == tail_of(
            utf8_lossy(log),
            lines as int,
        ) by {
            if self.pos == 0 {
                assert(self.read@ =~= log);
            } else {
                whole_lines_suffice(*self, log, text@, lines);
            }
        }
        r
    }
}

} // verus!

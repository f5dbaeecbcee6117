//! Operating system commands in a pane's output: notifications, window titles and
//! progress reports.
use crate::text::chars::{
    append_chars, at, begins, char_position_from, char_position_from_is,
    char_position_from_is_first, char_position_shift, chars_of, copy_chars, filled,
    find_char_from, find_from, is_numeric, is_text, keep_filled, lower, lowered, numeric, opt_text,
    parts, position_from, position_from_is, position_from_is_first,
    position_from_later, position_in_longer, position_shift, split_char, stands_at, starts_with, string_of,
    strip_prefix, texts, trim, trimmed, views, without_prefix,
};
use crate::text::numbers::{number, parse_decimal};
use crate::text::utf8::{byte_len, bytes_in};
use vstd::prelude::*;
use vstd::slice::slice_subrange;

verus! {

/// What the sequences of one read ask for.
pub struct OscEvents {
    /// Desktop notifications.
    pub notifications: Vec<String>,
    /// The window title that was set last.
    pub title: Option<String>,
    /// The progress that was reported last: `Some(None)` removes the bar.
    pub progress: Option<Option<u8>>,
}

/// Where the sequence whose payload starts at `after` ends: at the first bell or string
/// terminator.
pub open spec fn osc_end(s: Seq<char>, after: int) -> Option<int> {
    match (char_position_from(s, '\u{7}', after), position_from(s, "\u{1b}\\"@, after)) {
        (Some(bell), Some(st)) => Some(if bell <= st {
            bell
        } else {
            st
        }),
        (Some(bell), None) => Some(bell),
        (None, Some(st)) => Some(st),
        (None, None) => None,
    }
}

/// Where the text after a terminated sequence begins.
pub open spec fn osc_next(s: Seq<char>, after: int, end: int) -> int {
    if position_from(s, "\u{1b}\\"@, after) == Some(end) {
        end + 2
    } else {
        end + 1
    }
}

/// The payloads of the terminated sequences of `s` from `from` on.
pub open spec fn osc_payloads(s: Seq<char>, from: int) -> Seq<Seq<char>>
    decreases s.len() + 1 - from,
    when 0 <= from
    via osc_payloads_decreases
{
    match position_from(s, "\u{1b}]"@, from) {
        None => Seq::empty(),
        Some(start) => match osc_end(s, start + 2) {
            None => Seq::empty(),
            Some(end) => seq![s.subrange(start + 2, end)] + osc_payloads(
                s,
                osc_next(s, start + 2, end),
            ),
        },
    }
}

#[via_fn]
proof fn osc_payloads_decreases(s: Seq<char>, from: int) {
    osc_step_bounds(s, from);
}

/// Where the text that has to be kept begins: at a sequence that is not terminated, or
/// at the end.
pub open spec fn osc_open(s: Seq<char>, from: int) -> int
    decreases s.len() + 1 - from,
    when 0 <= from
    via osc_open_decreases
{
    match position_from(s, "\u{1b}]"@, from) {
        None => s.len() as int,
        Some(start) => match osc_end(s, start + 2) {
            None => start,
            Some(end) => osc_open(s, osc_next(s, start + 2, end)),
        },
    }
}

#[via_fn]
proof fn osc_open_decreases(s: Seq<char>, from: int) {
    osc_step_bounds(s, from);
}

/// A terminated sequence lies within the text.
pub proof fn osc_step_bounds(s: Seq<char>, from: int)
    requires
        0 <= from,
    ensures
        position_from(s, "\u{1b}]"@, from) matches Some(start) ==> from <= start && start + 2
            <= s.len() && (osc_end(s, start + 2) matches Some(end) ==> start + 2 <= end < osc_next(
            s,
            start + 2,
            end,
        ) <= s.len()),
{
    reveal_strlit("\u{1b}]");
    reveal_strlit("\u{1b}\\");
    position_from_is_first(s, "\u{1b}]"@, from);
    match position_from(s, "\u{1b}]"@, from) {
        Some(start) => {
            char_position_from_is_first(s, '\u{7}', start + 2);
            position_from_is_first(s, "\u{1b}\\"@, start + 2);
        },
        None => {},
    }
}

/// What is kept begins within the text.
pub proof fn osc_open_bounds(s: Seq<char>, from: int)
    requires
        0 <= from,
    ensures
        0 <= osc_open(s, from) <= s.len(),
    decreases s.len() + 1 - from,
{
    osc_step_bounds(s, from);
    match position_from(s, "\u{1b}]"@, from) {
        Some(start) => match osc_end(s, start + 2) {
            Some(end) => osc_open_bounds(s, osc_next(s, start + 2, end)),
            None => {},
        },
        None => {},
    }
}

/// The progress that a payload reports: a bar that is removed, or a percentage.
pub open spec fn osc_progress(payload: Seq<char>) -> Option<Option<int>> {
    match without_prefix(payload, "9;4"@) {
        None => None,
        Some(rest) => {
            let body = trimmed(
                match without_prefix(rest, ";"@) {
                    Some(t) => t,
                    None => rest,
                },
            );
            let fields = filled(parts(body, ';'));
            if body.len() == 0 {
                Some(None)
            } else if fields.len() == 0 {
                None
            } else if fields[0] == "1"@ {
                Some(Some(if fields.len() > 1 {
                    percentage(fields[1])
                } else {
                    0
                }))
            } else if fields[0] == "0"@ || fields[0] == "2"@ || fields[0] == "3"@ || fields[0]
                == "4"@ {
                Some(None)
            } else {
                None
            }
        },
    }
}

/// A number of at most sixteen bits, at most a hundred; nought for anything else.
pub open spec fn percentage(field: Seq<char>) -> int {
    match number(field, 10, 65535) {
        Some(n) => if n <= 100 {
            n
        } else {
            100
        },
        None => 0,
    }
}

/// The message that the fields of a notification make up.
pub open spec fn notification_text(payload: Seq<char>) -> Option<Seq<char>> {
    let all = filled(parts(payload, ';'));
    let fields = if all.len() > 0 && (lowered(all[0]) == "notify"@ || lowered(all[0])
        == "notification"@) {
        all.skip(1)
    } else {
        all
    };
    if fields.len() == 0 {
        None
    } else if fields.len() == 1 {
        if is_numeric(fields[0]) {
            None
        } else {
            Some(fields[0])
        }
    } else if is_numeric(fields[0]) && is_numeric(fields[1]) {
        None
    } else {
        Some(fields[0] + ": "@ + fields[1])
    }
}

/// The notification that a payload carries.
pub open spec fn osc_message(payload: Seq<char>) -> Option<Seq<char>> {
    if begins(payload, "9;4"@) {
        None
    } else if begins(payload, "9;"@) {
        notification_text(payload.skip("9;"@.len() as int))
    } else if begins(payload, "99;"@) {
        notification_text(payload.skip("99;"@.len() as int))
    } else if begins(payload, "777;"@) {
        notification_text(payload.skip("777;"@.len() as int))
    } else {
        None
    }
}

/// The window title that a payload sets, at most 256 characters of it.
pub open spec fn osc_title_text(payload: Seq<char>) -> Option<Seq<char>> {
    let rest = match without_prefix(payload, "0;"@) {
        Some(t) => Some(t),
        None => without_prefix(payload, "2;"@),
    };
    match rest {
        None => None,
        Some(t) => if trimmed(t).len() == 0 {
            None
        } else if trimmed(t).len() <= 256 {
            Some(trimmed(t))
        } else {
            Some(trimmed(t).take(256))
        },
    }
}

/// The notifications among `payloads`, in order.
pub open spec fn messages_of(payloads: Seq<Seq<char>>) -> Seq<Seq<char>>
    decreases payloads.len(),
{
    if payloads.len() == 0 {
        Seq::empty()
    } else {
        let before = messages_of(payloads.drop_last());
        match osc_message(payloads.last()) {
            Some(m) => before.push(m),
            None => before,
        }
    }
}

/// The last title among `payloads`. A payload that is progress or a notification sets
/// none.
pub open spec fn title_of(payloads: Seq<Seq<char>>) -> Option<Seq<char>>
    decreases payloads.len(),
{
    if payloads.len() == 0 {
        None
    } else if osc_progress(payloads.last()) is None && osc_message(payloads.last()) is None
        && osc_title_text(payloads.last()) is Some {
        osc_title_text(payloads.last())
    } else {
        title_of(payloads.drop_last())
    }
}

/// The last progress report among `payloads`.
pub open spec fn progress_of(payloads: Seq<Seq<char>>) -> Option<Option<int>>
    decreases payloads.len(),
{
    if payloads.len() == 0 {
        None
    } else if osc_progress(payloads.last()) is Some {
        osc_progress(payloads.last())
    } else {
        progress_of(payloads.drop_last())
    }
}

/// A progress value as a number.
pub open spec fn progress_value(p: Option<Option<u8>>) -> Option<Option<int>> {
    match p {
        Some(Some(n)) => Some(Some(n as int)),
        Some(None) => Some(None),
        None => None,
    }
}

/// The events say what the payloads ask for.
pub open spec fn events_of(events: OscEvents, payloads: Seq<Seq<char>>) -> bool {
    &&& texts(events.notifications@) == messages_of(payloads)
    &&& opt_text(events.title) == title_of(payloads)
    &&& progress_value(events.progress) == progress_of(payloads)
}

/// Progress that a payload reports, if it does: `Some(None)` removes the bar.
pub fn osc_progress_update(payload: &str) -> (r: Option<Option<u8>>)
    ensures
        progress_value(r) == osc_progress(payload@),
{
    let chars = chars_of(payload);
    progress_update(chars.as_slice())
}

fn progress_update(payload: &[char]) -> (r: Option<Option<u8>>)
    ensures
        progress_value(r) == osc_progress(payload@),
{
    let rest = match strip_prefix(payload, "9;4") {
        Some(t) => t,
        None => {
            return None;
        },
    };
    let body = trim(
        match strip_prefix(rest, ";") {
            Some(t) => t,
            None => rest,
        },
    );
    if body.len() == 0 {
        return Some(None);
    }
    let all = split_char(body, ';');
    let fields = keep_filled(&all);
    let ghost named = filled(parts(body@, ';'));
    assert(views(fields@) == named);
    if fields.len() == 0 {
        return None;
    }
    assert(fields@[0]@ == named[0]);
    if is_text(fields[0], "1") {
        if fields.len() > 1 {
            assert(fields@[1]@ == named[1]);
            return Some(
                Some(
                    match parse_decimal(fields[1], 65535) {
                        Some(n) => if n <= 100 {
                            n as u8
                        } else {
                            100
                        },
                        None => 0,
                    },
                ),
            );
        }
        return Some(Some(0));
    }
    if is_text(fields[0], "0") || is_text(fields[0], "2") || is_text(fields[0], "3") || is_text(
        fields[0],
        "4",
    ) {
        Some(None)
    } else {
        None
    }
}

/// The message of a notification.
pub fn format_osc_notification(payload: &str) -> (r: Option<String>)
    ensures
        opt_text(r) == notification_text(payload@),
{
    let chars = chars_of(payload);
    format_notification(chars.as_slice())
}

fn format_notification(payload: &[char]) -> (r: Option<String>)
    ensures
        opt_text(r) == notification_text(payload@),
{
    let all = split_char(payload, ';');
    let kept = keep_filled(&all);
    let ghost named = filled(parts(payload@, ';'));
    assert(views(kept@) == named);
    let mut first: usize = 0;
    if kept.len() > 0 {
        assert(kept@[0]@ == named[0]);
        let kind = lower(kept[0]);
        if is_text(kind.as_slice(), "notify") || is_text(kind.as_slice(), "notification") {
            first = 1;
        }
    }
    let n: usize = kept.len() - first;
    if n == 0 {
        return None;
    }
    let title = kept[first];
    assert(title@ == named[first as int]);
    if n == 1 {
        return if numeric(title) {
            None
        } else {
            Some(string_of(title))
        };
    }
    let body = kept[first + 1];
    assert(body@ == named[first + 1]);
    if numeric(title) && numeric(body) {
        None
    } else {
        let mut out = copy_chars(title);
        let sep = chars_of(": ");
        append_chars(&mut out, sep.as_slice());
        append_chars(&mut out, body);
        Some(string_of(out.as_slice()))
    }
}

/// The notification that a payload carries.
pub fn osc_notification_message(payload: &str) -> (r: Option<String>)
    ensures
        opt_text(r) == osc_message(payload@),
{
    let chars = chars_of(payload);
    notification_message(chars.as_slice())
}

fn notification_message(payload: &[char]) -> (r: Option<String>)
    ensures
        opt_text(r) == osc_message(payload@),
{
    if starts_with(payload, "9;4") {
        return None;
    }
    if let Some(rest) = strip_prefix(payload, "9;") {
        return format_notification(rest);
    }
    if let Some(rest) = strip_prefix(payload, "99;") {
        return format_notification(rest);
    }
    if let Some(rest) = strip_prefix(payload, "777;") {
        return format_notification(rest);
    }
    None
}

/// The window title that a payload sets.
pub fn osc_window_title(payload: &str) -> (r: Option<String>)
    ensures
        opt_text(r) == osc_title_text(payload@),
{
    let chars = chars_of(payload);
    window_title(chars.as_slice())
}

fn window_title(payload: &[char]) -> (r: Option<String>)
    ensures
        opt_text(r) == osc_title_text(payload@),
{
    let rest = match strip_prefix(payload, "0;") {
        Some(t) => t,
        None => match strip_prefix(payload, "2;") {
            Some(t) => t,
            None => {
                return None;
            },
        },
    };
    let title = trim(rest);
    if title.len() == 0 {
        None
    } else if title.len() <= 256 {
        Some(string_of(title))
    } else {
        assert(title@.subrange(0, 256) =~= title@.take(256));
        Some(string_of(slice_subrange(title, 0, 256)))
    }
}

/// One payload more.
fn note_payload(events: &mut OscEvents, payload: &[char], Ghost(before): Ghost<Seq<Seq<char>>>)
    requires
        events_of(*old(events), before),
    ensures
        events_of(*final(events), before.push(payload@)),
{
    let ghost all = before.push(payload@);
    assert(all.drop_last() =~= before);
    match progress_update(payload) {
        Some(progress) => {
            proof {
                progress_is_no_message(payload@);
            }
            events.progress = Some(progress);
        },
        None => match notification_message(payload) {
            Some(message) => {
                let ghost had = events.notifications@;
                events.notifications.push(message);
                assert(texts(events.notifications@) =~= texts(had).push(message@));
            },
            None => match window_title(payload) {
                Some(title) => {
                    events.title = Some(title);
                },
                None => {},
            },
        },
    }
}

/// A progress report is no notification.
pub proof fn progress_is_no_message(payload: Seq<char>)
    requires
        osc_progress(payload) is Some,
    ensures
        osc_message(payload) is None,
{
}

/// Reads the sequences of `buf`. Returns what they ask for, and the byte offset from
/// which `buf` has to be kept for a later read.
pub fn scan_osc_events(buf: &str) -> (r: (OscEvents, usize))
    ensures
        events_of(r.0, osc_payloads(buf@, 0)),
        r.1 == byte_len(buf@.take(osc_open(buf@, 0))),
{
    let (events, kept) = scan_sequences(buf);
    (events, bytes_before(buf, kept))
}

/// Reads the sequences of what was kept and cuts it down to what is still unterminated.
pub fn take_osc_events(tail: &mut String) -> (r: OscEvents)
    ensures
        events_of(r, osc_payloads(old(tail)@, 0)),
        final(tail)@ == old(tail)@.skip(osc_open(old(tail)@, 0)),
{
    let (events, kept) = scan_sequences(tail.as_str());
    let n = tail.as_str().unicode_len();
    let rest = tail.as_str().substring_char(kept, n).to_string();
    assert(rest@ =~= tail@.skip(kept as int));
    *tail = rest;
    events
}

/// Reads the sequences of `buf`. Returns what they ask for, and the number of characters that
/// are done with.
fn scan_sequences(buf: &str) -> (r: (OscEvents, usize))
    ensures
        events_of(r.0, osc_payloads(buf@, 0)),
        r.1 == osc_open(buf@, 0),
        r.1 <= buf@.len(),
{
    let chars = chars_of(buf);
    let s = chars.as_slice();
    let open = chars_of("\u{1b}]");
    let terminator = chars_of("\u{1b}\\");
    let mut events = OscEvents { notifications: Vec::new(), title: None, progress: None };
    let mut idx: usize = 0;
    let ghost mut done: Seq<Seq<char>> = Seq::empty();
    assert(texts(events.notifications@) =~= Seq::empty());
    assert(done + osc_payloads(s@, 0) =~= osc_payloads(s@, 0));
    loop
        invariant
            s@ == buf@,
            open@ == "\u{1b}]"@,
            terminator@ == "\u{1b}\\"@,
            idx <= s.len(),
            events_of(events, done),
            done + osc_payloads(s@, idx as int) == osc_payloads(s@, 0),
            osc_open(s@, idx as int) == osc_open(s@, 0),
        decreases s@.len() + 1 - idx,
    {
        proof {
            osc_step_bounds(s@, idx as int);
        }
        let start = match find_from(s, open.as_slice(), idx) {
            Some(start) => start,
            None => {
                assert(done + osc_payloads(s@, idx as int) =~= done);
                return (events, s.len());
            },
        };
        let after: usize = start + 2;
        let bell = find_char_from(s, '\u{7}', after);
        let st = find_from(s, terminator.as_slice(), after);
        let end: usize = match (bell, st) {
            (Some(bell), Some(st)) => if bell <= st {
                bell
            } else {
                st
            },
            (Some(bell), None) => bell,
            (None, Some(st)) => st,
            (None, None) => {
                assert(done + osc_payloads(s@, idx as int) =~= done);
                return (events, start);
            },
        };
        let payload = slice_subrange(s, after, end);
        note_payload(&mut events, payload, Ghost(done));
        let by_terminator = match st {
            Some(st) => st == end,
            None => false,
        };
        let next: usize = if by_terminator {
            end + 2
        } else {
            end + 1
        };
        proof {
            assert(next == osc_next(s@, after as int, end as int));
            assert(done.push(payload@) + osc_payloads(s@, next as int) =~= done + (seq![payload@]
                + osc_payloads(s@, next as int)));
            done = done.push(payload@);
        }
        idx = next;
    }
}

/// The number of bytes of the first `n` characters of `s`.
pub fn bytes_before(s: &str, n: usize) -> (r: usize)
    requires
        n <= s@.len(),
    ensures
        r == byte_len(s@.take(n as int)),
{
    bytes_in(s.substring_char(0, n))
}

/// The notifications in `text`.
pub fn osc_notifications(text: &str) -> (r: Vec<String>)
    ensures
        texts(r@) == messages_of(osc_payloads(text@, 0)),
{
    scan_osc_events(text).0.notifications
}

/// The last window title in `text`.
pub fn osc_title(text: &str) -> (r: Option<String>)
    ensures
        opt_text(r) == title_of(osc_payloads(text@, 0)),
{
    scan_osc_events(text).0.title
}

/// The payloads and what is kept of a text are those of its rest, moved on.
proof fn osc_shift(s: Seq<char>, k: int, from: int)
    requires
        0 <= k <= s.len(),
        k <= from,
    ensures
        osc_payloads(s, from) == osc_payloads(s.skip(k), from - k),
        osc_open(s, from) == k + osc_open(s.skip(k), from - k),
    decreases s.len() + 1 - from,
{
    let t = s.skip(k);
    position_shift(s, "\u{1b}]"@, k, from);
    osc_step_bounds(s, from);
    match position_from(s, "\u{1b}]"@, from) {
        Some(start) => {
            position_shift(s, "\u{1b}\\"@, k, start + 2);
            char_position_shift(s, '\u{7}', k, start + 2);
            match osc_end(s, start + 2) {
                Some(end) => {
                    osc_shift(s, k, osc_next(s, start + 2, end));
                    assert(t.subrange(start + 2 - k, end - k) =~= s.subrange(start + 2, end));
                },
                None => {},
            }
        },
        None => {},
    }
}

/// Reading on from where a text left off is reading the longer text.
proof fn osc_resume(a: Seq<char>, b: Seq<char>, from: int)
    requires
        0 <= from <= a.len(),
        !(osc_open(a, from) == a.len() && a.len() > 0 && a.last() == '\u{1b}' && b.len() > 0 && b[0]
            == ']'),
    ensures
        osc_payloads(a + b, from) == osc_payloads(a, from) + osc_payloads(a + b, osc_open(a, from)),
        osc_open(a + b, from) == osc_open(a + b, osc_open(a, from)),
    decreases a.len() + 1 - from,
{
    reveal_strlit("\u{1b}]");
    reveal_strlit("\u{1b}\\");
    let s = a + b;
    let pat = "\u{1b}]"@;
    let st = "\u{1b}\\"@;
    osc_step_bounds(a, from);
    osc_open_bounds(a, from);
    position_in_longer(a, b, pat, from);
    match position_from(a, pat, from) {
        None => {
            assert forall|i: int| from <= i < a.len() implies !stands_at(s, pat, i) by {
                if stands_at(s, pat, i) {
                    assert(i == a.len() - 1);
                    assert(s.subrange(i, i + 2)[0] == s[i]);
                    assert(s.subrange(i, i + 2)[1] == s[i + 1]);
                }
            }
            position_from_later(s, pat, from, a.len() as int);
        },
        Some(start) => {
            position_from_is_first(s, pat, from);
            position_from_is(s, pat, start, start);
            let after = start + 2;
            position_in_longer(a, b, st, after);
            position_from_is_first(s, st, after);
            position_from_is_first(a, st, after);
            char_position_from_is_first(a, '\u{7}', after);
            char_position_from_is_first(s, '\u{7}', after);
            match char_position_from(a, '\u{7}', after) {
                Some(p) => {
                    char_position_from_is(s, '\u{7}', after, p);
                },
                None => {},
            }
            match osc_end(a, after) {
                None => {},
                Some(end) => {
                    match position_from(s, st, after) {
                        Some(q) => {
                            assert(s.subrange(q, q + 2)[0] == s[q]);
                        },
                        None => {},
                    }
                    assert(osc_end(s, after) == Some(end));
                    assert(osc_next(s, after, end) == osc_next(a, after, end));
                    let next = osc_next(a, after, end);
                    osc_resume(a, b, next);
                    assert(s.subrange(after, end) =~= a.subrange(after, end));
                    assert(seq![a.subrange(after, end)] + (osc_payloads(a, next) + osc_payloads(
                        s,
                        osc_open(a, from),
                    )) =~= (seq![a.subrange(after, end)] + osc_payloads(a, next)) + osc_payloads(
                        s,
                        osc_open(a, from),
                    ));
                },
            }
        },
    }
}

/// Sequences that are cut between two reads are found: reading `a`, keeping what is
/// unterminated, and reading it again with `b` behind it, finds the sequences of `a` and `b`
/// read at once, and keeps the same in the end. The one exception is a read that ends with
/// a lone escape whose bracket comes with the next one.
pub proof fn sequences_survive_split_reads(a: Seq<char>, b: Seq<char>)
    requires
        !(osc_open(a, 0) == a.len() && a.len() > 0 && a.last() == '\u{1b}' && b.len() > 0 && b[0]
            == ']'),
    ensures
        osc_payloads(a + b, 0) == osc_payloads(a, 0) + osc_payloads(a.skip(osc_open(a, 0)) + b, 0),
        (a + b).skip(osc_open(a + b, 0)) == (a.skip(osc_open(a, 0)) + b).skip(
            osc_open(a.skip(osc_open(a, 0)) + b, 0),
        ),
{
    let k = osc_open(a, 0);
    osc_open_bounds(a, 0);
    osc_open_bounds(a + b, k);
    osc_resume(a, b, 0);
    osc_shift(a + b, k, k);
    assert((a + b).skip(k) =~= a.skip(k) + b);
    let t = a.skip(k) + b;
    osc_open_bounds(t, 0);
    assert(t.skip(osc_open(t, 0)) =~= (a + b).skip(k + osc_open(t, 0)));
}

} // verus!

//! What programs report, what pages hold, and what is kept of both.
use crate::browser::forms::{areas_in, fields_in, form_of, forms_in, inputs_in, selects_in};
use crate::browser::html::{attr_value, cut_close, cut_tag, page_text};
use crate::browser::network::{header_of, headers_in, meta_in, meta_of, no_meta};
use crate::browser::page::{
    block_texts, links_in, script_of, tag_blocks, FieldView, FormView, LinkView,
};
use crate::browser::url::absolute;
use crate::daemon::live::{with_messages, Record};
use crate::daemon::navigate::{active_tab_index, flush_active_tab};
use crate::daemon::osc::{
    messages_of, osc_message, osc_progress, osc_title_text, progress_of, title_of,
};
use crate::daemon::plans::{check_actions, is_action, ActionError, CustomAction};
use crate::daemon::ports::PortRegistry;
use crate::daemon::screen::{
    formatted_screen, formatted_scrollback, history_count, screen_history, scrolled, top_row,
    top_rows,
};
use crate::daemon::session::next_id;
use crate::daemon::status::{is_completion_notice, is_idle_notice, is_progress_remnant};
use crate::daemon::titles::{summarizer_from, SummarizerError};
use crate::laws::statuses::words_for_statuses;
use crate::model::{NoteView, Workspace};
use crate::text::chars::{
    char_position, char_position_from_is, char_position_from_is_first, is_blank, parts, texts,
    trimmed, without_prefix,
};
use crate::text::numbers::number;
use crate::text::utf8::byte_len;
use vstd::prelude::*;

verus! {

/// The notices of what a program sent are those of its parts, in their order.
pub proof fn notices_keep_their_order(a: Seq<Seq<char>>, b: Seq<Seq<char>>, p: Seq<char>)
    ensures
        messages_of(a + b) == messages_of(a) + messages_of(b),
        osc_message(p) matches Some(m) ==> messages_of(seq![p]) == seq![m],
        osc_message(p) is None ==> messages_of(seq![p]).len() == 0,
    decreases b.len(),
{
    assert(seq![p].drop_last() =~= Seq::<Seq<char>>::empty());
    assert(seq![p].last() == p);
    assert(messages_of(Seq::empty()) =~= Seq::<Seq<char>>::empty());
    if let Some(m) = osc_message(p) {
        assert(messages_of(seq![p]) =~= seq![m]);
    }
    if b.len() == 0 {
        assert(a + b =~= a);
        assert(messages_of(a) + messages_of(b) =~= messages_of(a));
    } else {
        assert((a + b).drop_last() =~= a + b.drop_last());
        assert((a + b).last() == b.last());
        notices_keep_their_order(a, b.drop_last(), p);
        assert(messages_of(a + b) =~= messages_of(a) + messages_of(b));
    }
}

/// Of several titles the last counts; what is a notice or a progress report is no title.
pub proof fn the_last_title_counts(payloads: Seq<Seq<char>>, i: int, t: Seq<char>)
    ensures
        0 <= i < payloads.len() && osc_title_text(payloads[i]) == Some(t) && osc_message(
            payloads[i],
        ) is None && osc_progress(payloads[i]) is None && (forall|j: int|
            i < j < payloads.len() ==> osc_title_text(#[trigger] payloads[j]) is None || osc_message(
                payloads[j],
            ) is Some || osc_progress(payloads[j]) is Some) ==> title_of(payloads) == Some(t),
        (forall|j: int| 0 <= j < payloads.len() ==> osc_title_text(#[trigger] payloads[j]) is None)
            ==> title_of(payloads) is None,
    decreases payloads.len(),
{
    if payloads.len() > 0 {
        let shorter = payloads.drop_last();
        the_last_title_counts(shorter, i, t);
        assert(payloads[payloads.len() - 1] == payloads.last());
        assert forall|j: int| 0 <= j < shorter.len() implies shorter[j] == payloads[j] by {}
    }
}

/// Of several progress reports the last counts.
pub proof fn the_last_progress_counts(payloads: Seq<Seq<char>>, i: int)
    ensures
        0 <= i < payloads.len() && osc_progress(payloads[i]) is Some && (forall|j: int|
            i < j < payloads.len() ==> osc_progress(#[trigger] payloads[j]) is None) ==> progress_of(
            payloads,
        ) == osc_progress(payloads[i]),
        (forall|j: int| 0 <= j < payloads.len() ==> osc_progress(#[trigger] payloads[j]) is None)
            ==> progress_of(payloads) is None,
    decreases payloads.len(),
{
    if payloads.len() > 0 {
        let shorter = payloads.drop_last();
        the_last_progress_counts(shorter, i);
        assert(payloads[payloads.len() - 1] == payloads.last());
        assert forall|j: int| 0 <= j < shorter.len() implies shorter[j] == payloads[j] by {}
    }
}

/// A notice of a program is recorded as a call for attention in blue, behind those before it,
/// unless it only says that the program is idle or done, or is no news.
pub proof fn programs_call_for_attention(
    record: Record,
    pane: Seq<char>,
    messages: Seq<Seq<char>>,
    m: Seq<char>,
    now: u64,
)
    ensures
        with_messages(record, pane, Seq::empty(), now) == record,
        ({
            let before = with_messages(record, pane, messages, now);
            let after = with_messages(record, pane, messages.push(m), now);
            let worthy = m.len() > 0 && !is_idle_notice(m)
                && !is_completion_notice(m)
                && !is_progress_remnant(m);
            &&& worthy ==> after.last_id == next_id(before.last_id) && after.feed
                == before.feed.push(
                NoteView {
                    time: now,
                    pane: Some(pane),
                    workspace: None,
                    status: Some("attention"@),
                    color: Some("blue"@),
                    clear: false,
                    message: m,
                },
            )
            &&& m.len() == 0 || is_idle_notice(m)
                || is_completion_notice(m)
                || is_progress_remnant(m) ==> after == before
        }),
{
    assert(messages.push(m).drop_last() =~= messages);
    words_for_statuses("attention"@);
}

/// Rows that scrolled off are shown from the oldest to the newest: what is further back comes
/// first.
pub proof fn older_rows_come_first(screen: vt100::Screen, cols: u16, from: int, to: int)
    requires
        to <= from,
    ensures
        top_rows(screen, cols, from + 1, to) == top_row(
            scrolled(screen, (from + 1) as usize),
            cols,
        ) + top_rows(screen, cols, from, to),
        top_rows(screen, cols, to, to).len() == 0,
    decreases from - to,
{
    if to == from {
        assert(top_rows(screen, cols, from + 1, to + 1) =~= Seq::<Seq<char>>::empty());
        assert(top_rows(screen, cols, from, to) =~= Seq::<Seq<char>>::empty());
        assert(top_rows(screen, cols, from + 1, to) =~= top_row(
            scrolled(screen, (from + 1) as usize),
            cols,
        ) + top_rows(screen, cols, from, to));
    } else {
        older_rows_come_first(screen, cols, from, to + 1);
        let first = top_row(scrolled(screen, (from + 1) as usize), cols);
        let last = top_row(scrolled(screen, (to + 1) as usize), cols);
        assert((first + top_rows(screen, cols, from, to + 1)) + last =~= first + (top_rows(
            screen,
            cols,
            from,
            to + 1,
        ) + last));
    }
}

/// No more rows of the history are shown than are asked for, nor than there are.
pub proof fn history_is_what_there_is(screen: vt100::Screen, lines: usize)
    ensures
        screen_history(screen) <= lines ==> history_count(screen, lines) == screen_history(screen),
        screen_history(screen) > lines ==> history_count(screen, lines) == lines,
        history_count(screen, 0) == 0,
        formatted_scrollback(screen, 0) == formatted_screen(screen),
{
}

/// What a page was fetched with is read from a line of six fields with tabs between them: the
/// status, the address, the kind, the bytes, the time and the redirects.
pub proof fn fields_of_a_fetch(
    status: Seq<char>,
    url: Seq<char>,
    kind: Seq<char>,
    bytes: Seq<char>,
    time: Seq<char>,
    redirects: Seq<char>,
)
    requires
        !status.contains('\t') && !url.contains('\t') && !kind.contains('\t'),
        !bytes.contains('\t') && !time.contains('\t') && !redirects.contains('\t'),
        url.len() > 0 && kind.len() > 0,
    ensures
        ({
            let m = meta_of(
                status.push('\t') + (url.push('\t') + (kind.push('\t') + (bytes.push('\t') + (
                time.push('\t') + redirects)))),
            );
            &&& m.status == number(status, 10, 65535)
            &&& m.effective_url == Some(url)
            &&& m.content_type == Some(kind)
            &&& m.bytes == number(bytes, 10, u64::MAX as int)
            &&& m.time_total == Some(time)
            &&& m.redirects == number(redirects, 10, u64::MAX as int)
        }),
{
    let e = time.push('\t') + redirects;
    let d = bytes.push('\t') + e;
    let c = kind.push('\t') + d;
    let b = url.push('\t') + c;
    let a = status.push('\t') + b;
    a_part_more(status, b);
    a_part_more(url, c);
    a_part_more(kind, d);
    a_part_more(bytes, e);
    a_part_more(time, redirects);
    last_part(redirects);
    let list = parts(a, '\t');
    assert(parts(e, '\t') =~= seq![time, redirects]);
    assert(parts(d, '\t') =~= seq![bytes, time, redirects]);
    assert(parts(c, '\t') =~= seq![kind, bytes, time, redirects]);
    assert(parts(b, '\t') =~= seq![url, kind, bytes, time, redirects]);
    assert(list =~= seq![status, url, kind, bytes, time, redirects]);
}

proof fn a_part_more(first: Seq<char>, rest: Seq<char>)
    requires
        !first.contains('\t'),
    ensures
        parts(first.push('\t') + rest, '\t') == seq![first] + parts(rest, '\t'),
{
    let s = first.push('\t') + rest;
    let n = first.len() as int;
    assert forall|i: int| 0 <= i < n implies s[i] != '\t' by {
        assert(s[i] == first[i]);
        assert(first.contains(first[i]));
    }
    assert(s[n] == '\t');
    char_position_from_is(s, '\t', 0, n);
    assert(s.take(n) =~= first);
    assert(s.skip(n + 1) =~= rest);
}

proof fn last_part(s: Seq<char>)
    requires
        !s.contains('\t'),
    ensures
        parts(s, '\t') == seq![s],
{
    char_position_from_is_first(s, '\t', 0);
    if char_position(s, '\t') is Some {
        let p = char_position(s, '\t')->0;
        assert(s[p] == '\t');
        assert(s.contains(s[p]));
    }
}

/// What was fetched is told by the last line that is marked so; the other lines are headers in
/// their order.
pub proof fn marked_lines_tell_of_the_fetch(
    lines: Seq<Seq<char>>,
    rest: Seq<char>,
    line: Seq<char>,
)
    ensures
        meta_in(Seq::empty()) == no_meta() && headers_in(Seq::empty()).len() == 0,
        meta_in(lines.push("VMUX_CURL_META\t"@ + rest)) == meta_of(rest),
        headers_in(lines.push("VMUX_CURL_META\t"@ + rest)) == headers_in(lines),
        without_prefix(line, "VMUX_CURL_META\t"@) is None ==> meta_in(lines.push(line)) == meta_in(
            lines,
        ) && headers_in(lines.push(line)) == headers_in(lines) + header_of(line),
{
    let mark = "VMUX_CURL_META\t"@;
    let marked = mark + rest;
    assert(marked.subrange(0, mark.len() as int) =~= mark);
    assert(marked.skip(mark.len() as int) =~= rest);
    assert(lines.push(marked).drop_last() =~= lines);
    assert(lines.push(line).drop_last() =~= lines);
}

/// The links of a page are its tags with an address, in their order, each with the text up to its
/// end.
pub proof fn links_are_tags_with_addresses(
    html: Seq<char>,
    base: Seq<char>,
    attrs: Seq<char>,
    after: Seq<char>,
)
    requires
        cut_tag(html, "<a "@) == Some((attrs, after)),
    ensures
        attr_value(attrs, "href"@) is None ==> links_in(html, base) == links_in(after, base),
        attr_value(attrs, "href"@) is Some && cut_close(after, "</a>"@) is None ==> links_in(
            html,
            base,
        ) == seq![
            LinkView {
                href: absolute(base, attr_value(attrs, "href"@)->0),
                text: Seq::<char>::empty(),
            },
        ] + links_in(after, base),
        attr_value(attrs, "href"@) matches Some(href) ==> (cut_close(after, "</a>"@) matches Some(
            cut,
        ) ==> links_in(html, base) == seq![
            LinkView { href: absolute(base, href), text: trimmed(page_text(cut.0)) },
        ] + links_in(after, base)),
{
    if attr_value(attrs, "href"@) is None {
        assert(Seq::<LinkView>::empty() + links_in(after, base) =~= links_in(after, base));
    }
}

/// A page without such a tag has no links.
pub proof fn no_tags_no_links(html: Seq<char>, base: Seq<char>)
    ensures
        cut_tag(html, "<a "@) is None ==> links_in(html, base).len() == 0,
        cut_tag(html, "<input"@) is None ==> inputs_in(html).len() == 0,
        cut_tag(html, "<textarea"@) is None ==> areas_in(html) == Some(Seq::<FieldView>::empty()),
        cut_tag(html, "<select"@) is None ==> selects_in(html) == Some(Seq::<FieldView>::empty()),
        cut_tag(html, "<form"@) is None ==> forms_in(html, base, 1) == Some(
            Seq::<FormView>::empty(),
        ),
{
}

/// The forms of a page come in their order with their numbers, each with the fields that stand
/// before its end: inputs first, then text areas, then lists.
pub proof fn forms_hold_their_fields(
    html: Seq<char>,
    base: Seq<char>,
    n: int,
    attrs: Seq<char>,
    after: Seq<char>,
    body: Seq<char>,
    rest: Seq<char>,
    fields: Seq<FieldView>,
    more: Seq<FormView>,
)
    requires
        cut_tag(html, "<form"@) == Some((attrs, after)),
        cut_close(after, "</form>"@) == Some((body, rest)) || cut_close(after, "</form>"@) is None
            && body == after && rest.len() == 0,
        fields_in(body) == Some(fields),
        forms_in(rest, base, n + 1) == Some(more),
    ensures
        forms_in(html, base, n) == Some(seq![form_of(n, attrs, base, fields)] + more),
        areas_in(body) is Some && selects_in(body) is Some && fields == inputs_in(body) + areas_in(
            body,
        )->0 + selects_in(body)->0,
{
    if cut_close(after, "</form>"@) is None {
        assert(rest =~= Seq::<char>::empty());
    }
}

/// A script says where it comes from and of what kind it is, JavaScript where it does not say, and
/// how many bytes stand in the page.
pub proof fn scripts_say_where_they_come_from(
    n: int,
    attrs: Seq<char>,
    body: Seq<char>,
    base: Seq<char>,
)
    ensures
        ({
            let s = script_of(n, attrs, body, base);
            &&& s.index == n
            &&& attr_value(attrs, "src"@) is None ==> s.src is None
            &&& attr_value(attrs, "src"@) matches Some(src) ==> s.src == Some(absolute(base, src))
            &&& attr_value(attrs, "type"@) is None ==> s.kind == "text/javascript"@
            &&& attr_value(attrs, "type"@) matches Some(kind) ==> s.kind == kind
            &&& s.bytes == byte_len(body)
        }),
{
}

/// The parts of a page with a tag come in their order, each with what stands between the tag and
/// its end.
pub proof fn parts_stand_between_tags(
    html: Seq<char>,
    tag: Seq<char>,
    attrs: Seq<char>,
    after: Seq<char>,
    body: Seq<char>,
    rest: Seq<char>,
)
    requires
        cut_tag(html, "<"@ + tag) == Some((attrs, after)),
        cut_close(after, "</"@ + tag + ">"@) == Some((body, rest)),
    ensures
        tag_blocks(html, tag) == seq![(attrs, body)] + tag_blocks(rest, tag),
{
}

/// Of parts without scripts those are shown that hold any text.
pub proof fn parts_with_text_are_shown(
    blocks: Seq<(Seq<char>, Seq<char>)>,
    block: (Seq<char>, Seq<char>),
)
    ensures
        block_texts(Seq::empty()).len() == 0,
        trimmed(page_text(block.1)).len() == 0 ==> block_texts(blocks.push(block)) == block_texts(
            blocks,
        ),
        trimmed(page_text(block.1)).len() > 0 ==> block_texts(blocks.push(block)) == block_texts(
            blocks,
        ).push(page_text(block.1)),
{
    assert(blocks.push(block).drop_last() =~= blocks);
}

/// A program that makes titles is the words of its command; without any there is none.
pub proof fn summarizers_are_commands(
    command: &str,
    split: Option<Vec<String>>,
    r: Result<Vec<String>, SummarizerError>,
)
    requires
        call_ensures(summarizer_from, (command, split), r),
    ensures
        split is None ==> (r matches Err(SummarizerError::Invalid(c)) && c@ == command@),
        split matches Some(w) ==> w@.len() == 0 ==> (r matches Err(SummarizerError::Empty)),
        split matches Some(w) ==> w@.len() > 0 ==> (r matches Ok(argv) && texts(argv@) == texts(w@)),
{
}

/// The tab that is shown keeps what the workspace shows; the other tabs stay.
pub proof fn the_shown_tab_is_kept(w: &mut Workspace, i: int, j: int)
    requires
        call_ensures(flush_active_tab, (w,), ()),
        active_tab_index(*old(w)) == Some(i),
        0 <= i < old(w).tabs@.len(),
        0 <= j < old(w).tabs@.len(),
        j != i,
    ensures
        final(w).tabs@[i].panes@ == old(w).panes@,
        final(w).tabs@[i].active_pane == old(w).active_pane,
        final(w).tabs@[i].zoomed_pane == old(w).zoomed_pane,
        final(w).tabs@[i].id == old(w).tabs@[i].id && final(w).tabs@[i].title
            == old(w).tabs@[i].title,
        final(w).tabs@[j] == old(w).tabs@[j],
        final(w).panes == old(w).panes,
{
    assert(final(w).tabs@[j] == old(w).tabs@.update(i, final(w).tabs@[i])[j]);
}

/// Actions are good where each has a name and a command; else the first that is not is told.
pub proof fn actions_have_names_and_commands(
    actions: &Vec<CustomAction>,
    r: Result<(), ActionError>,
    i: int,
)
    requires
        call_ensures(check_actions, (actions,), r),
        0 <= i < actions@.len(),
    ensures
        r is Ok ==> !is_blank(actions@[i].name@) && !is_blank(actions@[i].command@),
        (forall|k: int|
            0 <= k < actions@.len() ==> !is_blank((#[trigger] actions@[k]).name@) && !is_blank(
                actions@[k].command@,
            )) ==> r is Ok,
        (forall|k: int|
            0 <= k < i ==> !is_blank((#[trigger] actions@[k]).name@) && !is_blank(
                actions@[k].command@,
            )) && is_blank(actions@[i].name@) ==> (r matches Err(e) && e is EmptyName),
        (forall|k: int|
            0 <= k < i ==> !is_blank((#[trigger] actions@[k]).name@) && !is_blank(
                actions@[k].command@,
            )) && !is_blank(actions@[i].name@) && is_blank(actions@[i].command@) ==> (
        r matches Err(ActionError::EmptyCommand(name)) && name@ == actions@[i].name@),
{
    match r {
        Ok(_) => {
            assert(is_action(actions@[i]));
        },
        Err(e) => {
            let j = choose|j: int|
                0 <= j < actions@.len() && !is_action(#[trigger] actions@[j]) && (forall|k: int|
                    0 <= k < j ==> is_action(#[trigger] actions@[k])) && if is_blank(
                    actions@[j].name@,
                ) {
                    e is EmptyName
                } else {
                    e matches ActionError::EmptyCommand(name) && name@ == actions@[j].name@
                };
            if i < j {
                assert(is_action(actions@[i]));
            }
        },
    }
}

/// A forward that is stopped is gone, and its proxy is told to stop; the others stay.
pub proof fn forwards_are_stopped(ports: &mut PortRegistry, port: u16, r: bool, other: u16)
    requires
        call_ensures(PortRegistry::stop_forward, (ports, port), r),
    ensures
        r <==> old(ports).forwards@.contains_key(port),
        !final(ports).forwards@.contains_key(port),
        r ==> final(ports).stopped@ == old(ports).stopped@.push(old(ports).forwards@[port].stop),
        !r ==> final(ports).stopped@ == old(ports).stopped@,
        other != port ==> (final(ports).forwards@.contains_key(other)
            <==> old(ports).forwards@.contains_key(other)),
        other != port && old(ports).forwards@.contains_key(other) ==> final(ports).forwards@[other]
            == old(ports).forwards@[other],
{
}

/// A new forward of a port takes the place of the old one, whose proxy is told to stop.
pub proof fn forwards_take_the_place_of_others(
    ports: &mut PortRegistry,
    port: u16,
    stop: u64,
    url: String,
    other: u16,
)
    requires
        call_ensures(PortRegistry::insert_forward, (ports, port, stop, url), ()),
    ensures
        final(ports).forwards@.contains_key(port),
        final(ports).forwards@[port].stop == stop && final(ports).forwards@[port].url == url,
        old(ports).forwards@.contains_key(port) ==> final(ports).stopped@
            == old(ports).stopped@.push(old(ports).forwards@[port].stop),
        !old(ports).forwards@.contains_key(port) ==> final(ports).stopped@ == old(ports).stopped@,
        other != port && old(ports).forwards@.contains_key(other) ==> final(ports).forwards@[other]
            == old(ports).forwards@[other],
{
}

} // verus!

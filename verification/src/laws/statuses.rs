//! What reports, screens and typing make of the status of a pane.
use crate::daemon::handlers::acknowledged;
use crate::daemon::session::{
    is_news, noted, notice_of, notice_title, notified, repeats_latest, NoticeView, Notified,
    NotifyRequest,
};
use crate::daemon::status::{
    is_completion_notice, is_idle_notice, is_progress_remnant, is_terminal_report, is_turn_input,
    report_applied, status_name, status_of,
};
use crate::detect::agents::{bannered, merged_status, status_for, Detection};
use crate::detect::manifest::DetectedState;
use crate::model::{event_views, notes, pane_index_is_first, AgentStatus, NoteView, Pane, Session};
use crate::text::chars::{
    begins, has_text, is_blank, is_white, lowered, opt_text, stands_at, trimmed,
};
use crate::text::utf8::{byte_len, byte_len_push};
use vstd::prelude::*;

verus! {

/// Each word for a status stands for that status and no other word does; the names of the
/// statuses are among them.
pub proof fn words_for_statuses(word: Seq<char>)
    ensures
        status_of(word) == AgentStatus::Idle <==> word == "idle"@,
        status_of(word) == AgentStatus::Busy <==> word == "busy"@ || word == "running"@ || word
            == "working"@,
        status_of(word) == AgentStatus::Attention <==> word == "attention"@ || word
            == "needs-input"@ || word == "needs_input"@ || word == "waiting"@ || word == "blocked"@
            || word == "approval"@,
        status_of(word) == AgentStatus::Done <==> word == "done"@ || word == "complete"@,
        status_of(word) == AgentStatus::Error <==> word == "error"@ || word == "failed"@,
        status_name(AgentStatus::Unknown) == "unknown"@,
        status_name(AgentStatus::Idle) == "idle"@,
        status_name(AgentStatus::Busy) == "busy"@,
        status_name(AgentStatus::Attention) == "attention"@,
        status_name(AgentStatus::Done) == "done"@,
        status_name(AgentStatus::Error) == "error"@,
{
    reveal_strlit("idle");
    reveal_strlit("busy");
    reveal_strlit("running");
    reveal_strlit("working");
    reveal_strlit("attention");
    reveal_strlit("needs-input");
    reveal_strlit("needs_input");
    reveal_strlit("waiting");
    reveal_strlit("blocked");
    reveal_strlit("approval");
    reveal_strlit("done");
    reveal_strlit("complete");
    reveal_strlit("error");
    reveal_strlit("failed");
    assert("idle"@.len() == 4);
    assert("busy"@.len() == 4);
    assert("running"@.len() == 7);
    assert("working"@.len() == 7);
    assert("attention"@.len() == 9);
    assert("needs-input"@.len() == 11);
    assert("needs_input"@.len() == 11);
    assert("waiting"@.len() == 7);
    assert("blocked"@.len() == 7);
    assert("approval"@.len() == 8);
    assert("done"@.len() == 4);
    assert("complete"@.len() == 8);
    assert("error"@.len() == 5);
    assert("failed"@.len() == 6);
    assert("idle"@[0] != "busy"@[0]);
    assert("idle"@[0] != "done"@[0]);
    assert("busy"@[0] != "done"@[0]);
    assert("running"@[0] != "working"@[0]);
    assert("running"@[0] != "waiting"@[0]);
    assert("running"@[0] != "blocked"@[0]);
    assert("working"@[1] != "waiting"@[1]);
    assert("working"@[0] != "blocked"@[0]);
    assert("needs-input"@[5] != "needs_input"@[5]);
    assert("waiting"@[0] != "blocked"@[0]);
    assert("approval"@[0] != "complete"@[0]);
}

/// A report of work, rest, success or failure takes the banner away; one that asks for attention
/// puts its message up, in blue where it gives no colour. A known status stays until it is set
/// again, and nothing else of the pane changes.
pub proof fn reports_set_the_status(
    before: Pane,
    after: Pane,
    word: Seq<char>,
    color: Option<Seq<char>>,
    message: Seq<char>,
    now: u64,
)
    requires
        report_applied(before, after, word, color, message, now),
    ensures
        word == "idle"@ ==> after.agent_status == AgentStatus::Idle,
        word == "busy"@ || word == "running"@ || word == "working"@ ==> after.agent_status
            == AgentStatus::Busy,
        word == "done"@ || word == "complete"@ ==> after.agent_status == AgentStatus::Done,
        word == "error"@ || word == "failed"@ ==> after.agent_status == AgentStatus::Error,
        word == "idle"@ || word == "busy"@ || word == "running"@ || word == "working"@ || word
            == "done"@ || word == "complete"@ || word == "error"@ || word == "failed"@ ==> {
            &&& after.agent_status_pinned
            &&& after.notification_message is None
            &&& opt_text(after.notification_color) == color
        },
        word == "attention"@ || word == "needs-input"@ || word == "needs_input"@ || word
            == "waiting"@ || word == "blocked"@ || word == "approval"@ ==> {
            &&& after.agent_status == AgentStatus::Attention
            &&& after.agent_status_pinned
            &&& color is Some ==> opt_text(after.notification_color) == color
            &&& color is None ==> opt_text(after.notification_color) == Some("blue"@)
            &&& message.len() > 0 ==> opt_text(after.notification_message) == Some(message)
            &&& message.len() == 0 ==> opt_text(after.notification_message) == opt_text(
                before.notification_message,
            )
        },
        after.agent_status == AgentStatus::Unknown ==> !after.agent_status_pinned,
        after.agent_status_at == now,
        after.id == before.id,
        after.status == before.status,
        after.title == before.title,
        after.output == before.output,
        after.progress == before.progress,
        after.pid == before.pid,
        after.tabs == before.tabs,
{
    words_for_statuses(word);
}

/// A note without a status that says something asks for attention: its words are put up, in blue
/// where it gives no colour. A note that only clears takes the banner away and leaves the status.
pub proof fn notes_ask_for_attention(before: Pane, after: Pane, n: NoticeView, now: u64)
    requires
        notified(before, after, n, now),
    ensures
        n.clear ==> {
            &&& after.agent_status == before.agent_status
            &&& after.agent_status_pinned == before.agent_status_pinned
            &&& after.notification_message is None
            &&& after.notification_color is None
        },
        !n.clear && n.status is None && n.message.len() > 0 && !is_idle_notice(n.message)
            && !is_completion_notice(n.message) ==> {
            &&& after.agent_status == AgentStatus::Attention
            &&& after.agent_status_pinned
            &&& opt_text(after.notification_message) == Some(n.message)
            &&& n.color is Some ==> opt_text(after.notification_color) == n.color
            &&& n.color is None ==> opt_text(after.notification_color) == Some("blue"@)
        },
        !n.clear && n.status is None && n.message.len() == 0 ==> {
            &&& after.agent_status == before.agent_status
            &&& after.notification_message == before.notification_message
        },
        after.updated_at == now,
        after.id == before.id,
        after.output == before.output,
        after.title == before.title,
        after.progress == before.progress,
{
    words_for_statuses(n.status->0);
}

/// A note that says that input is awaited or that a response is over, and that asks for attention
/// or gives no status, moves nothing but the time.
pub proof fn routine_notes_move_nothing(before: Pane, after: Pane, n: NoticeView, now: u64)
    requires
        notified(before, after, n, now),
        !n.clear,
        n.status is None || n.status == Some("attention"@) || n.status == Some("waiting"@)
            || n.status == Some("needs-input"@),
        has_text(lowered(n.message), "waiting for your input"@) || has_text(
            lowered(n.message),
            "waiting for input"@,
        ) || has_text(lowered(n.message), "finished responding"@) || has_text(
            lowered(n.message),
            "response complete"@,
        ) || begins(lowered(n.message), "turn complete"@) || lowered(n.message) == "end_turn"@
            || lowered(n.message) == "end turn"@,
    ensures
        after == (Pane { updated_at: now, ..before }),
{
    words_for_statuses(n.status->0);
}

/// A report of work on a pane whose turn is over counts where it tells of a new turn, or says
/// something of its own; a routine one does not. On a pane whose turn goes on it counts.
pub proof fn work_counts_unless_it_is_late(
    before: Pane,
    after: Pane,
    n: NoticeView,
    now: u64,
)
    requires
        notified(before, after, n, now),
        !n.clear,
        n.status == Some("busy"@) || n.status == Some("running"@) || n.status == Some("working"@),
    ensures
        n.new_turn || (before.agent_status != AgentStatus::Done && !before.agent_status_pinned)
            || before.agent_status == AgentStatus::Busy || before.agent_status
            == AgentStatus::Attention || before.agent_status == AgentStatus::Error
            ==> after.agent_status == AgentStatus::Busy && after.notification_message is None,
        !n.new_turn && before.agent_status == AgentStatus::Done && lowered(trimmed(n.message))
            == "agent working"@ ==> after == (Pane { updated_at: now, ..before }),
        !n.new_turn && before.agent_status == AgentStatus::Idle && before.agent_status_pinned
            && lowered(trimmed(n.message)) == "agent working"@ ==> after == (Pane {
            updated_at: now,
            ..before
        }),
{
    words_for_statuses(n.status->0);
}

/// The feed takes what says something new: nothing that clears, is empty, or repeats the last
/// note about the same pane and workspace.
pub proof fn the_feed_takes_news(feed: Seq<NoteView>, note: NoteView)
    ensures
        note.clear || note.message.len() == 0 ==> !is_news(feed, note),
        is_progress_remnant(note.message) ==> !is_news(feed, note),
        feed.len() > 0 && !feed.last().clear && feed.last().pane == note.pane
            && feed.last().workspace == note.workspace && feed.last().status == note.status
            && feed.last().color == note.color && feed.last().message == note.message ==> !is_news(
            feed,
            note,
        ),
        !note.clear && note.message.len() > 0 && !is_progress_remnant(note.message) && (note.status
            is None || note.status == Some("error"@) || note.status == Some("failed"@)) && (
        forall|i: int|
            0 <= i < feed.len() ==> (#[trigger] feed[i]).pane != note.pane || feed[i].workspace
                != note.workspace || feed[i].message != note.message || feed[i].status
                != note.status || feed[i].color != note.color) ==> is_news(feed, note),
        !note.clear && note.message.len() > 0 && !is_progress_remnant(note.message) && note.status
            == Some("attention"@) && !is_idle_notice(note.message) && !is_completion_notice(
            note.message,
        ) && feed.len() == 0 ==> is_news(feed, note),
        (note.status == Some("busy"@) || note.status == Some("done"@) || note.status == Some(
            "idle"@,
        )) && (lowered(trimmed(note.message)) == "agent working"@ || lowered(trimmed(note.message))
            == "agent hook completed"@ || lowered(trimmed(note.message)) == "agent hook event"@
            || lowered(trimmed(note.message)) == "agent hook failed"@ || lowered(
            trimmed(note.message),
        ) == "end_turn"@ || lowered(trimmed(note.message)) == "turn complete"@) ==> !is_news(
            feed,
            note,
        ),
        note.status == Some("attention"@) && has_text(
            lowered(note.message),
            "waiting for your input"@,
        ) ==> !is_news(feed, note),
{
    words_for_statuses(note.status->0);
    if forall|i: int|
        0 <= i < feed.len() ==> (#[trigger] feed[i]).pane != note.pane || feed[i].workspace
            != note.workspace || feed[i].message != note.message || feed[i].status != note.status
            || feed[i].color != note.color {
        no_repeat(feed, note);
    }
}

proof fn no_repeat(feed: Seq<NoteView>, note: NoteView)
    requires
        forall|i: int|
            0 <= i < feed.len() ==> (#[trigger] feed[i]).pane != note.pane || feed[i].workspace
                != note.workspace || feed[i].message != note.message || feed[i].status
                != note.status || feed[i].color != note.color,
    ensures
        !repeats_latest(feed, note),
    decreases feed.len(),
{
    if feed.len() > 0 {
        assert(feed[feed.len() - 1] == feed.last());
        let shorter = feed.drop_last();
        assert forall|i: int| 0 <= i < shorter.len() implies (#[trigger] shorter[i]).pane
            != note.pane || shorter[i].workspace != note.workspace || shorter[i].message
            != note.message || shorter[i].status != note.status || shorter[i].color
            != note.color by {
            assert(shorter[i] == feed[i]);
        }
        no_repeat(shorter, note);
    }
}

/// Digits, colons and white space with a colon among them are what a misread progress report
/// leaves; a text with any other character is not.
pub proof fn remnants_are_digits(message: Seq<char>, i: int)
    requires
        0 <= i < message.len(),
    ensures
        !('0' <= message[i] <= '9') && message[i] != ':' && !is_white(message[i])
            ==> !is_progress_remnant(message),
        message[i] == ':' && (forall|k: int|
            0 <= k < message.len() ==> ('0' <= #[trigger] message[k] <= '9') || message[k] == ':')
            ==> is_progress_remnant(message),
        (forall|k: int| 0 <= k < message.len() ==> #[trigger] message[k] != ':')
            ==> !is_progress_remnant(message),
{
}

/// What is noted goes into the feed and the log as it was said, and nowhere else: the newest note
/// and the newest event carry the pane, the workspace and the words.
pub proof fn notes_are_recorded(
    before: Session,
    after: Session,
    request: NotifyRequest,
    titles_enabled: bool,
    condensed: Option<String>,
    from_message: Option<String>,
    now: u64,
    r: Notified,
)
    requires
        noted(before, after, request, titles_enabled, condensed, from_message, now, r),
    ensures
        ({
            let feed = notes(after.notifications@);
            let log = event_views(after.events@);
            &&& r.recorded ==> {
                &&& 0 < feed.len() <= 100
                &&& feed.last().time == now
                &&& feed.last().pane == opt_text(request.pane)
                &&& feed.last().workspace == opt_text(request.workspace)
                &&& feed.last().clear == request.clear
                &&& log.len() > 0
                &&& log.last().kind == "notification"@
                &&& log.last().time == now
                &&& log.last().pane == opt_text(request.pane)
                &&& log.last().workspace == opt_text(request.workspace)
                &&& log.last().status == feed.last().status
                &&& log.last().value == feed.last().color
            }
            &&& !r.recorded ==> {
                &&& feed == notes(before.notifications@)
                &&& log == event_views(before.events@)
                &&& after.next_event_id == before.next_event_id
            }
        }),
        request.clear ==> !r.recorded,
        after.panes@.len() == before.panes@.len(),
        forall|i: int|
            0 <= i < before.panes@.len() && Some((#[trigger] before.panes@[i]).id@) != opt_text(
                request.pane,
            ) ==> after.panes@[i] == before.panes@[i],
        after.workspaces == before.workspaces,
        after.clipboard == before.clipboard,
{
    if request.pane is Some {
        pane_index_is_first(before.panes@, request.pane->0@);
    }
}

/// A note that asks for attention and only says that the turn is complete counts as done, in green;
/// other notes count as they are given.
pub proof fn completion_counts_as_done(
    status: Option<Seq<char>>,
    color: Option<Seq<char>>,
    clear: bool,
    message: Seq<char>,
    title: Option<Seq<char>>,
    titled: bool,
)
    ensures
        ({
            let n = notice_of(status, color, clear, message, title, titled);
            &&& n.clear == clear
            &&& clear || status is None || status == Some("busy"@) || status == Some("done"@)
                || status == Some("error"@) ==> n.status == status && n.color == color
            &&& !clear && status == Some("attention"@) && (lowered(n.message) == "turn complete"@
                || lowered(n.message) == "end_turn"@ || has_text(
                lowered(n.message),
                "response complete"@,
            )) ==> n.status == Some("done"@) && n.color == Some("green"@)
            &&& n.status == status && n.color == color || n.status == Some("done"@) && n.color
                == Some("green"@)
            &&& titled ==> n.new_turn
            &&& title is Some && !is_blank(title->0) ==> n.new_turn
            &&& !titled && title is None ==> !n.new_turn
        }),
{
    words_for_statuses(status->0);
}

/// A tab gets the title that a report gives, or what the words of a report of work come down to;
/// none where titles are off or the report clears.
pub proof fn reports_give_titles(
    enabled: bool,
    clear: bool,
    status: Option<Seq<char>>,
    condensed: Option<Seq<char>>,
    from_message: Option<Seq<char>>,
)
    ensures
        !enabled || clear ==> notice_title(enabled, clear, status, condensed, from_message) is None,
        enabled && !clear && condensed is Some ==> notice_title(
            enabled,
            clear,
            status,
            condensed,
            from_message,
        ) == condensed,
        enabled && !clear && condensed is None && (status == Some("busy"@) || status == Some(
            "working"@,
        ) || status == Some("running"@)) ==> notice_title(
            enabled,
            clear,
            status,
            condensed,
            from_message,
        ) == from_message,
        enabled && !clear && condensed is None && (status is None || status == Some("done"@)
            || status == Some("attention"@) || status == Some("error"@) || status == Some("idle"@))
            ==> notice_title(enabled, clear, status, condensed, from_message) is None,
{
    words_for_statuses(status->0);
}

/// A screen that shows work makes the pane busy, one that shows a question makes it ask for
/// attention, and one that shows neither makes it idle, but for a turn that is done.
pub proof fn screens_set_the_status(current: AgentStatus, state: DetectedState)
    ensures
        merged_status(current, DetectedState::Working) == AgentStatus::Busy,
        merged_status(current, DetectedState::Blocked) == AgentStatus::Attention,
        current != AgentStatus::Done ==> merged_status(current, DetectedState::Idle)
            == AgentStatus::Idle,
        current != AgentStatus::Done ==> merged_status(current, DetectedState::Unknown)
            == AgentStatus::Unknown,
        merged_status(AgentStatus::Done, DetectedState::Idle) == AgentStatus::Done,
        merged_status(AgentStatus::Done, DetectedState::Unknown) == AgentStatus::Done,
        status_for(DetectedState::Working) == AgentStatus::Busy,
        status_for(DetectedState::Blocked) == AgentStatus::Attention,
        status_for(DetectedState::Idle) == AgentStatus::Idle,
        status_for(DetectedState::Unknown) == AgentStatus::Unknown,
{
}

/// The banner of an agent that waits names the agent and what it needs: permission where the rule
/// that found it is about that, else a decision in a workflow, else input.
pub proof fn banners_name_the_need(
    before: Pane,
    after: Pane,
    next: AgentStatus,
    detection: Detection,
)
    requires
        bannered(before, after, next, detection),
    ensures
        next != AgentStatus::Attention ==> after.notification_message is None,
        next == AgentStatus::Attention ==> {
            let name = match detection.agent {
                Some(a) => a@,
                None => "agent"@,
            };
            let rule = opt_text(detection.matched_rule);
            &&& opt_text(after.notification_color) == Some("blue"@)
            &&& rule is None ==> opt_text(after.notification_message) == Some(
                name + " needs input"@,
            )
            &&& rule is Some && (has_text(rule->0, "permission"@) || has_text(rule->0, "allow"@))
                ==> opt_text(after.notification_message) == Some(name + " needs permission"@)
            &&& rule is Some && has_text(rule->0, "workflow"@) && !has_text(rule->0, "permission"@)
                && !has_text(rule->0, "bash_permission"@) && !has_text(rule->0, "allow"@)
                && !has_text(rule->0, "blocked"@) && !has_text(rule->0, "prompt"@) ==> opt_text(
                after.notification_message,
            ) == Some(name + " needs a decision"@)
            &&& rule is Some && (has_text(rule->0, "blocked"@) || has_text(rule->0, "prompt"@))
                && !has_text(rule->0, "permission"@) && !has_text(rule->0, "bash_permission"@)
                && !has_text(rule->0, "allow"@) ==> opt_text(after.notification_message) == Some(
                name + " needs input"@,
            )
        },
        after.agent_status == before.agent_status,
        after.id == before.id,
        after.output == before.output,
{
}

/// A turn that is done is idle once it has been seen; other panes, and other statuses, stay.
pub proof fn seen_turns_are_idle(panes: Seq<Pane>, ids: Seq<Seq<char>>, now: u64, i: int)
    requires
        0 <= i < panes.len(),
    ensures
        acknowledged(panes, ids, now).len() == panes.len(),
        panes[i].agent_status == AgentStatus::Done && ids.contains(panes[i].id@) ==> {
            let seen = acknowledged(panes, ids, now)[i];
            &&& seen.agent_status == AgentStatus::Idle
            &&& seen.agent_status_pinned
            &&& seen.agent_status_at == now
            &&& seen == Pane {
                agent_status: AgentStatus::Idle,
                agent_status_pinned: true,
                agent_status_at: now,
                ..panes[i]
            }
        },
        panes[i].agent_status != AgentStatus::Done || !ids.contains(panes[i].id@) ==> acknowledged(
            panes,
            ids,
            now,
        )[i] == panes[i],
{
}

/// Text that is typed starts a turn, and so does a return by itself.
pub proof fn typing_starts_a_turn(data: Seq<char>, i: int)
    requires
        0 <= i < data.len(),
        forall|k: int| 0 <= k < data.len() ==> #[trigger] data[k] != '\u{1b}',
        ('!' <= data[i] <= '~') || data[i] == ' ' || data[i] == '\r' || data[i] == '\n',
    ensures
        is_turn_input(data),
{
    no_report_without_escape(data);
    begins_with_escape(data);
    assert(data[0] != '\u{1b}');
}

proof fn no_report_without_escape(data: Seq<char>)
    requires
        forall|k: int| 0 <= k < data.len() ==> #[trigger] data[k] != '\u{1b}',
    ensures
        !is_terminal_report(data),
{
    reveal_strlit("\u{1b}[<");
    reveal_strlit("\u{1b}[M");
    reveal_strlit("\u{1b}[I");
    reveal_strlit("\u{1b}[O");
    reveal_strlit("\u{1b}[200~");
    reveal_strlit("\u{1b}[201~");
    not_there(data, "\u{1b}[<"@);
    not_there(data, "\u{1b}[M"@);
    not_there(data, "\u{1b}[I"@);
    not_there(data, "\u{1b}[O"@);
    not_there(data, "\u{1b}[200~"@);
    not_there(data, "\u{1b}[201~"@);
}

proof fn not_there(data: Seq<char>, report: Seq<char>)
    requires
        report.len() > 0,
        report[0] == '\u{1b}',
        forall|k: int| 0 <= k < data.len() ==> #[trigger] data[k] != '\u{1b}',
    ensures
        !has_text(data, report),
{
    if has_text(data, report) {
        let i = choose|i: int| stands_at(data, report, i);
        assert(data.subrange(i, i + report.len())[0] == data[i]);
    }
}

proof fn begins_with_escape(data: Seq<char>)
    requires
        data.len() > 0,
        data[0] != '\u{1b}',
    ensures
        !begins(data, "\u{1b}["@),
        !begins(data, "\u{1b}O"@),
{
    reveal_strlit("\u{1b}[");
    reveal_strlit("\u{1b}O");
    if begins(data, "\u{1b}["@) {
        assert(data.take(2)[0] == data[0]);
    }
    if begins(data, "\u{1b}O"@) {
        assert(data.take(2)[0] == data[0]);
    }
}

/// Keys that only move, and what a terminal reports of its mouse and its focus, start none.
pub proof fn moving_starts_no_turn(data: Seq<char>)
    ensures
        data.len() == 0 ==> !is_turn_input(data),
        data == "\u{1b}"@ ==> !is_turn_input(data),
        data == "\u{1b}[A"@ || data == "\u{1b}[B"@ || data == "\u{1b}[C"@ || data == "\u{1b}[D"@
            ==> !is_turn_input(data),
        has_text(data, "\u{1b}[<"@) || has_text(data, "\u{1b}[M"@) || has_text(data, "\u{1b}[I"@)
            || has_text(data, "\u{1b}[O"@) || has_text(data, "\u{1b}[200~"@) || has_text(
            data,
            "\u{1b}[201~"@,
        ) ==> !is_turn_input(data),
{
    reveal_strlit("\u{1b}");
    reveal_strlit("\u{1b}[A");
    reveal_strlit("\u{1b}[B");
    reveal_strlit("\u{1b}[C");
    reveal_strlit("\u{1b}[D");
    reveal_strlit("\u{1b}[");
    reveal_strlit("\r");
    reveal_strlit("\n");
    reveal_strlit("\r\n");
    assert("\u{1b}"@.len() == 1 && "\r"@.len() == 1 && "\n"@.len() == 1 && "\r\n"@.len() == 2);
    assert("\u{1b}"@[0] != "\r"@[0] && "\u{1b}"@[0] != "\n"@[0]);
    assert("\u{1b}[A"@.len() == 3 && "\u{1b}[B"@.len() == 3 && "\u{1b}[C"@.len() == 3
        && "\u{1b}[D"@.len() == 3);
    if data == "\u{1b}[A"@ || data == "\u{1b}[B"@ || data == "\u{1b}[C"@ || data == "\u{1b}[D"@ {
        assert(data[0] == '\u{1b}' && data[1] == '[');
        assert(data.take(2) =~= "\u{1b}["@);
        assert(data.subrange(0, 2) =~= "\u{1b}["@);
        assert(begins(data, "\u{1b}["@));
        assert(byte_len(data) <= 8) by {
            assert(byte_len(data) == 3) by {
                three_plain(data);
            }
        }
        assert(data[2] != '\r' && data[2] != '\n');
    }
}

proof fn three_plain(data: Seq<char>)
    requires
        data.len() == 3,
        data[0] < '\u{80}' && data[1] < '\u{80}' && data[2] < '\u{80}',
    ensures
        byte_len(data) == 3,
{
    let one = data.take(1);
    let two = data.take(2);
    assert(data.take(0) =~= Seq::empty());
    assert(one =~= Seq::<char>::empty().push(data[0]));
    assert(two =~= one.push(data[1]));
    assert(data =~= two.push(data[2]));
    byte_len_push(Seq::empty(), data[0]);
    byte_len_push(one, data[1]);
    byte_len_push(two, data[2]);
    assert(byte_len(Seq::<char>::empty()) == 0);
}

} // verus!

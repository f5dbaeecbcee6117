//! What is known of the agent in a pane, and which reports of it count.
use crate::model::{touch_agent_status, AgentStatus, Notification, Pane, SurfaceKind};
use crate::text::chars::{
    begins, chars_of, contains, has_text, is_text, is_white, lower, lowered, opt_str, opt_text,
    owned_opt, starts_with, trim, trimmed, white,
};
use crate::text::utf8::{byte_len, bytes_in};
use vstd::prelude::*;

verus! {

/// The status that a word stands for.
pub open spec fn status_of(word: Seq<char>) -> AgentStatus {
    if word == "idle"@ {
        AgentStatus::Idle
    } else if word == "busy"@ || word == "running"@ || word == "working"@ {
        AgentStatus::Busy
    } else if word == "attention"@ || word == "needs-input"@ || word == "needs_input"@ || word
        == "waiting"@ || word == "blocked"@ || word == "approval"@ {
        AgentStatus::Attention
    } else if word == "done"@ || word == "complete"@ {
        AgentStatus::Done
    } else if word == "error"@ || word == "failed"@ {
        AgentStatus::Error
    } else {
        AgentStatus::Unknown
    }
}

/// The status that a word stands for.
pub fn parse_agent_status(status: &str) -> (r: AgentStatus)
    ensures
        r == status_of(status@),
{
    let word = chars_of(status);
    let w = word.as_slice();
    if is_text(w, "idle") {
        AgentStatus::Idle
    } else if is_text(w, "busy") || is_text(w, "running") || is_text(w, "working") {
        AgentStatus::Busy
    } else if is_text(w, "attention") || is_text(w, "needs-input") || is_text(w, "needs_input")
        || is_text(w, "waiting") || is_text(w, "blocked") || is_text(w, "approval") {
        AgentStatus::Attention
    } else if is_text(w, "done") || is_text(w, "complete") {
        AgentStatus::Done
    } else if is_text(w, "error") || is_text(w, "failed") {
        AgentStatus::Error
    } else {
        AgentStatus::Unknown
    }
}

/// The name of a status.
pub open spec fn status_name(status: AgentStatus) -> Seq<char> {
    match status {
        AgentStatus::Unknown => "unknown"@,
        AgentStatus::Idle => "idle"@,
        AgentStatus::Busy => "busy"@,
        AgentStatus::Attention => "attention"@,
        AgentStatus::Done => "done"@,
        AgentStatus::Error => "error"@,
    }
}

/// The name of a status.
pub fn agent_status_name(status: &AgentStatus) -> (r: &'static str)
    ensures
        r@ == status_name(*status),
{
    match *status {
        AgentStatus::Unknown => "unknown",
        AgentStatus::Idle => "idle",
        AgentStatus::Busy => "busy",
        AgentStatus::Attention => "attention",
        AgentStatus::Done => "done",
        AgentStatus::Error => "error",
    }
}

/// Reading the name of a status gives the status.
pub proof fn status_names_read_back(status: AgentStatus)
    ensures
        status_of(status_name(status)) == status,
{
    reveal_strlit("idle");
    reveal_strlit("busy");
    reveal_strlit("running");
    reveal_strlit("working");
    reveal_strlit("attention");
    reveal_strlit("needs-input");
    reveal_strlit("needs_input");
    reveal_strlit("waiting");
    reveal_strlit("blocked");
    reveal_strlit("approval");
    reveal_strlit("done");
    reveal_strlit("complete");
    reveal_strlit("error");
    reveal_strlit("failed");
    reveal_strlit("unknown");
    let word = status_name(status);
    match status {
        AgentStatus::Idle => {},
        AgentStatus::Busy => {
            assert(word[0] == 'b');
        },
        AgentStatus::Attention => {
            assert(word[0] == 'a');
        },
        AgentStatus::Done => {
            assert(word[0] == 'd');
        },
        AgentStatus::Error => {
            assert(word[0] == 'e');
        },
        AgentStatus::Unknown => {
            assert(word[0] == 'u');
        },
    }
}

/// A notice that the prompt waits, which asks for nothing new.
pub open spec fn is_idle_notice(message: Seq<char>) -> bool {
    let m = lowered(message);
    has_text(m, "waiting for your input"@) || has_text(m, "waiting for input"@) || has_text(
        m,
        "finished responding"@,
    )
}

/// Whether a message only says that the prompt waits.
pub fn is_idle_prompt_notification(message: &str) -> (r: bool)
    ensures
        r == is_idle_notice(message@),
{
    let chars = chars_of(message);
    let m = lower(chars.as_slice());
    contains(m.as_slice(), "waiting for your input") || contains(m.as_slice(), "waiting for input")
        || contains(m.as_slice(), "finished responding")
}

/// A notice that a turn is complete.
pub open spec fn is_completion_notice(message: Seq<char>) -> bool {
    let m = lowered(message);
    m == "turn complete"@ || m == "end_turn"@ || m == "end turn"@ || begins(m, "turn complete"@)
        || has_text(m, "response complete"@)
}

/// Whether a message only says that a turn is complete.
pub fn is_completion_noise_notification(message: &str) -> (r: bool)
    ensures
        r == is_completion_notice(message@),
{
    let chars = chars_of(message);
    let m = lower(chars.as_slice());
    is_text(m.as_slice(), "turn complete") || is_text(m.as_slice(), "end_turn") || is_text(
        m.as_slice(),
        "end turn",
    ) || starts_with(m.as_slice(), "turn complete") || contains(m.as_slice(), "response complete")
}

/// Whether a message asks nothing of the user.
pub fn is_non_actionable_attention(message: &str) -> (r: bool)
    ensures
        r == (is_idle_notice(message@) || is_completion_notice(message@)),
{
    is_idle_prompt_notification(message) || is_completion_noise_notification(message)
}

/// The message of a routine hook.
pub open spec fn is_boilerplate(message: Seq<char>) -> bool {
    let m = lowered(trimmed(message));
    m == "agent working"@ || m == "agent hook completed"@ || m == "agent hook event"@ || m
        == "agent hook failed"@ || m == "end_turn"@ || m == "turn complete"@
}

/// Whether a message is that of a routine hook.
pub fn is_boilerplate_lifecycle_message(message: &str) -> (r: bool)
    ensures
        r == is_boilerplate(message@),
{
    let chars = chars_of(message);
    let m = lower(trim(chars.as_slice()));
    let m = m.as_slice();
    is_text(m, "agent working") || is_text(m, "agent hook completed") || is_text(
        m,
        "agent hook event",
    ) || is_text(m, "agent hook failed") || is_text(m, "end_turn") || is_text(m, "turn complete")
}

/// Nothing but digits, colons and white space, with a colon: a misread progress report.
pub open spec fn is_progress_remnant(message: Seq<char>) -> bool {
    &&& forall|i: int|
        0 <= i < message.len() ==> ('0' <= #[trigger] message[i] <= '9') || message[i] == ':'
            || is_white(message[i])
    &&& exists|i: int| 0 <= i < message.len() && message[i] == ':'
}

fn progress_remnant(message: &str) -> (r: bool)
    ensures
        r == is_progress_remnant(message@),
{
    let chars = chars_of(message);
    let mut colon = false;
    let mut i: usize = 0;
    while i < chars.len()
        invariant
            i <= chars.len(),
            chars@ == message@,
            forall|k: int|
                0 <= k < i ==> ('0' <= #[trigger] message@[k] <= '9') || message@[k] == ':'
                    || is_white(message@[k]),
            colon == exists|k: int| 0 <= k < i && message@[k] == ':',
        decreases chars.len() - i,
    {
        let c = chars[i];
        if !(('0' <= c && c <= '9') || c == ':' || white(c)) {
            return false;
        }
        if c == ':' {
            assert(message@[i as int] == ':');
            colon = true;
        }
        i += 1;
    }
    colon
}

/// The status that an optional word stands for.
pub open spec fn opt_status(word: Option<Seq<char>>) -> AgentStatus {
    match word {
        Some(w) => status_of(w),
        None => AgentStatus::Unknown,
    }
}

/// Whether a notification belongs in the feed: it clears nothing, says something, and is
/// neither a remnant, a routine report, nor one that asks nothing.
pub open spec fn is_feed_worthy(status: Option<Seq<char>>, clear: bool, message: Seq<char>) -> bool {
    &&& !clear
    &&& message.len() > 0
    &&& !is_progress_remnant(message)
    &&& match opt_status(status) {
        AgentStatus::Busy | AgentStatus::Done | AgentStatus::Idle => !is_boilerplate(message),
        AgentStatus::Attention => !(is_idle_notice(message) || is_completion_notice(message)),
        _ => true,
    }
}

/// Whether a notification belongs in the feed.
pub fn should_record_in_notification_feed(note: &Notification) -> (r: bool)
    ensures
        r == is_feed_worthy(opt_text(note.status), note.clear, note.message@),
{
    let message = note.message.as_str();
    if note.clear || message.is_empty() {
        return false;
    }
    if progress_remnant(message) {
        return false;
    }
    let status = match &note.status {
        Some(s) => parse_agent_status(s.as_str()),
        None => AgentStatus::Unknown,
    };
    match status {
        AgentStatus::Busy | AgentStatus::Done | AgentStatus::Idle => {
            !is_boilerplate_lifecycle_message(message)
        },
        AgentStatus::Attention => !is_non_actionable_attention(message),
        _ => true,
    }
}

/// The turn in the pane is over: it is done, or was set to nothing in particular by hand.
pub open spec fn is_settled(pane: Pane) -> bool {
    ||| pane.agent_status == AgentStatus::Done
    ||| (pane.agent_status == AgentStatus::Idle || pane.agent_status == AgentStatus::Unknown)
        && pane.agent_status_pinned
}

/// Whether the turn in the pane is over.
pub fn is_settled_after_turn(pane: &Pane) -> (r: bool)
    ensures
        r == is_settled(*pane),
{
    pane.agent_status == AgentStatus::Done || ((pane.agent_status == AgentStatus::Idle
        || pane.agent_status == AgentStatus::Unknown) && pane.agent_status_pinned)
}

/// A routine busy report on a pane whose turn is over, without the title of a new turn.
pub open spec fn is_late_busy(
    pane: Pane,
    status: Seq<char>,
    message: Seq<char>,
    has_new_turn_title: bool,
) -> bool {
    status_of(status) == AgentStatus::Busy && is_settled(pane) && !has_new_turn_title
        && is_boilerplate(message)
}

/// Whether a busy report comes too late to count.
pub fn should_skip_busy_after_settled(
    pane: &Pane,
    status: &str,
    message: &str,
    has_new_turn_title: bool,
) -> (r: bool)
    ensures
        r == is_late_busy(*pane, status@, message@, has_new_turn_title),
{
    if parse_agent_status(status) != AgentStatus::Busy {
        return false;
    }
    if !is_settled_after_turn(pane) {
        return false;
    }
    if has_new_turn_title {
        return false;
    }
    is_boilerplate_lifecycle_message(message)
}

/// The banner colour that a report sets.
pub open spec fn reported_color(
    status: AgentStatus,
    color: Option<Seq<char>>,
) -> Option<Seq<char>> {
    if status == AgentStatus::Attention && color is None {
        Some("blue"@)
    } else {
        color
    }
}

/// The banner message that a report leaves: reports of work, rest, success and failure
/// remove it.
pub open spec fn reported_message(
    status: AgentStatus,
    message: Seq<char>,
    was: Option<Seq<char>>,
) -> Option<Seq<char>> {
    match status {
        AgentStatus::Attention | AgentStatus::Unknown => if message.len() > 0 {
            Some(message)
        } else {
            was
        },
        _ => None,
    }
}

/// `after` is `before` with the report applied.
pub open spec fn report_applied(
    before: Pane,
    after: Pane,
    word: Seq<char>,
    color: Option<Seq<char>>,
    message: Seq<char>,
    now: u64,
) -> bool {
    let status = status_of(word);
    &&& after == Pane {
        notification_color: after.notification_color,
        notification_message: after.notification_message,
        ..before.touched(status, status != AgentStatus::Unknown, now)
    }
    &&& opt_text(after.notification_color) == reported_color(status, color)
    &&& opt_text(after.notification_message) == reported_message(
        status,
        message,
        opt_text(before.notification_message),
    )
}

/// Applies a report by a hook or a command, so that it sticks.
pub fn apply_explicit_agent_status(
    pane: &mut Pane,
    status: &str,
    color: Option<&str>,
    message: &str,
    now: u64,
)
    ensures
        report_applied(*old(pane), *final(pane), status@, opt_str(color), message@, now),
{
    let parsed = parse_agent_status(status);
    touch_agent_status(pane, parsed, parsed != AgentStatus::Unknown, now);
    match parsed {
        AgentStatus::Attention => {
            pane.notification_color = match color {
                Some(c) => Some(c.to_string()),
                None => Some("blue".to_string()),
            };
            if !message.is_empty() {
                pane.notification_message = Some(message.to_string());
            }
        },
        AgentStatus::Done | AgentStatus::Busy | AgentStatus::Error | AgentStatus::Idle => {
            pane.notification_message = None;
            pane.notification_color = owned_opt(color);
        },
        AgentStatus::Unknown => {
            if !message.is_empty() {
                pane.notification_message = Some(message.to_string());
            }
            pane.notification_color = owned_opt(color);
        },
    }
}

/// A visible ASCII character.
pub open spec fn is_graphic(c: char) -> bool {
    '!' <= c <= '~'
}

/// An ASCII letter or digit.
pub open spec fn is_alphanumeric(c: char) -> bool {
    ('0' <= c <= '9') || ('a' <= c <= 'z') || ('A' <= c <= 'Z')
}

/// A mouse, focus or paste report of a terminal.
pub open spec fn is_terminal_report(data: Seq<char>) -> bool {
    has_text(data, "\u{1b}[<"@) || has_text(data, "\u{1b}[M"@) || has_text(data, "\u{1b}[I"@)
        || has_text(data, "\u{1b}[O"@) || has_text(data, "\u{1b}[200~"@) || has_text(
        data,
        "\u{1b}[201~"@,
    )
}

/// A return or line feed among the characters.
pub open spec fn has_enter(data: Seq<char>) -> bool {
    exists|i: int| 0 <= i < data.len() && (data[i] == '\r' || data[i] == '\n')
}

/// Input by which a user starts a turn: neither a terminal's report nor a bare key
/// sequence, but text or a return.
pub open spec fn is_turn_input(data: Seq<char>) -> bool {
    &&& data.len() > 0
    &&& !is_terminal_report(data)
    &&& if data == "\r"@ || data == "\n"@ || data == "\r\n"@ {
        true
    } else if data[0] == '\u{1b}' && !(exists|i: int|
        0 <= i < data.len() && is_graphic(#[trigger] data[i]) && data[i] != '[') {
        false
    } else if (begins(data, "\u{1b}["@) || begins(data, "\u{1b}O"@)) && !(byte_len(data) > 8 && (
    exists|i: int| 0 <= i < data.len() && is_alphanumeric(#[trigger] data[i]))) {
        has_enter(data)
    } else {
        has_enter(data) || exists|i: int|
            0 <= i < data.len() && (is_graphic(#[trigger] data[i]) || data[i] == ' ')
    }
}

/// Which kinds of characters a text holds.
struct Kinds {
    graphic: bool,
    graphic_but_bracket: bool,
    alphanumeric: bool,
    space: bool,
    enter: bool,
}

fn kinds_of(data: &[char]) -> (k: Kinds)
    ensures
        k.graphic == exists|i: int| 0 <= i < data@.len() && is_graphic(#[trigger] data@[i]),
        k.graphic_but_bracket == exists|i: int|
            0 <= i < data@.len() && is_graphic(#[trigger] data@[i]) && data@[i] != '[',
        k.alphanumeric == exists|i: int|
            0 <= i < data@.len() && is_alphanumeric(#[trigger] data@[i]),
        k.space == exists|i: int| 0 <= i < data@.len() && #[trigger] data@[i] == ' ',
        k.enter == has_enter(data@),
{
    let mut k = Kinds {
        graphic: false,
        graphic_but_bracket: false,
        alphanumeric: false,
        space: false,
        enter: false,
    };
    let mut n: usize = 0;
    while n < data.len()
        invariant
            n <= data.len(),
            k.graphic == exists|i: int| 0 <= i < n && is_graphic(#[trigger] data@[i]),
            k.graphic_but_bracket == exists|i: int|
                0 <= i < n && is_graphic(#[trigger] data@[i]) && data@[i] != '[',
            k.alphanumeric == exists|i: int| 0 <= i < n && is_alphanumeric(#[trigger] data@[i]),
            k.space == exists|i: int| 0 <= i < n && #[trigger] data@[i] == ' ',
            k.enter == exists|i: int| 0 <= i < n && (data@[i] == '\r' || data@[i] == '\n'),
        decreases data.len() - n,
    {
        let c = data[n];
        assert(data@[n as int] == c);
        if '!' <= c && c <= '~' {
            k.graphic = true;
            if c != '[' {
                k.graphic_but_bracket = true;
            }
        }
        if ('0' <= c && c <= '9') || ('a' <= c && c <= 'z') || ('A' <= c && c <= 'Z') {
            k.alphanumeric = true;
        }
        if c == ' ' {
            k.space = true;
        }
        if c == '\r' || c == '\n' {
            k.enter = true;
        }
        n += 1;
    }
    k
}

/// Whether input starts a turn of the agent.
pub fn looks_like_user_turn_input(data: &str) -> (r: bool)
    ensures
        r == is_turn_input(data@),
{
    let chars = chars_of(data);
    let d = chars.as_slice();
    if d.len() == 0 {
        return false;
    }
    if contains(d, "\u{1b}[<") || contains(d, "\u{1b}[M") || contains(d, "\u{1b}[I") || contains(
        d,
        "\u{1b}[O",
    ) || contains(d, "\u{1b}[200~") || contains(d, "\u{1b}[201~") {
        return false;
    }
    if is_text(d, "\r") || is_text(d, "\n") || is_text(d, "\r\n") {
        return true;
    }
    let k = kinds_of(d);
    if d[0] == '\u{1b}' && !k.graphic_but_bracket {
        return false;
    }
    if starts_with(d, "\u{1b}[") || starts_with(d, "\u{1b}O") {
        if !(bytes_in(data) > 8 && k.alphanumeric) {
            return k.enter;
        }
    }
    k.enter || k.graphic || k.space
}

/// Marks the agent in a pane as working because its user typed; does nothing where the pane
/// is not an agent's.
pub fn mark_busy_by_input(pane: &mut Pane, is_agent_command: bool, now: u64)
    ensures
        *final(pane) == if is_agent_command || old(pane).surface_kind == SurfaceKind::Agent {
            Pane {
                notification_message: None,
                notification_color: None,
                updated_at: now,
                ..old(pane).touched(AgentStatus::Busy, true, now)
            }
        } else {
            *old(pane)
        },
{
    if is_agent_command || pane.surface_kind == SurfaceKind::Agent {
        touch_agent_status(pane, AgentStatus::Busy, true, now);
        pane.notification_message = None;
        pane.notification_color = None;
        pane.updated_at = now;
    }
}

} // verus!

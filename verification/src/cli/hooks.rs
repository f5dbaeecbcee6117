//! Events of agents' hooks and the notices that they give.
use crate::protocol::Request;
use crate::shell::{quote_shell_word, shell_word};
use crate::text::chars::{
    alnum, chars_of, contains, ends_with, finishes, has_text, is_alnum, is_text, lowered, opt_text, small,
    stands_at, string_of, texts, to_small, trim, trimmed,
};
use vstd::prelude::*;

verus! {

/// The letters and digits of an event's name, in small letters.
pub open spec fn event_key(event: Seq<char>) -> Seq<char>
    decreases event.len(),
{
    if event.len() == 0 {
        Seq::empty()
    } else {
        let before = event_key(event.drop_last());
        if is_alnum(event.last()) {
            before.push(small(event.last()))
        } else {
            before
        }
    }
}

/// The letters and digits of an event's name, in small letters.
fn key_of(event: &str) -> (r: Vec<char>)
    ensures
        r@ == event_key(event@),
{
    let chars = chars_of(event);
    let mut out: Vec<char> = Vec::new();
    let mut i: usize = 0;
    assert(chars@.take(0) =~= Seq::empty());
    while i < chars.len()
        invariant
            i <= chars.len(),
            out@ == event_key(chars@.take(i as int)),
        decreases chars.len() - i,
    {
        assert(chars@.take(i + 1).drop_last() =~= chars@.take(i as int));
        if alnum(chars[i]) {
            out.push(to_small(chars[i]));
        }
        i += 1;
    }
    assert(chars@.take(i as int) =~= chars@);
    out
}

/// What an event says of its agent.
#[derive(Debug, Clone, Copy, PartialEq, Eq, Structural)]
pub enum HookKind {
    /// A turn or a session is over.
    Finished,
    /// Something failed.
    Failed,
    /// The user is needed.
    NeedsInput,
    /// The agent works.
    Working,
    /// Nothing in particular: the agent counts as working.
    Other,
}

/// The names of events that end a turn. The end of an agent's helper is none of them: the
/// agent itself still works.
pub open spec fn names_an_end(key: Seq<char>) -> bool {
    key == "stop"@ || key == "sessionend"@ || key == "taskcompleted"@
}

/// The names of events that tell of a failure.
pub open spec fn names_a_failure(key: Seq<char>) -> bool {
    key == "stopfailure"@ || key == "posttoolusefailure"@
}

/// The names of events that ask for the user.
pub open spec fn names_a_question(key: Seq<char>) -> bool {
    key == "permissionrequest"@ || key == "notification"@ || key == "elicitation"@ || key
        == "elicitationresult"@ || key == "permissiondenied"@
}

/// The names of events that tell of work.
pub open spec fn names_work(key: Seq<char>) -> bool {
    key == "userpromptsubmit"@ || key == "userpromptexpansion"@ || key == "pretooluse"@ || key
        == "posttooluse"@ || key == "posttoolbatch"@ || key == "sessionstart"@ || key
        == "subagentstart"@ || key == "subagentstop"@ || key == "precompact"@ || key
        == "postcompact"@ || key == "setup"@ || key == "taskcreated"@
}

/// What the words in an unknown name say.
pub open spec fn guessed_kind(key: Seq<char>) -> HookKind {
    if has_text(key, "fail"@) || has_text(key, "error"@) {
        HookKind::Failed
    } else if (finishes(key, "stop"@) && !has_text(key, "pre"@)) || has_text(key, "sessionend"@)
        || has_text(key, "finish"@) || (has_text(key, "complete"@) && !has_text(
        key,
        "incomplete"@,
    )) {
        HookKind::Finished
    } else if has_text(key, "permission"@) || has_text(key, "notification"@) || has_text(
        key,
        "approval"@,
    ) || has_text(key, "needsinput"@) || has_text(key, "attention"@) || has_text(key, "blocked"@)
        || has_text(key, "elicitation"@) {
        HookKind::NeedsInput
    } else {
        HookKind::Other
    }
}

/// What an event says of its agent.
pub open spec fn kind_of_key(key: Seq<char>) -> HookKind {
    if names_an_end(key) {
        HookKind::Finished
    } else if names_a_failure(key) {
        HookKind::Failed
    } else if names_a_question(key) {
        HookKind::NeedsInput
    } else if names_work(key) {
        HookKind::Working
    } else {
        guessed_kind(key)
    }
}

/// What an event says of its agent.
pub fn hook_kind(event: &str) -> (r: HookKind)
    ensures
        r == kind_of_key(event_key(event@)),
{
    let chars = key_of(event);
    let key = chars.as_slice();
    if is_text(key, "stop") || is_text(key, "sessionend") || is_text(key, "taskcompleted") {
        HookKind::Finished
    } else if is_text(key, "stopfailure") || is_text(key, "posttoolusefailure") {
        HookKind::Failed
    } else if is_text(key, "permissionrequest") || is_text(key, "notification") || is_text(
        key,
        "elicitation",
    ) || is_text(key, "elicitationresult") || is_text(key, "permissiondenied") {
        HookKind::NeedsInput
    } else if is_text(key, "userpromptsubmit") || is_text(key, "userpromptexpansion") || is_text(
        key,
        "pretooluse",
    ) || is_text(key, "posttooluse") || is_text(key, "posttoolbatch") || is_text(
        key,
        "sessionstart",
    ) || is_text(key, "subagentstart") || is_text(key, "subagentstop") || is_text(
        key,
        "precompact",
    ) || is_text(key, "postcompact") || is_text(key, "setup") || is_text(key, "taskcreated") {
        HookKind::Working
    } else if contains(key, "fail") || contains(key, "error") {
        HookKind::Failed
    } else if (ends_with(key, "stop") && !contains(key, "pre")) || contains(key, "sessionend")
        || contains(key, "finish") || (contains(key, "complete") && !contains(key, "incomplete")) {
        HookKind::Finished
    } else if contains(key, "permission") || contains(key, "notification") || contains(
        key,
        "approval",
    ) || contains(key, "needsinput") || contains(key, "attention") || contains(key, "blocked")
        || contains(key, "elicitation") {
        HookKind::NeedsInput
    } else {
        HookKind::Other
    }
}

/// The status, the colour and the message that an event of a kind gives.
pub open spec fn kind_texts(kind: HookKind) -> (Seq<char>, Seq<char>, Seq<char>) {
    match kind {
        HookKind::Finished => ("done"@, "green"@, "agent hook completed"@),
        HookKind::Failed => ("error"@, "red"@, "agent hook failed"@),
        HookKind::NeedsInput => ("attention"@, "blue"@, "agent needs input"@),
        HookKind::Working => ("busy"@, "yellow"@, "agent working"@),
        HookKind::Other => ("busy"@, "yellow"@, "agent hook event"@),
    }
}

/// The status, the colour and the message that an event gives where it says nothing else.
pub fn hook_event_defaults(event: &str) -> (r: (&'static str, &'static str, &'static str))
    ensures
        (r.0@, r.1@, r.2@) == kind_texts(kind_of_key(event_key(event@))),
{
    match hook_kind(event) {
        HookKind::Finished => ("done", "green", "agent hook completed"),
        HookKind::Failed => ("error", "red", "agent hook failed"),
        HookKind::NeedsInput => ("attention", "blue", "agent needs input"),
        HookKind::Working => ("busy", "yellow", "agent working"),
        HookKind::Other => ("busy", "yellow", "agent hook event"),
    }
}

/// The text without the white space around it, where something is left.
pub open spec fn solid(text: Seq<char>) -> Option<Seq<char>> {
    if trimmed(text).len() == 0 {
        None
    } else {
        Some(trimmed(text))
    }
}

/// What is given and not blank, without the white space around it.
pub open spec fn given(value: Option<Seq<char>>) -> Option<Seq<char>> {
    match value {
        Some(text) => solid(text),
        None => None,
    }
}

/// What is given and not blank, without the white space around it.
pub fn non_empty(value: Option<String>) -> (r: Option<String>)
    ensures
        opt_text(r) == given(opt_text(value)),
{
    match value {
        Some(text) => {
            let chars = chars_of(text.as_str());
            let rest = trim(chars.as_slice());
            if rest.len() == 0 {
                None
            } else {
                Some(string_of(rest))
            }
        },
        None => None,
    }
}

/// The text under a key of the object that a JSON text holds, as `serde_json` reads it: none
/// where the text is no JSON or no object, or has no text under the key.
pub uninterp spec fn json_text_field(json: Seq<char>, key: Seq<char>) -> Option<Seq<char>>;

/// Calls `serde_json::from_str`, and `Value::get` and `Value::as_str` on what it gives. The
/// result is named.
#[verifier::external_body]
pub(crate) fn text_field(json: &str, key: &str) -> (r: Option<String>)
    ensures
        opt_text(r) == json_text_field(json@, key@),
{
    let value: serde_json::Value = serde_json::from_str(json).ok()?;
    value.get(key)?.as_str().map(|text| text.to_string())
}

/// The first of the keys with a text, where that text is not blank.
pub open spec fn first_field(json: Seq<char>, keys: Seq<Seq<char>>) -> Option<Seq<char>>
    decreases keys.len(),
{
    if keys.len() == 0 {
        None
    } else {
        match json_text_field(json, keys[0]) {
            Some(text) => solid(text),
            None => first_field(json, keys.drop_first()),
        }
    }
}

/// What the payload of a hook has under one of the keys.
pub open spec fn payload_field(payload: Seq<char>, keys: Seq<Seq<char>>) -> Option<Seq<char>> {
    match solid(payload) {
        Some(json) => first_field(json, keys),
        None => None,
    }
}

/// What the payload of a hook has under one of the keys.
pub fn hook_payload_string(payload: &str, keys: &Vec<String>) -> (r: Option<String>)
    ensures
        opt_text(r) == payload_field(payload@, texts(keys@)),
{
    let json = match non_empty(Some(payload.to_string())) {
        Some(json) => json,
        None => {
            return None;
        },
    };
    let ghost all = texts(keys@);
    let mut i: usize = 0;
    assert(all.skip(0) =~= all);
    while i < keys.len()
        invariant
            i <= keys.len(),
            all == texts(keys@),
            first_field(json@, all.skip(i as int)) == first_field(json@, all),
            solid(payload@) == Some(json@),
        decreases keys.len() - i,
    {
        assert(all.skip(i as int).drop_first() =~= all.skip(i + 1));
        assert(all.skip(i as int)[0] == keys@[i as int]@);
        let field = text_field(json.as_str(), keys[i].as_str());
        if field.is_some() {
            return non_empty(field);
        }
        i += 1;
    }
    None
}

/// The keys under which payloads name their event. Other keys, such as `type`, name other
/// things.
pub open spec fn event_keys() -> Seq<Seq<char>> {
    seq!["hook_event_name"@, "hookEventName"@, "event"@, "hook_event"@]
}

/// The keys under which payloads hold a message.
pub open spec fn message_keys() -> Seq<Seq<char>> {
    seq!["message"@, "summary"@, "reason"@, "error"@]
}

/// An event without a name.
#[derive(Debug, Clone, Copy, PartialEq, Eq, Structural)]
pub struct NoEvent;

/// The first of two values.
pub open spec fn either(
    first: Option<Seq<char>>,
    second: Option<Seq<char>>,
) -> Option<Seq<char>> {
    match first {
        Some(text) => Some(text),
        None => second,
    }
}

/// `r` is the notice of an event: what is given, then what the payload has, then what goes
/// with the event.
pub open spec fn tells_event(
    r: Result<Request, NoEvent>,
    pane: Option<String>,
    workspace: Option<String>,
    event: Option<Seq<char>>,
    status: Option<String>,
    color: Option<String>,
    message: Option<Seq<char>>,
) -> bool {
    match event {
        None => r == Err::<Request, NoEvent>(NoEvent),
        Some(event) => {
            let defaults = kind_texts(kind_of_key(event_key(event)));
            r matches Ok(
                Request::Notify {
                    pane: p,
                    workspace: w,
                    status: s,
                    color: c,
                    clear,
                    message: m,
                    title,
                },
            ) && opt_text(p) == given(opt_text(pane)) && opt_text(w) == given(opt_text(workspace))
                && opt_text(s) == either(given(opt_text(status)), Some(defaults.0)) && opt_text(c)
                == either(given(opt_text(color)), Some(defaults.1)) && !clear && Some(m@) == either(
                message,
                Some(defaults.2),
            ) && title is None
        },
    }
}

/// The notice of an event, where the payload has these for its event and its message.
pub fn hook_request(
    pane: Option<String>,
    workspace: Option<String>,
    event: Option<String>,
    status: Option<String>,
    color: Option<String>,
    message: Option<String>,
    event_field: Option<String>,
    message_field: Option<String>,
) -> (r: Result<Request, NoEvent>)
    ensures
        tells_event(
            r,
            pane,
            workspace,
            either(given(opt_text(event)), opt_text(event_field)),
            status,
            color,
            either(given(opt_text(message)), opt_text(message_field)),
        ),
{
    let event = match non_empty(event) {
        Some(event) => event,
        None => match event_field {
            Some(event) => event,
            None => {
                return Err(NoEvent);
            },
        },
    };
    let (default_status, default_color, default_message) = hook_event_defaults(event.as_str());
    let message = match non_empty(message) {
        Some(message) => message,
        None => match message_field {
            Some(message) => message,
            None => default_message.to_string(),
        },
    };
    let status = match non_empty(status) {
        Some(status) => status,
        None => default_status.to_string(),
    };
    let color = match non_empty(color) {
        Some(color) => color,
        None => default_color.to_string(),
    };
    Ok(
        Request::Notify {
            pane: non_empty(pane),
            workspace: non_empty(workspace),
            status: Some(status),
            color: Some(color),
            clear: false,
            message,
            title: None,
        },
    )
}

/// The notice of an event with its payload.
pub fn hook_event_request(
    pane: Option<String>,
    workspace: Option<String>,
    event: Option<String>,
    status: Option<String>,
    color: Option<String>,
    message: Option<String>,
    payload: &str,
) -> (r: Result<Request, NoEvent>)
    ensures
        tells_event(
            r,
            pane,
            workspace,
            either(given(opt_text(event)), payload_field(payload@, event_keys())),
            status,
            color,
            either(given(opt_text(message)), payload_field(payload@, message_keys())),
        ),
{
    let mut events: Vec<String> = Vec::new();
    events.push("hook_event_name".to_string());
    events.push("hookEventName".to_string());
    events.push("event".to_string());
    events.push("hook_event".to_string());
    assert(texts(events@) =~= event_keys());
    let mut messages: Vec<String> = Vec::new();
    messages.push("message".to_string());
    messages.push("summary".to_string());
    messages.push("reason".to_string());
    messages.push("error".to_string());
    assert(texts(messages@) =~= message_keys());
    let event_field = hook_payload_string(payload, &events);
    let message_field = hook_payload_string(payload, &messages);
    hook_request(pane, workspace, event, status, color, message, event_field, message_field)
}

/// An answer without the id of a workspace.
#[derive(Debug, Clone, Copy, PartialEq, Eq, Structural)]
pub struct NoWorkspaceId;

/// The id of the workspace that an answer describes, a JSON text.
pub fn workspace_id_from_value(json: &str) -> (r: Result<String, NoWorkspaceId>)
    ensures
        match json_text_field(json@, "id"@) {
            Some(id) => r matches Ok(got) && got@ == id,
            None => r is Err,
        },
{
    match text_field(json, "id") {
        Some(id) => Ok(id),
        None => Err(NoWorkspaceId),
    }
}

/// The line that reads a script of hooks into a shell.
pub fn hook_source_line(path: &str) -> (r: String)
    ensures
        r@ == ". "@ + shell_word(path@),
{
    let mut line = ". ".to_string();
    line.append(quote_shell_word(path).as_str());
    line
}

/// What is added to a shell's start file for the line: a heading and the line, below what the
/// file holds; nothing where it holds the line.
pub open spec fn source_addition(rc: Seq<char>, line: Seq<char>) -> Seq<char> {
    if has_text(rc, line) {
        Seq::empty()
    } else {
        (if rc.len() > 0 && rc.last() != '\n' {
            "\n"@
        } else {
            Seq::empty()
        }) + "\n# vmux shell hooks\n"@ + line + "\n"@
    }
}

/// What is added to a shell's start file so that it reads a script of hooks.
pub fn append_hook_source_once(rc: &str, line: &str) -> (r: String)
    ensures
        r@ == source_addition(rc@, line@),
{
    let held = chars_of(rc);
    let mut out = String::new();
    if contains(held.as_slice(), line) {
        return out;
    }
    if held.len() > 0 && held[held.len() - 1] != '\n' {
        out.append("\n");
    }
    out.append("\n# vmux shell hooks\n");
    out.append(line);
    out.append("\n");
    out
}

/// Where a line was added, nothing is added for it a second time.
pub proof fn a_line_is_added_once(rc: Seq<char>, line: Seq<char>)
    ensures
        source_addition(rc + source_addition(rc, line), line) == Seq::<char>::empty(),
{
    let more = source_addition(rc, line);
    let all = rc + more;
    if has_text(rc, line) {
        assert(all =~= rc);
    } else {
        let n = all.len() - "\n"@.len() - line.len();
        assert(all.subrange(n, n + line.len()) =~= line);
        assert(stands_at(all, line, n));
    }
}

/// What stands between the words of an event's name makes no difference.
pub proof fn separators_make_no_difference(a: Seq<char>, c: char, b: Seq<char>)
    requires
        !is_alnum(c),
    ensures
        event_key(a.push(c) + b) == event_key(a + b),
    decreases b.len(),
{
    if b.len() == 0 {
        assert(a.push(c) + b =~= a.push(c));
        assert(a.push(c).drop_last() =~= a);
        assert(a + b =~= a);
    } else {
        assert((a.push(c) + b).drop_last() =~= a.push(c) + b.drop_last());
        assert((a + b).drop_last() =~= a + b.drop_last());
        separators_make_no_difference(a, c, b.drop_last());
    }
}

/// The case of the letters in an event's name makes no difference.
pub proof fn case_makes_no_difference(event: Seq<char>)
    ensures
        event_key(lowered(event)) == event_key(event),
    decreases event.len(),
{
    if event.len() > 0 {
        assert(lowered(event).drop_last() =~= lowered(event.drop_last()));
        case_makes_no_difference(event.drop_last());
    }
}

} // verus!

//! What the commands of the program say and ask for.
use crate::cli::doctor::{
    all_checks, base_checks, has_browser, integration_check, overall, DoctorFacts, DoctorStatus,
};
use crate::cli::hooks::{
    event_key, given, kind_of_key, kind_texts, source_addition, tells_event, NoEvent,
};
use crate::cli::remote::{
    escaped, is_page, is_plain, last_name, markdown_words, plans_terminal, quoted, replied_id,
    ssh_line, tmux_line, without_slashes, Reply, ReplyError, WorkspacePlan,
};
use crate::cli::run::{fresh, image_kind, largest_id, led_by};
use crate::cli::select::{around, first_id, home_index};
use crate::daemon::panes::lists;
use crate::daemon::ports::{ssh_host, HostFacts};
use crate::laws::spaces::first_workspace_counts;
use crate::model::{Session, SplitDirection, SurfaceKind};
use crate::protocol::Request;
use crate::text::chars::{
    finishes, has_text, is_alnum, is_blank, last_char_position_below, opt_text, small, trimmed,
    words,
};
use vstd::prelude::*;

verus! {

/// The key of an event is its letters and digits, in small letters and in their order.
pub proof fn keys_of_events(event: Seq<char>)
    ensures
        event_key(event) == event.filter(|c: char| is_alnum(c)).map_values(|c: char| small(c)),
    decreases event.len(),
{
    reveal(Seq::filter);
    if event.len() > 0 {
        keys_of_events(event.drop_last());
        let f = |c: char| is_alnum(c);
        let g = |c: char| small(c);
        let short = event.drop_last().filter(f);
        assert(short.push(event.last()).map_values(g) =~= short.map_values(g).push(
            small(event.last()),
        ));
    } else {
        assert(event_key(event) =~= event.filter(|c: char| is_alnum(c)).map_values(
            |c: char| small(c),
        ));
    }
}

/// Events that end a turn.
pub open spec fn ends_a_turn(key: Seq<char>) -> bool {
    key == "stop"@ || key == "sessionend"@ || key == "taskcompleted"@
}

/// Events that tell of a failure.
pub open spec fn tells_of_failure(key: Seq<char>) -> bool {
    key == "stopfailure"@ || key == "posttoolusefailure"@
}

/// Events that need the user.
pub open spec fn needs_the_user(key: Seq<char>) -> bool {
    key == "permissionrequest"@ || key == "notification"@ || key == "elicitation"@ || key == "elicitationresult"@ || key == "permissiondenied"@
}

/// Events that tell of work.
pub open spec fn tells_of_work(key: Seq<char>) -> bool {
    key == "userpromptsubmit"@ || key == "userpromptexpansion"@ || key == "pretooluse"@ || key == "posttooluse"@ || key == "posttoolbatch"@ || key == "sessionstart"@ || key == "subagentstart"@ || key == "subagentstop"@ || key == "precompact"@ || key == "postcompact"@ || key == "setup"@ || key == "taskcreated"@
}

/// The end of a turn makes an agent done, in green; a failure an error, in red; a question asks for
/// attention, in blue; and work makes it busy, in yellow.
pub proof fn events_set_the_status(
    r: Result<Request, NoEvent>,
    pane: Option<String>,
    workspace: Option<String>,
    event: Seq<char>,
    message: Option<Seq<char>>,
)
    requires
        tells_event(r, pane, workspace, Some(event), None, None, message),
    ensures
        r matches Ok(Request::Notify { pane: p, workspace: w, status, color, clear, message: m, title })
            && !clear && title is None && opt_text(p) == given(opt_text(pane)) && opt_text(w) == given(
            opt_text(workspace),
        ) && (message matches Some(text) ==> m@ == text) && (ends_a_turn(event_key(event))
            ==> opt_text(status) == Some("done"@) && opt_text(color) == Some("green"@) && (message
            is None ==> m@ == "agent hook completed"@)) && (tells_of_failure(event_key(event))
            ==> opt_text(status) == Some("error"@) && opt_text(color) == Some("red"@) && (message
            is None ==> m@ == "agent hook failed"@)) && (needs_the_user(event_key(event))
            ==> opt_text(status) == Some("attention"@) && opt_text(color) == Some("blue"@) && (
        message is None ==> m@ == "agent needs input"@)) && (tells_of_work(event_key(event))
            ==> opt_text(status) == Some("busy"@) && opt_text(color) == Some("yellow"@) && (message
            is None ==> m@ == "agent working"@)),
{
    listed_events(event_key(event));
}

/// A status, a colour or a message that is given takes the place of what goes with the event.
pub proof fn given_values_come_first(
    r: Result<Request, NoEvent>,
    pane: Option<String>,
    workspace: Option<String>,
    event: Seq<char>,
    status: String,
    color: String,
    message: Seq<char>,
)
    requires
        tells_event(r, pane, workspace, Some(event), Some(status), Some(color), Some(message)),
        !is_blank(status@),
        !is_blank(color@),
    ensures
        r matches Ok(Request::Notify { pane: _, workspace: _, status: s, color: c, clear: _, message: m, title: _ })
            && opt_text(s) == Some(trimmed(status@)) && opt_text(c) == Some(trimmed(color@)) && m@
            == message,
{
}

proof fn listed_events(key: Seq<char>)
    ensures
        ends_a_turn(key) ==> kind_texts(kind_of_key(key)) == (
            "done"@,
            "green"@,
            "agent hook completed"@,
        ),
        tells_of_failure(key) ==> kind_texts(kind_of_key(key)) == (
            "error"@,
            "red"@,
            "agent hook failed"@,
        ),
        needs_the_user(key) ==> kind_texts(kind_of_key(key)) == (
            "attention"@,
            "blue"@,
            "agent needs input"@,
        ),
        tells_of_work(key) ==> kind_texts(kind_of_key(key)) == (
            "busy"@,
            "yellow"@,
            "agent working"@,
        ),
{
    reveal_strlit("stop");
    reveal_strlit("sessionend");
    reveal_strlit("taskcompleted");
    reveal_strlit("stopfailure");
    reveal_strlit("posttoolusefailure");
    reveal_strlit("permissionrequest");
    reveal_strlit("notification");
    reveal_strlit("elicitation");
    reveal_strlit("elicitationresult");
    reveal_strlit("permissiondenied");
    reveal_strlit("userpromptsubmit");
    reveal_strlit("userpromptexpansion");
    reveal_strlit("pretooluse");
    reveal_strlit("posttooluse");
    reveal_strlit("posttoolbatch");
    reveal_strlit("sessionstart");
    reveal_strlit("subagentstart");
    reveal_strlit("subagentstop");
    reveal_strlit("precompact");
    reveal_strlit("postcompact");
    reveal_strlit("setup");
    reveal_strlit("taskcreated");
    assert("stop"@.len() == 4);
    assert("sessionend"@.len() == 10);
    assert("taskcompleted"@.len() == 13);
    assert("stopfailure"@.len() == 11);
    assert("posttoolusefailure"@.len() == 18);
    assert("permissionrequest"@.len() == 17);
    assert("notification"@.len() == 12);
    assert("elicitation"@.len() == 11);
    assert("elicitationresult"@.len() == 17);
    assert("permissiondenied"@.len() == 16);
    assert("userpromptsubmit"@.len() == 16);
    assert("userpromptexpansion"@.len() == 19);
    assert("pretooluse"@.len() == 10);
    assert("posttooluse"@.len() == 11);
    assert("posttoolbatch"@.len() == 13);
    assert("sessionstart"@.len() == 12);
    assert("subagentstart"@.len() == 13);
    assert("subagentstop"@.len() == 12);
    assert("precompact"@.len() == 10);
    assert("postcompact"@.len() == 11);
    assert("setup"@.len() == 5);
    assert("taskcreated"@.len() == 11);
    assert("sessionend"@[0] != "pretooluse"@[0]);
    assert("sessionend"@[0] != "precompact"@[0]);
    assert("taskcompleted"@[0] != "posttoolbatch"@[0]);
    assert("taskcompleted"@[0] != "subagentstart"@[0]);
    assert("stopfailure"@[0] != "elicitation"@[0]);
    assert("stopfailure"@[0] != "posttooluse"@[0]);
    assert("stopfailure"@[0] != "postcompact"@[0]);
    assert("stopfailure"@[0] != "taskcreated"@[0]);
    assert("permissionrequest"@[0] != "elicitationresult"@[0]);
    assert("notification"@[0] != "sessionstart"@[0]);
    assert("notification"@[0] != "subagentstop"@[0]);
    assert("elicitation"@[0] != "posttooluse"@[0]);
    assert("elicitation"@[0] != "postcompact"@[0]);
    assert("elicitation"@[0] != "taskcreated"@[0]);
    assert("permissiondenied"@[0] != "userpromptsubmit"@[0]);
    assert("pretooluse"@[3] != "precompact"@[3]);
    assert("posttooluse"@[4] != "postcompact"@[4]);
    assert("posttooluse"@[0] != "taskcreated"@[0]);
    assert("posttoolbatch"@[0] != "subagentstart"@[0]);
    assert("sessionstart"@[1] != "subagentstop"@[1]);
    assert("postcompact"@[0] != "taskcreated"@[0]);
}

/// An event that is none of these is told by the words in its name: one that fails is an error, one
/// that stops, finishes or completes is the end of a turn, one that asks needs the user, and any
/// other counts as work.
pub proof fn other_events_are_guessed(key: Seq<char>)
    requires
        !ends_a_turn(key),
        !tells_of_failure(key),
        !needs_the_user(key),
        !tells_of_work(key),
    ensures
        has_text(key, "fail"@) || has_text(key, "error"@) ==> kind_texts(kind_of_key(key)).0
            == "error"@,
        !has_text(key, "fail"@) && !has_text(key, "error"@) && (has_text(key, "finish"@) || has_text(
            key,
            "sessionend"@,
        ) || (finishes(key, "stop"@) && !has_text(key, "pre"@)) || (has_text(key, "complete"@)
            && !has_text(key, "incomplete"@))) ==> kind_texts(kind_of_key(key)).0 == "done"@,
        !has_text(key, "fail"@) && !has_text(key, "error"@) && !has_text(key, "finish"@) && !has_text(
            key,
            "sessionend"@,
        ) && !finishes(key, "stop"@) && !has_text(key, "complete"@) && (has_text(
            key,
            "permission"@,
        ) || has_text(key, "notification"@) || has_text(key, "approval"@) || has_text(
            key,
            "needsinput"@,
        ) || has_text(key, "attention"@) || has_text(key, "blocked"@) || has_text(
            key,
            "elicitation"@,
        )) ==> kind_texts(kind_of_key(key)).0 == "attention"@,
        !has_text(key, "fail"@) && !has_text(key, "error"@) && !has_text(key, "finish"@) && !has_text(
            key,
            "sessionend"@,
        ) && !finishes(key, "stop"@) && !has_text(key, "complete"@) && !has_text(
            key,
            "permission"@,
        ) && !has_text(key, "notification"@) && !has_text(key, "approval"@) && !has_text(
            key,
            "needsinput"@,
        ) && !has_text(key, "attention"@) && !has_text(key, "blocked"@) && !has_text(
            key,
            "elicitation"@,
        ) ==> kind_texts(kind_of_key(key)) == ("busy"@, "yellow"@, "agent hook event"@),
{
}

/// What is added to a shell's start file is a line break where one is missing, a heading and the
/// line; where the line stands in the file already, nothing.
pub proof fn hooks_are_read_in_once(rc: Seq<char>, line: Seq<char>)
    ensures
        has_text(rc, line) ==> source_addition(rc, line).len() == 0,
        !has_text(rc, line) && (rc.len() == 0 || rc.last() == '\n') ==> source_addition(rc, line)
            == "\n# vmux shell hooks\n"@ + line + "\n"@,
        !has_text(rc, line) && rc.len() > 0 && rc.last() != '\n' ==> source_addition(rc, line)
            == "\n"@ + "\n# vmux shell hooks\n"@ + line + "\n"@,
{
    assert(Seq::<char>::empty() + "\n# vmux shell hooks\n"@ =~= "\n# vmux shell hooks\n"@);
}

/// A step on leads to the next place, and from the last to the first; a step back the other way.
pub proof fn steps_go_around(index: int, n: int)
    requires
        0 <= index < n,
    ensures
        index + 1 < n ==> around(index, 1, n) == index + 1,
        index + 1 == n ==> around(index, 1, n) == 0,
        index > 0 ==> around(index, -1, n) == index - 1,
        index == 0 ==> around(index, -1, n) == n - 1,
        around(index, 0, n) == index,
{
    if index + 1 < n {
        vstd::arithmetic::div_mod::lemma_small_mod((index + 1) as nat, n as nat);
    } else {
        vstd::arithmetic::div_mod::lemma_mod_self_0(n);
    }
    vstd::arithmetic::div_mod::lemma_small_mod(index as nat, n as nat);
    if index > 0 {
        vstd::arithmetic::div_mod::lemma_small_mod((index - 1) as nat, n as nat);
    } else {
        vstd::arithmetic::div_mod::lemma_mod_add_multiples_vanish(-1, n);
        vstd::arithmetic::div_mod::lemma_small_mod((n - 1) as nat, n as nat);
        assert(n + (-1) == n - 1);
    }
}

/// Steps count from the active workspace.
pub proof fn steps_begin_at_the_active_workspace(session: Session, w: int)
    requires
        0 <= w < session.workspaces@.len(),
        session.workspaces@[w].id@ == session.active_workspace@,
        forall|j: int|
            0 <= j < w ==> (#[trigger] session.workspaces@[j]).id@ != session.active_workspace@,
    ensures
        home_index(session) == w,
{
    first_workspace_counts(session.workspaces@, session.active_workspace@);
}

/// Steps from tab to tab count from the first one with the id.
pub proof fn first_tab_with_the_id(ids: Seq<Option<String>>, id: Seq<char>, i: int)
    requires
        0 <= i < ids.len(),
        opt_text(ids[i]) == Some(id),
        forall|j: int| 0 <= j < i ==> opt_text(#[trigger] ids[j]) != Some(id),
    ensures
        first_id(ids, id) == Some(i),
    decreases i,
{
    if i > 0 {
        let rest = ids.drop_first();
        assert(rest[i - 1] == ids[i]);
        assert(opt_text(ids[0]) != Some(id));
        assert forall|j: int| 0 <= j < i - 1 implies opt_text(#[trigger] rest[j]) != Some(id) by {
            assert(rest[j] == ids[j + 1]);
        }
        first_tab_with_the_id(rest, id, i - 1);
    }
}

/// A text that a shell would take apart stands between single quotes, and each single quote in it
/// closes them, stands behind a backslash and opens them again; a plain text stands as it is.
pub proof fn texts_are_quoted(a: Seq<char>, b: Seq<char>)
    requires
        forall|i: int| 0 <= i < a.len() ==> #[trigger] a[i] != '\'',
        forall|i: int| 0 <= i < b.len() ==> #[trigger] b[i] != '\'',
    ensures
        (forall|i: int|
            0 <= i < a.len() ==> is_alnum(#[trigger] a[i]) || a[i] == '_' || a[i] == '-' || a[i]
                == '.' || a[i] == '/' || a[i] == ':' || a[i] == '@') ==> quoted(a) == a,
        (exists|i: int|
            0 <= i < a.len() && (#[trigger] a[i] == ' ' || a[i] == ';' || a[i] == '$' || a[i] == '&'
                || a[i] == '"' || a[i] == '|')) ==> quoted(a) == "'"@ + a + "'"@,
        quoted(a + "'"@ + b) == "'"@ + a + "'\\''"@ + b + "'"@,
{
    reveal_strlit("'");
    reveal_strlit("'\\''");
    assert("'"@ =~= seq!['\'']);
    assert("'\\''"@ =~= seq!['\'', '\\', '\'', '\'']);
    no_quotes(a);
    if exists|i: int|
        0 <= i < a.len() && (#[trigger] a[i] == ' ' || a[i] == ';' || a[i] == '$' || a[i] == '&'
            || a[i] == '"' || a[i] == '|') {
        let i = choose|i: int|
            0 <= i < a.len() && (#[trigger] a[i] == ' ' || a[i] == ';' || a[i] == '$' || a[i] == '&'
                || a[i] == '"' || a[i] == '|');
        assert(!is_plain(a[i]));
    }
    let s = a + "'"@ + b;
    assert(s[a.len() as int] == '\'');
    assert(!is_plain(s[a.len() as int]));
    one_quote(a, b);
    assert(seq!['\''] + (a + seq!['\'', '\\', '\'', '\''] + b) + seq!['\''] =~= "'"@ + a
        + "'\\''"@ + b + "'"@);
}

proof fn no_quotes(a: Seq<char>)
    requires
        forall|i: int| 0 <= i < a.len() ==> #[trigger] a[i] != '\'',
    ensures
        escaped(a) == a,
    decreases a.len(),
{
    if a.len() > 0 {
        let shorter = a.drop_last();
        assert(a[a.len() - 1] == a.last());
        assert forall|i: int| 0 <= i < shorter.len() implies #[trigger] shorter[i] != '\'' by {
            assert(shorter[i] == a[i]);
        }
        no_quotes(shorter);
        assert(shorter.push(a.last()) =~= a);
    } else {
        assert(escaped(a) =~= a);
    }
}

proof fn one_quote(a: Seq<char>, b: Seq<char>)
    requires
        forall|i: int| 0 <= i < a.len() ==> #[trigger] a[i] != '\'',
        forall|i: int| 0 <= i < b.len() ==> #[trigger] b[i] != '\'',
    ensures
        escaped(a + seq!['\''] + b) == a + seq!['\'', '\\', '\'', '\''] + b,
    decreases b.len(),
{
    let s = a + seq!['\''] + b;
    if b.len() == 0 {
        assert(s.drop_last() =~= a);
        assert(s.last() == '\'');
        no_quotes(a);
        assert(a + seq!['\'', '\\', '\'', '\''] + b =~= a + seq!['\'', '\\', '\'', '\'']);
    } else {
        let shorter = b.drop_last();
        assert(b[b.len() - 1] == b.last());
        assert forall|i: int| 0 <= i < shorter.len() implies #[trigger] shorter[i] != '\'' by {
            assert(shorter[i] == b[i]);
        }
        one_quote(a, shorter);
        assert(s.drop_last() =~= a + seq!['\''] + shorter);
        assert(s.last() == b.last());
        assert((a + seq!['\'', '\\', '\'', '\''] + shorter).push(b.last()) =~= a
            + seq!['\'', '\\', '\'', '\''] + b);
    }
}

/// The command for a host stands behind two hyphens, and the command that runs there behind it;
/// that for a session of tmux attaches to it.
pub proof fn hosts_are_reached(host: Seq<char>, command: Seq<char>, session: Seq<char>)
    ensures
        ssh_line(host, None) == "ssh -- "@ + quoted(host),
        is_blank(command) ==> ssh_line(host, Some(command)) == "ssh -- "@ + quoted(host),
        !is_blank(command) ==> ssh_line(host, Some(command)) == "ssh -- "@ + quoted(host) + " "@
            + quoted(command),
        tmux_line(host, session) == "ssh -- "@ + quoted(host) + " -t tmux attach -t "@ + quoted(
            session,
        ),
{
}

/// Markdown is shown by the first viewer that is installed, glow before mdcat before bat; a page
/// is fetched first.
pub proof fn markdown_is_shown(source: Seq<char>, installed: Seq<String>)
    ensures
        ({
            let local = !is_page(source);
            let list = markdown_words(source, installed);
            &&& local && lists(installed, "glow"@) ==> list == seq!["glow"@, "-p"@, source]
            &&& local && !lists(installed, "glow"@) && lists(installed, "mdcat"@) ==> list == seq![
                "mdcat"@,
                source,
            ]
            &&& local && !lists(installed, "glow"@) && !lists(installed, "mdcat"@) && lists(
                installed,
                "bat"@,
            ) ==> list == seq!["bat"@, "--language"@, "markdown"@, source]
            &&& local && !lists(installed, "glow"@) && !lists(installed, "mdcat"@) && !lists(
                installed,
                "bat"@,
            ) ==> list == seq!["cat"@, source]
            &&& !local && lists(installed, "glow"@) ==> list == seq![
                "sh"@,
                "-lc"@,
                "curl -L -sS "@ + quoted(source) + " | glow -p -"@,
            ]
            &&& !local && !lists(installed, "glow"@) && lists(installed, "mdcat"@) ==> list == seq![
                "sh"@,
                "-lc"@,
                "curl -L -sS "@ + quoted(source) + " | mdcat"@,
            ]
            &&& !local && !lists(installed, "glow"@) && !lists(installed, "mdcat"@) ==> list == seq![
                "curl"@,
                "-L"@,
                "-sS"@,
                source,
            ]
        }),
{
}

/// The last name of a path stands behind its last slash; slashes at the end do not count.
pub proof fn last_names(dir: Seq<char>, name: Seq<char>)
    requires
        name.len() > 0,
        forall|i: int| 0 <= i < name.len() ==> #[trigger] name[i] != '/',
    ensures
        last_name(name) == name,
        last_name(dir + "/"@ + name) == name,
        last_name(dir + "/"@ + name + "/"@) == name,
{
    reveal_strlit("/");
    let s = dir + "/"@ + name;
    assert(name.last() == name[name.len() - 1]);
    last_place_is(s, '/', s.len() as int, dir.len() as int);
    assert(s.skip(dir.len() as int + 1) =~= name);
    assert(s.last() == name.last());
    assert(without_slashes(s) == s);
    let t = s + "/"@;
    assert(t.last() == '/');
    assert(t.drop_last() =~= s);
    assert(without_slashes(t) == s);
    assert(without_slashes(name) == name);
    last_place_is(name, '/', name.len() as int, -1);
}

/// The last place of a character, and that there is none.
pub proof fn last_place_is(s: Seq<char>, c: char, end: int, p: int)
    requires
        0 <= end <= s.len(),
        -1 <= p < end,
        p >= 0 ==> s[p] == c,
        forall|i: int| p < i < end ==> #[trigger] s[i] != c,
    ensures
        p >= 0 ==> last_char_position_below(s, c, end) == Some(p),
        p < 0 ==> last_char_position_below(s, c, end) is None,
    decreases end,
{
    if end - 1 > p && end > 0 {
        assert(s[end - 1] != c);
        last_place_is(s, c, end - 1, p);
    }
}

/// The bytes with which images begin tell their kinds.
pub proof fn images_are_told_apart(rest: Seq<u8>, size: Seq<u8>)
    requires
        size.len() == 4,
    ensures
        image_kind(seq![0x89u8, 80, 78, 71] + rest) == Some("png"@),
        image_kind(seq![0xFFu8, 0xD8, 0xFF] + rest) == Some("jpg"@),
        image_kind(seq![71u8, 73, 70, 56] + rest) == Some("gif"@),
        image_kind(seq![82u8, 73, 70, 70] + size + seq![87u8, 69, 66, 80] + rest) == Some("webp"@),
        image_kind(seq![66u8, 77] + rest) == Some("bmp"@),
        rest.len() > 0 && rest[0] != 0x89 && rest[0] != 0xFF && rest[0] != 71 && rest[0] != 82
            && rest[0] != 66 ==> image_kind(rest) is None,
        image_kind(Seq::empty()) is None,
{
    let png = seq![0x89u8, 80, 78, 71] + rest;
    assert(png.take(4) =~= seq![0x89u8, 80, 78, 71]);
    let jpg = seq![0xFFu8, 0xD8, 0xFF] + rest;
    assert(jpg.take(3) =~= seq![0xFFu8, 0xD8, 0xFF]);
    not_led(jpg, seq![0x89u8, 80, 78, 71]);
    let gif = seq![71u8, 73, 70, 56] + rest;
    assert(gif.take(4) =~= seq![71u8, 73, 70, 56]);
    not_led(gif, seq![0x89u8, 80, 78, 71]);
    not_led(gif, seq![0xFFu8, 0xD8, 0xFF]);
    let webp = seq![82u8, 73, 70, 70] + size + seq![87u8, 69, 66, 80] + rest;
    assert(webp.take(4) =~= seq![82u8, 73, 70, 70]);
    assert(webp.skip(8).take(4) =~= seq![87u8, 69, 66, 80]);
    not_led(webp, seq![0x89u8, 80, 78, 71]);
    not_led(webp, seq![0xFFu8, 0xD8, 0xFF]);
    not_led(webp, seq![71u8, 73, 70, 56]);
    let bmp = seq![66u8, 77] + rest;
    assert(bmp.take(2) =~= seq![66u8, 77]);
    not_led(bmp, seq![0x89u8, 80, 78, 71]);
    not_led(bmp, seq![0xFFu8, 0xD8, 0xFF]);
    not_led(bmp, seq![71u8, 73, 70, 56]);
    not_led(bmp, seq![82u8, 73, 70, 70]);
    if rest.len() > 0 && rest[0] != 0x89 && rest[0] != 0xFF && rest[0] != 71 && rest[0] != 82
        && rest[0] != 66 {
        not_led(rest, seq![0x89u8, 80, 78, 71]);
        not_led(rest, seq![0xFFu8, 0xD8, 0xFF]);
        not_led(rest, seq![71u8, 73, 70, 56]);
        not_led(rest, seq![82u8, 73, 70, 70]);
        not_led(rest, seq![66u8, 77]);
    }
}

proof fn not_led(bytes: Seq<u8>, head: Seq<u8>)
    requires
        head.len() > 0,
        bytes.len() > 0,
        bytes[0] != head[0],
    ensures
        !led_by(bytes, head),
{
    if led_by(bytes, head) {
        assert(bytes.take(head.len() as int)[0] == bytes[0]);
    }
}

/// A watch shows the events that are newer than what was shown, the oldest first, where they are
/// listed from the newest to the oldest.
pub proof fn newer_events_are_shown(ids: Seq<Option<u64>>, last: u64, k: int)
    requires
        0 <= k <= ids.len(),
        forall|i: int| 0 <= i < ids.len() ==> (#[trigger] ids[i]) is Some,
        forall|i: int, j: int|
            0 <= i < j < ids.len() ==> (#[trigger] ids[i])->0 > (#[trigger] ids[j])->0,
        forall|i: int| 0 <= i < k ==> (#[trigger] ids[i])->0 > last,
        forall|i: int| k <= i < ids.len() ==> (#[trigger] ids[i])->0 <= last,
    ensures
        fresh(ids, last).0 == Seq::new(k as nat, |i: int| k - 1 - i),
        k > 0 ==> fresh(ids, last).1 == ids[0]->0,
        k == 0 ==> fresh(ids, last).1 == last,
    decreases ids.len(),
{
    if ids.len() > 0 {
        let shorter = ids.drop_last();
        let n = ids.len() as int;
        assert(ids[n - 1] == ids.last());
        assert forall|i: int| 0 <= i < shorter.len() implies #[trigger] shorter[i] == ids[i] by {}
        if k < n {
            newer_events_are_shown(shorter, last, k);
        } else {
            let id = ids.last()->0;
            newer_events_are_shown(shorter, id, k - 1);
            assert(fresh(ids, last).0 =~= Seq::new(k as nat, |i: int| k - 1 - i));
            if k == 1 {
                assert(fresh(shorter, id).1 == id);
            }
        }
    } else {
        assert(fresh(ids, last).0 =~= Seq::new(k as nat, |i: int| k - 1 - i));
    }
}

/// A watch begins behind the newest of the events that are there.
pub proof fn watches_begin_at_the_newest(ids: Seq<Option<u64>>, i: int)
    requires
        0 <= i < ids.len(),
        ids[i] is Some,
    ensures
        largest_id(ids) >= ids[i]->0,
        ids.contains(Some(largest_id(ids))) || largest_id(ids) == 0,
    decreases ids.len(),
{
    largest_is_there(ids);
    if i < ids.len() - 1 {
        let shorter = ids.drop_last();
        assert(shorter[i] == ids[i]);
        watches_begin_at_the_newest(shorter, i);
    }
}

proof fn largest_is_there(ids: Seq<Option<u64>>)
    ensures
        ids.contains(Some(largest_id(ids))) || largest_id(ids) == 0,
    decreases ids.len(),
{
    if ids.len() > 0 {
        let shorter = ids.drop_last();
        largest_is_there(shorter);
        assert(ids[ids.len() - 1] == ids.last());
        if shorter.contains(Some(largest_id(shorter))) {
            let k = choose|k: int| 0 <= k < shorter.len() && shorter[k] == Some(largest_id(shorter));
            assert(ids[k] == Some(largest_id(shorter)));
        }
    }
}

/// A session without its directories is in error; one with a finding that is not good gets a
/// warning; and one with none is well.
pub proof fn doctors_judge(facts: DoctorFacts)
    ensures
        !facts.runtime_dir_exists || !facts.state_dir_exists ==> overall(facts)
            == DoctorStatus::Error,
        facts.runtime_dir_exists && facts.state_dir_exists && (!facts.stdin_tty
            || !facts.stdout_tty || facts.pid is None || !facts.process_runs || !(facts.socket
            is Answered)) ==> overall(facts) == DoctorStatus::Warn,
        facts.runtime_dir_exists && facts.state_dir_exists && (exists|i: int|
            0 <= i < facts.integrations@.len() && (#[trigger] facts.integrations@[i]).state
                is Lacking) ==> overall(facts) == DoctorStatus::Warn,
        facts.runtime_dir_exists && facts.state_dir_exists && facts.stdin_tty && facts.stdout_tty
            && facts.pid is Some && facts.process_runs && facts.socket is Answered && lists(
            facts.installed@,
            "curl"@,
        ) && (forall|i: int|
            0 <= i < facts.integrations@.len() ==> !((#[trigger] facts.integrations@[i]).state
                is Lacking)) ==> overall(facts) == DoctorStatus::Good,
        all_checks(facts).len() == 7 + facts.integrations@.len(),
{
    doctor_findings(facts);
    let checks = all_checks(facts);
    if exists|i: int|
        0 <= i < facts.integrations@.len() && (#[trigger] facts.integrations@[i]).state is Lacking {
        let i = choose|i: int|
            0 <= i < facts.integrations@.len() && (#[trigger] facts.integrations@[i]).state
                is Lacking;
        assert(!checks[7 + i].1);
    }
    if forall|i: int|
        0 <= i < facts.integrations@.len() ==> !((#[trigger] facts.integrations@[i]).state
            is Lacking) {
        assert forall|k: int| 7 <= k < checks.len() implies (#[trigger] checks[k]).1 by {
            assert(!(facts.integrations@[k - 7].state is Lacking));
            assert(checks[7 + (k - 7)].1);
        }
    }
}

proof fn doctor_findings(facts: DoctorFacts)
    ensures
        ({
            let checks = all_checks(facts);
            &&& checks.len() == 7 + facts.integrations@.len()
            &&& checks[0].1 == facts.runtime_dir_exists
            &&& checks[1].1 == facts.state_dir_exists
            &&& checks[2].1 == facts.stdin_tty
            &&& checks[3].1 == facts.stdout_tty
            &&& checks[4].1 == (facts.pid is Some && facts.process_runs)
            &&& checks[5].1 == facts.socket is Answered
            &&& checks[6].1 == has_browser(facts.installed@)
            &&& forall|i: int|
                0 <= i < facts.integrations@.len() ==> checks[7 + i].1 == !((
                #[trigger] facts.integrations@[i]).state is Lacking)
        }),
{
    let base = base_checks(facts);
    let hooks = facts.integrations@;
    let more = Seq::new(
        hooks.len(),
        |i: int| integration_check(hooks[i]),
    );
    let checks = all_checks(facts);
    assert(checks == base + more);
    assert(base.len() == 7);
    assert forall|k: int| 0 <= k < 7 implies checks[k] == #[trigger] base[k] by {}
    assert(base[0].1 == facts.runtime_dir_exists);
    assert(base[1].1 == facts.state_dir_exists);
    assert(base[2].1 == facts.stdin_tty);
    assert(base[3].1 == facts.stdout_tty);
    assert(base[4].1 == (facts.pid is Some && facts.process_runs));
    assert(base[5].1 == facts.socket is Answered);
    assert(base[6].1 == has_browser(facts.installed@));
    assert forall|i: int| 0 <= i < hooks.len() implies checks[7 + i].1 == !((
    #[trigger] hooks[i]).state is Lacking) by {
        assert(checks[7 + i] == more[i]);
    }
}

/// The id of what was made is the one that the answer gives; a refusal and its words are handed
/// on.
pub proof fn answers_give_ids(reply: Reply, r: Result<String, ReplyError>)
    requires
        replied_id(reply, r),
    ensures
        !reply.ok ==> (r matches Err(ReplyError::Refused(e)) && e == reply.error),
        reply.ok && reply.data is None ==> r matches Err(ReplyError::NoData),
        r is Ok ==> reply.ok && reply.data is Some,
{
}

/// The host of a command is the one that is configured; else the user at the host by its file, by
/// the end of the connection that they came by, by its own command, or as the local one.
pub proof fn hosts_are_named(configured: Seq<char>, facts: HostFacts)
    ensures
        !is_blank(configured) ==> ssh_host(configured, facts) == trimmed(configured),
        is_blank(configured) && facts.user is None && facts.hostname_file is None
            && facts.ssh_connection is None && facts.hostname_command is None ==> ssh_host(
            configured,
            facts,
        ) == "user"@ + "@"@ + "localhost"@,
        is_blank(configured) && facts.user is Some && facts.hostname_file is Some && !is_blank(
            facts.hostname_file->0@,
        ) ==> ssh_host(configured, facts) == facts.user->0@ + "@"@ + trimmed(
            facts.hostname_file->0@,
        ),
        is_blank(configured) && facts.user is Some && facts.hostname_file is None
            && facts.ssh_connection is Some && words(facts.ssh_connection->0@).len() >= 3
            ==> ssh_host(configured, facts) == facts.user->0@ + "@"@ + words(
            facts.ssh_connection->0@,
        )[2],
        is_blank(configured) && facts.user is Some && facts.hostname_file is None
            && facts.ssh_connection is None && facts.hostname_command is Some && !is_blank(
            facts.hostname_command->0@,
        ) ==> ssh_host(configured, facts) == facts.user->0@ + "@"@ + trimmed(
            facts.hostname_command->0@,
        ),
{
}

/// A workspace for another host is named and titled after it where no names are given, and shows a
/// terminal.
pub proof fn remote_workspaces(
    plan: WorkspacePlan,
    label: Seq<char>,
    command: Seq<char>,
    direction: SplitDirection,
)
    requires
        plans_terminal(plan, None, None, label, command, direction),
    ensures
        plan.name@ == label,
        opt_text(plan.title) == Some(label),
        plan.command@ == command,
        plan.direction == direction,
        plan.cwd is None,
        plan.surface_kind == Some(SurfaceKind::Terminal),
{
}

} // verus!

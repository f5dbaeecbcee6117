//! Smaller things that are easily mistaken for each other.
use crate::browser::evaluate::{indexed, indexed_field, TEXT_CAP};
use crate::browser::forms::post_words;
use crate::browser::html::ENTITY_CAP;
use crate::browser::network::{failure_text, FETCH_BODY_CAP};
use crate::browser::open::{plan_title, submits, Submission};
use crate::browser::page::{
    after_call, call_preview, calls_in, is_tag_char, method_len, selected_tag, without_dots,
    CallView, Form,
};
use crate::browser::url::{authority_len, host_of, open_words, short_url, with_query};
use crate::cli::commands::{DEFAULT_LIMIT_BYTES, DEFAULT_WAIT_TIMEOUT_SECS};
use crate::cli::doctor::{pid_detail, socket_detail, SocketState};
use crate::cli::hooks::{event_keys, first_field, json_text_field, message_keys};
use crate::cli::logs::{first_feed, LogEnd};
use crate::cli::run::{IMAGE_NAME_ATTEMPTS, MAX_SEND_IMAGE_BYTES};
use crate::cli::select::{distinct_names, home_index};
use crate::cli::smoke::{check_name, following, is_next, SmokeAction, SmokeRun, SmokeStage};
use crate::cli::texts::TAIL_CHUNK;
use crate::daemon::capture::{screen_facts, STORED_SCREEN};
use crate::daemon::dispatch::{found_targets, DispatchError};
use crate::daemon::emulator::{column_bytes, digit_bytes, place_bytes, turn_bytes, HISTORY_ROWS};
use crate::daemon::handlers::{active_pane_of, metadata_noted, workspace_index, KILLED_OUTPUT};
use crate::daemon::live::{run_merged, PaneRuntime, ScreenFacts};
use crate::daemon::output::{cap_osc_tail, flat, shortened_fits, trim_output, OSC_TAIL_CAP};
use crate::daemon::places::{placed, project_files_of, SearchDir};
use crate::daemon::plans::MAX_REQUEST_BYTES;
use crate::daemon::ports::{shows_forward, DetectedPort, ForwardHandle, MAX_GENERATIONS};
use crate::daemon::restart::shows;
use crate::daemon::runtime::active_key;
use crate::daemon::screen::{
    formatted_screen, screen_alternate, screen_cursor, screen_mouse_encoding, screen_mouse_mode,
    screen_size, screen_text,
};
use crate::daemon::session::{
    push_event, repeats_latest, MAX_EVENTS, MAX_MESSAGE, MAX_NOTIFICATIONS,
};
use crate::daemon::snapshot::{
    asked_pane, completed, runtime_kept, Collected, Depth, SCROLLBACK_FORMATTED_ROW_CAP,
};
use crate::daemon::sockets::is_mapped;
use crate::daemon::status::{report_applied, status_of};
use crate::daemon::stream::utf8_lossy;
use crate::daemon::terminal::{alternate_scroll_param, mode_after, param_at, CSI_CAP};
use crate::daemon::titles::{AGENT_INSIDE_TTL_SECS, LLM_TITLE_CONTEXT_CHARS};
use crate::daemon::view_size::{smallest_live, ViewOverride};
use crate::laws::pages::is_host;
use crate::model::{event_views, pane_index, AgentStatus, EventRecord, NoteView, Pane, Session};
use crate::protocol::Request;
use crate::shell::shell_joined;
use crate::text::chars::{
    char_position, char_position_from_is, char_position_from_is_first, is_blank,
    last_char_position_below, lowered, opt_text, position, position_from_is, stands_at, texts,
    trimmed, trimmed_of_solid,
};
use crate::text::numbers::{decimal, decimal_round_trip};
use crate::text::utf8::{byte_len, tail_within, tail_within_fits};
use vstd::prelude::*;

verus! {

proof fn decimal_is_digits(n: nat)
    ensures
        decimal(n).len() > 0,
        forall|i: int| 0 <= i < decimal(n).len() ==> '0' <= #[trigger] decimal(n)[i] <= '9',
    decreases n,
{
    if n >= 10 {
        decimal_is_digits(n / 10);
    }
}

/// Links and forms are counted from one.
pub proof fn places_are_counted_from_one(name: Seq<char>, n: usize)
    ensures
        n >= 1 ==> indexed(name + "["@ + decimal(n as nat) + "]"@, name) == Some(n - 1),
        n == 0 ==> indexed(name + "["@ + decimal(n as nat) + "]"@, name) is None,
{
    reveal_strlit("[");
    reveal_strlit("]");
    let d = decimal(n as nat);
    decimal_is_digits(n as nat);
    decimal_round_trip(n as nat);
    let e = name + "["@ + d + "]"@;
    let k = name.len() as int;
    assert(e.subrange(0, k) =~= name);
    assert(e.skip(k) =~= "["@ + d + "]"@);
    assert(e.skip(k).subrange(0, 1) =~= "["@);
    let rest = e.skip(k).skip(1);
    assert(rest =~= d + "]"@);
    assert forall|i: int| 0 <= i < d.len() implies rest[i] != ']' by {
        assert(rest[i] == d[i]);
    }
    assert(rest[d.len() as int] == ']');
    char_position_from_is(rest, ']', 0, d.len() as int);
    assert(rest.take(d.len() as int) =~= d);
    assert(rest.skip(d.len() as int + 1).len() == 0);
    trimmed_of_solid(d);
}

/// A field of a link or a form stands behind a dot.
pub proof fn fields_stand_behind_dots(name: Seq<char>, n: usize, field: Seq<char>)
    requires
        n >= 1,
        field.len() > 0,
        trimmed(field) == field,
    ensures
        indexed_field(name + "["@ + decimal(n as nat) + "]."@ + field, name) == Some(
            (n - 1, field),
        ),
{
    reveal_strlit("[");
    reveal_strlit("].");
    let d = decimal(n as nat);
    decimal_is_digits(n as nat);
    decimal_round_trip(n as nat);
    let e = name + "["@ + d + "]."@ + field;
    let k = name.len() as int;
    assert(e.subrange(0, k) =~= name);
    assert(e.skip(k) =~= "["@ + d + "]."@ + field);
    assert(e.skip(k).subrange(0, 1) =~= "["@);
    let rest = e.skip(k).skip(1);
    assert(rest =~= d + "]."@ + field);
    let p = d.len() as int;
    assert(rest.subrange(p, p + 2) =~= "]."@);
    assert forall|i: int| 0 <= i < p implies !stands_at(rest, "]."@, i) by {
        assert(rest[i] == d[i]);
        if i + 2 <= rest.len() {
            assert(rest.subrange(i, i + 2)[0] == rest[i]);
        }
    }
    position_from_is(rest, "]."@, 0, p);
    assert(rest.take(p) =~= d);
    assert(rest.skip(p + 2) =~= field);
    trimmed_of_solid(d);
}

/// A fetch that failed without a word says that it failed.
pub proof fn silent_failures_are_told(stderr: Seq<u8>)
    ensures
        trimmed(utf8_lossy(stderr)).len() == 0 ==> failure_text(stderr)
            == "curl failed"@,
        trimmed(utf8_lossy(stderr)).len() > 0 ==> failure_text(stderr)
            == trimmed(utf8_lossy(stderr)),
{
}

/// A page's pane has the title that was given, or its mark and its host.
pub proof fn pages_have_titles(given: Seq<char>, mark: Seq<char>, url: Seq<char>)
    ensures
        plan_title(Some(given), mark, url) == given,
        plan_title(None, mark, url) == mark + short_url(url),
{
}

/// A call in a script is its method and the end of its text up to the semicolon, five hundred
/// bytes of it; the calls come in their order.
pub proof fn calls_are_shown(before: Seq<char>, rest: Seq<char>)
    requires
        position(before + "console."@ + rest, "console."@) == Some(before.len() as int),
    ensures
        method_len(rest) > 0 ==> calls_in(before + "console."@ + rest) == seq![
            CallView {
                method: rest.take(method_len(rest)),
                preview: tail_within(call_preview(rest), 500),
            },
        ] + calls_in(after_call(rest)),
        method_len(rest) == 0 ==> calls_in(before + "console."@ + rest) == calls_in(rest),
        char_position(rest, ';') is None ==> call_preview(rest) == trimmed(rest),
        char_position(rest, ';') matches Some(e) ==> call_preview(rest) == trimmed(rest.take(e)),
{
    reveal_strlit("console.");
    let s = before + "console."@ + rest;
    assert(s.skip(before.len() as int + 8) =~= rest);
}

/// A selector names a tag; dots before it do not count.
pub proof fn selectors_name_tags(tag: Seq<char>)
    requires
        tag.len() > 0,
        forall|i: int| 0 <= i < tag.len() ==> is_tag_char(#[trigger] tag[i]),
    ensures
        selected_tag(tag) == Some(tag),
        selected_tag(seq!['.'] + tag) == Some(tag),
        selected_tag(seq!['#'] + tag) is None,
{
    assert(is_tag_char(tag[0]));
    assert(is_tag_char(tag[tag.len() - 1]));
    trimmed_of_solid(tag);
    let dotted = seq!['.'] + tag;
    let marked = seq!['#'] + tag;
    assert(dotted.last() == tag[tag.len() - 1]);
    assert(marked.last() == tag[tag.len() - 1]);
    trimmed_of_solid(dotted);
    trimmed_of_solid(marked);
    assert(dotted.drop_first() =~= tag);
    assert(dotted[0] == '.');
    assert(marked[0] == '#');
    reveal_with_fuel(without_dots, 2);
}

/// The keys under which a hook names its event and its message, in the order in which they are
/// looked for; the first that is there counts.
pub proof fn hooks_name_events_and_messages(json: Seq<char>, text: Seq<char>)
    ensures
        event_keys() == seq!["hook_event_name"@, "hookEventName"@, "event"@, "hook_event"@],
        message_keys() == seq!["message"@, "summary"@, "reason"@, "error"@],
        json_text_field(json, "message"@) == Some(text) && trimmed(text).len() > 0 ==> first_field(
            json,
            message_keys(),
        ) == Some(trimmed(text)),
        json_text_field(json, "message"@) is None && json_text_field(json, "summary"@) == Some(text)
            && trimmed(text).len() > 0 ==> first_field(json, message_keys()) == Some(trimmed(text)),
{
    let keys = message_keys();
    assert(keys[0] == "message"@);
    assert(keys.drop_first()[0] == "summary"@);
    reveal_with_fuel(first_field, 3);
}

/// The part of a log that was read begins with a whole line: what stands before the first line
/// feed is left out, unless the whole log was read.
pub proof fn logs_begin_with_whole_lines(end: LogEnd, line: Seq<u8>, rest: Seq<u8>)
    requires
        forall|i: int| 0 <= i < line.len() ==> #[trigger] line[i] != 10u8,
    ensures
        end.pos == 0 ==> end.whole_lines() == end.read@,
        end.pos > 0 && end.read@ == line.push(10u8) + rest ==> end.whole_lines() == rest,
        end.pos > 0 && end.read@ == line ==> end.whole_lines() == line,
{
    feed_is_first(line, rest);
    let s = line.push(10u8) + rest;
    assert(s.skip(line.len() as int + 1) =~= rest);
    no_feed(line);
}

proof fn feed_is_first(line: Seq<u8>, rest: Seq<u8>)
    requires
        forall|i: int| 0 <= i < line.len() ==> #[trigger] line[i] != 10u8,
    ensures
        first_feed(line.push(10u8) + rest) == line.len(),
    decreases line.len(),
{
    let s = line.push(10u8) + rest;
    if line.len() > 0 {
        assert(s[0] == line[0]);
        let more = line.drop_first();
        assert(s.drop_first() =~= more.push(10u8) + rest);
        assert forall|i: int| 0 <= i < more.len() implies #[trigger] more[i] != 10u8 by {
            assert(more[i] == line[i + 1]);
        }
        feed_is_first(more, rest);
    } else {
        assert(s[0] == 10u8);
    }
}

proof fn no_feed(line: Seq<u8>)
    requires
        forall|i: int| 0 <= i < line.len() ==> #[trigger] line[i] != 10u8,
    ensures
        first_feed(line) == line.len(),
    decreases line.len(),
{
    if line.len() > 0 {
        let more = line.drop_first();
        assert forall|i: int| 0 <= i < more.len() implies #[trigger] more[i] != 10u8 by {
            assert(more[i] == line[i + 1]);
        }
        no_feed(more);
    }
}

/// What a screen says besides its text is the place of its cursor and its size, rows before
/// columns, and the modes that its program asked for.
pub proof fn screens_say_rows_and_columns(screen: &vt100::Screen, r: ScreenFacts)
    requires
        call_ensures(screen_facts, (screen,), r),
    ensures
        (r.cursor_row, r.cursor_col) == screen_cursor(*screen),
        (r.rows, r.cols) == screen_size(*screen),
        r.mouse_mode == screen_mouse_mode(*screen),
        r.mouse_encoding == screen_mouse_encoding(*screen),
        r.alternate_screen == screen_alternate(*screen),
{
}

/// A request for all panes is for every pane, whatever workspace it names.
pub proof fn all_means_every_pane(
    session: Session,
    pane: Option<Seq<char>>,
    workspace: Option<Seq<char>>,
    r: Result<Vec<String>, DispatchError>,
    i: int,
)
    requires
        found_targets(session, pane, workspace, true, r),
        0 <= i < session.panes@.len(),
    ensures
        r matches Ok(ids) && ids@.len() == session.panes@.len() && ids@[i]@
            == session.panes@[i].id@,
{
    let ids = r->Ok_0;
    assert(r is Ok);
    assert(texts(ids@)[i] == session.panes@[i].id@);
    assert(texts(ids@).len() == session.panes@.len());
}

/// A place on a screen is named by its row and its column, counted from one: `ESC [` row `d`,
/// `ESC [` column `G`. A column is swept from the top row to the last.
pub proof fn places_are_rows_and_columns(row: nat, col: nat)
    ensures
        place_bytes(row, col) == seq![27u8, '[' as u8] + digit_bytes(row + 1) + seq![
            'd' as u8,
            27u8,
            '[' as u8,
        ] + digit_bytes(col + 1) + seq!['G' as u8],
        column_bytes(row + 1, col) == column_bytes(row, col) + place_bytes(row, col) + seq![
            27u8,
            '[' as u8,
            'X' as u8,
        ],
        column_bytes(0, col).len() == 0,
{
}

/// The other screen is left or entered with mode 47: `l` leaves the program's own screen, `h`
/// enters it.
pub proof fn screens_are_turned()
    ensures
        turn_bytes(true) == seq![27u8, '[' as u8, '?' as u8, '4' as u8, '7' as u8, 'l' as u8],
        turn_bytes(false) == seq![27u8, '[' as u8, '?' as u8, '4' as u8, '7' as u8, 'h' as u8],
{
    assert(turn_bytes(true) =~= seq![
        27u8,
        '[' as u8,
        '?' as u8,
        '4' as u8,
        '7' as u8,
        'l' as u8,
    ]);
    assert(turn_bytes(false) =~= seq![
        27u8,
        '[' as u8,
        '?' as u8,
        '4' as u8,
        '7' as u8,
        'h' as u8,
    ]);
}

/// What a run that is shown says at once is taken over by its pane; texts and titles stay. A run
/// that is hidden leaves what the pane shows alone.
pub proof fn shown_runs_are_heard_at_once(before: Pane, after: Pane, key: Seq<char>, light: Pane)
    requires
        run_merged(before, after, key, light),
    ensures
        key == active_key(before) ==> after.agent_status == light.agent_status && after.status
            == light.status && after.notification_message == light.notification_message
            && after.notification_color == light.notification_color && after.progress
            == light.progress && after.updated_at == light.updated_at && after.cursor_row
            == light.cursor_row && after.cursor_col == light.cursor_col && after.screen_rows
            == light.screen_rows && after.screen_cols == light.screen_cols,
        key == active_key(before) ==> after.output == before.output && after.title == before.title
            && after.tabs == before.tabs && after.scrollback == before.scrollback,
        key != active_key(before) ==> after.agent_status == before.agent_status && after.status
            == before.status && after.output == before.output && after.updated_at
            == before.updated_at,
{
}

/// A port with a forward is shown with it, and says that it goes through Tailscale.
pub proof fn forwards_are_shown(
    shown: DetectedPort,
    known: DetectedPort,
    forwards: Map<u16, ForwardHandle>,
    port: u16,
)
    requires
        shows_forward(shown, known, forwards, port),
    ensures
        !forwards.contains_key(port) ==> shown == known,
        forwards.contains_key(port) ==> (shown.forward matches Some(f) && f.via@ == "tailscale"@
            && f.url == forwards[port].url),
        shown.port == known.port && shown.host == known.host && shown.pane == known.pane,
{
}

/// An address is an IPv4 one in the form of an IPv6 one where ten bytes of nought and two of ones
/// stand before it.
pub proof fn mapped_addresses_are_told(b: Seq<int>)
    requires
        b.len() == 16,
    ensures
        is_mapped(b) <==> b.take(12) == seq![
            0int,
            0int,
            0int,
            0int,
            0int,
            0int,
            0int,
            0int,
            0int,
            0int,
            255int,
            255int,
        ],
{
    let head = seq![
        0int,
        0int,
        0int,
        0int,
        0int,
        0int,
        0int,
        0int,
        0int,
        0int,
        255int,
        255int,
    ];
    if is_mapped(b) {
        assert(b.take(12) =~= head);
    }
    if b.take(12) == head {
        assert forall|i: int| 0 <= i < 10 implies #[trigger] b[i] == 0 by {
            assert(b.take(12)[i] == head[i]);
        }
        assert(b[10] == b.take(12)[10]);
        assert(b[11] == b.take(12)[11]);
    }
}

/// A pane that was started again shows what was collected of it, and keeps of its history what
/// fits.
pub proof fn restarted_panes_show_what_was_collected(pane: Pane, c: Collected, cap: usize)
    requires
        shows(pane, c, cap),
    ensures
        c.output matches Some(t) ==> pane.output@ == t.contents@ && pane.output_formatted@
            == t.formatted@ && pane.scrollback@ == tail_within(t.raw@, cap as int)
            && pane.scrollback_formatted@ == t.scrollback_formatted@,
{
}

/// A note repeats the newest one about the same pane and workspace where it says the same in the
/// same colour and status, and only then.
pub proof fn repeats_are_of_the_newest(feed: Seq<NoteView>, note: NoteView, i: int)
    requires
        !note.clear,
        0 <= i < feed.len(),
        feed[i].pane == note.pane,
        feed[i].workspace == note.workspace,
        forall|j: int|
            i < j < feed.len() ==> (#[trigger] feed[j]).pane != note.pane || feed[j].workspace
                != note.workspace,
    ensures
        repeats_latest(feed, note) <==> !feed[i].clear && feed[i].status == note.status
            && feed[i].color == note.color && feed[i].message == note.message,
    decreases feed.len(),
{
    if i < feed.len() - 1 {
        let shorter = feed.drop_last();
        assert(feed.last() == feed[feed.len() - 1]);
        assert forall|j: int| i < j < shorter.len() implies (#[trigger] shorter[j]).pane
            != note.pane || shorter[j].workspace != note.workspace by {
            assert(shorter[j] == feed[j]);
        }
        repeats_are_of_the_newest(shorter, note, i);
    }
}

/// The stages of a run of checks follow each other in this order, and each is told by its name.
pub proof fn stages_follow_each_other()
    ensures
        following(SmokeStage::Start) is Ping && check_name(SmokeStage::Start) == "daemon-running"@,
        following(SmokeStage::Ping) is NewPane && check_name(SmokeStage::Ping) == "socket-ping"@,
        following(SmokeStage::NewPane) is WaitPane && check_name(SmokeStage::NewPane)
            == "new-pane"@,
        following(SmokeStage::WaitPane) is ReadScreen && check_name(SmokeStage::WaitPane)
            == "wait-pane"@,
        following(SmokeStage::ReadScreen) is Notify && check_name(SmokeStage::ReadScreen)
            == "read-screen-output"@,
        following(SmokeStage::Notify) is Snapshot && check_name(SmokeStage::Notify) == "notify"@,
        following(SmokeStage::Snapshot) is LivePane && check_name(SmokeStage::Snapshot)
            == "snapshot-notification"@,
        following(SmokeStage::LivePane) is LiveOutput && check_name(SmokeStage::LivePane)
            == "live-pane"@,
        following(SmokeStage::LiveOutput) is Metadata && check_name(SmokeStage::LiveOutput)
            == "live-pane-output"@,
        following(SmokeStage::Metadata) is Identify && check_name(SmokeStage::Metadata)
            == "metadata-set"@,
        following(SmokeStage::Identify) is Events && check_name(SmokeStage::Identify)
            == "metadata-identify"@,
        following(SmokeStage::Events) is Follow && check_name(SmokeStage::Events)
            == "events-notification"@,
        following(SmokeStage::Follow) is HangUp && check_name(SmokeStage::Follow)
            == "events-follow"@,
        following(SmokeStage::HangUp) is Survives,
        following(SmokeStage::Survives) is LiveAfterHangUp && check_name(SmokeStage::Survives)
            == "daemon-survives-sighup"@,
        following(SmokeStage::LiveAfterHangUp) is NewTab && check_name(SmokeStage::LiveAfterHangUp)
            == "live-pane-after-sighup"@,
        following(SmokeStage::NewTab) is TabOutput && check_name(SmokeStage::NewTab)
            == "workspace-tab-add"@,
        following(SmokeStage::TabOutput) is SwitchBase && check_name(SmokeStage::TabOutput)
            == "workspace-tab-active-output"@,
        following(SmokeStage::SwitchBase) is BaseOutput && check_name(SmokeStage::SwitchBase)
            == "workspace-tab-switch-base"@,
        following(SmokeStage::BaseOutput) is LateOutput && check_name(SmokeStage::BaseOutput)
            == "workspace-tab-base-output"@,
        following(SmokeStage::LateOutput) is SwitchBack && check_name(SmokeStage::LateOutput)
            == "workspace-tab-inactive-output"@,
        following(SmokeStage::SwitchBack) is RestoredOutput && check_name(SmokeStage::SwitchBack)
            == "workspace-tab-switch-back"@,
        following(SmokeStage::RestoredOutput) is RestoreBase && check_name(
            SmokeStage::RestoredOutput,
        ) == "workspace-tab-restored-output"@,
        following(SmokeStage::RestoreBase) is Attach && check_name(SmokeStage::RestoreBase)
            == "workspace-tab-restore-base"@,
        following(SmokeStage::Attach) is Files && check_name(SmokeStage::Attach)
            == "attach-pty-render"@,
        following(SmokeStage::Files) is Stop,
        following(SmokeStage::Stop) is Restart && check_name(SmokeStage::Stop)
            == "shutdown-before-restore"@,
        following(SmokeStage::Restart) is RestartPing && check_name(SmokeStage::Restart)
            == "restart-daemon"@,
        following(SmokeStage::RestartPing) is RestoredPane && check_name(SmokeStage::RestartPing)
            == "restart-socket-ping"@,
        following(SmokeStage::RestoredPane) is FinalStop && check_name(SmokeStage::RestoredPane)
            == "restore-pane-output"@,
        following(SmokeStage::FinalStop) is Over && check_name(SmokeStage::FinalStop)
            == "shutdown-after-restore"@,
{
}

proof fn all_of_the_authority(s: Seq<char>)
    requires
        forall|i: int| 0 <= i < s.len() ==> #[trigger] s[i] != '/' && s[i] != '?' && s[i] != '#',
    ensures
        authority_len(s) == s.len(),
    decreases s.len(),
{
    if s.len() > 0 {
        let more = s.drop_first();
        assert forall|i: int| 0 <= i < more.len() implies #[trigger] more[i] != '/' && more[i]
            != '?' && more[i] != '#' by {
            assert(more[i] == s[i + 1]);
        }
        all_of_the_authority(more);
    }
}

proof fn nowhere(s: Seq<char>, c: char, end: int)
    requires
        end <= s.len(),
        forall|i: int| 0 <= i < s.len() ==> #[trigger] s[i] != c,
    ensures
        last_char_position_below(s, c, end) is None,
    decreases end,
{
    if end > 0 {
        nowhere(s, c, end - 1);
    }
}

/// The port of an address is no part of its host.
pub proof fn ports_are_no_part_of_hosts(host: Seq<char>, port: Seq<char>)
    requires
        is_host(host),
        is_host(port),
    ensures
        host_of(host) == host,
        host_of(host + ":"@ + port) == host,
{
    reveal_strlit(":");
    let s = host + ":"@ + port;
    assert forall|i: int| 0 <= i < s.len() implies #[trigger] s[i] != '/' && s[i] != '?' && s[i]
        != '#' && s[i] != '@' by {
        if i < host.len() {
            assert(s[i] == host[i]);
        } else if i > host.len() {
            assert(s[i] == port[i - host.len() - 1]);
        }
    }
    all_of_the_authority(s);
    all_of_the_authority(host);
    assert(s.take(s.len() as int) =~= s);
    assert(host.take(host.len() as int) =~= host);
    nowhere(s, '@', s.len() as int);
    nowhere(host, '@', host.len() as int);
    let n = host.len() as int;
    assert forall|i: int| 0 <= i < n implies s[i] != ':' by {
        assert(s[i] == host[i]);
    }
    assert(s[n] == ':');
    char_position_from_is(s, ':', 0, n);
    assert(s.take(n) =~= host);
    char_position_from_is_first(host, ':', 0);
    assert(char_position(host, ':') is None) by {
        if let Some(p) = char_position(host, ':') {
            assert(host[p] == ':');
        }
    }
}

/// A mode is turned on by its own number alone: a number that only holds it is another mode.
pub proof fn longer_numbers_are_other_modes(was: bool, list: Seq<u8>, last: u8)
    requires
        forall|i: int| 0 <= i < list.len() ==> #[trigger] list[i] != 59u8,
        list != alternate_scroll_param(),
    ensures
        mode_after(was, seq![63u8] + list, last) == was,
{
    let csi = seq![63u8] + list;
    assert(csi.skip(1) =~= list);
    let param = alternate_scroll_param();
    assert forall|i: int| !param_at(list, param, i) by {
        if param_at(list, param, i) {
            if i > 0 {
                assert(list[i - 1] == 59u8);
            }
            if i + param.len() < list.len() {
                assert(list[i + param.len()] == 59u8);
            }
            assert(list.subrange(0, list.len() as int) =~= list);
        }
    }
}

/// A report with a word that is no status leaves it open what the agent does, and puts its words
/// up where it has any.
pub proof fn unknown_reports_are_put_up(
    before: Pane,
    after: Pane,
    word: Seq<char>,
    color: Option<Seq<char>>,
    message: Seq<char>,
    now: u64,
)
    requires
        report_applied(before, after, word, color, message, now),
        status_of(word) == AgentStatus::Unknown,
    ensures
        after.agent_status == AgentStatus::Unknown,
        message.len() > 0 ==> opt_text(after.notification_message) == Some(message),
        message.len() == 0 ==> opt_text(after.notification_message) == opt_text(
            before.notification_message,
        ),
        opt_text(after.notification_color) == color,
{
}

/// What is asked of no pane is asked of the active one.
pub proof fn the_active_pane_is_asked(session: Session, pane: Seq<char>)
    ensures
        asked_pane(session, Some(pane)) == Some(pane),
        asked_pane(session, None) == active_pane_of(session),
{
}

/// What is noted of a pane is logged with its key and its value.
pub proof fn notes_of_panes_are_logged(
    before: Session,
    after: Session,
    pane: Seq<char>,
    key: Seq<char>,
    value: Seq<char>,
    now: u64,
)
    requires
        metadata_noted(before, after, pane, key, Some(value), now),
        !is_blank(value),
    ensures
        ({
            let log = event_views(after.events@);
            &&& log.len() > 0
            &&& log.last().kind == "metadata"@
            &&& log.last().pane == Some(pane)
            &&& log.last().key == Some(trimmed(key))
            &&& log.last().value == Some(trimmed(value))
            &&& log.last().time == now
        }),
{
}

/// A form is sent as it says: its values stand in the address, or in what is posted to it.
pub proof fn forms_are_sent_as_they_say(
    form: Form,
    fields: Seq<(String, String)>,
    title: Option<Seq<char>>,
    installed: Seq<String>,
    s: Submission,
)
    requires
        submits(form, fields, title, installed, s),
    ensures
        lowered(form.method@) == "get"@ || lowered(form.method@) == "post"@,
        lowered(form.method@) == "get"@ ==> s.target@ == with_query(form.action@, s.values@)
            && s.plan.command@ == shell_joined(open_words(s.target@, installed)),
        lowered(form.method@) == "post"@ ==> s.plan.command@ == shell_joined(
            post_words(form.action@, s.values@),
        ),
        title matches Some(t) ==> s.plan.title@ == t,
        title is None ==> s.plan.title@ == "form:"@ + short_url(form.action@),
{
    reveal_strlit("get");
    reveal_strlit("post");
    assert("get"@.len() != "post"@.len());
}

/// What a run of checks asks for is asked of the pane that it made for it.
pub proof fn checks_ask_their_own_panes(run: SmokeRun, action: SmokeAction)
    requires
        is_next(run, action),
    ensures
        run.stage is WaitPane ==> (action matches SmokeAction::Ask(
            Request::WaitPane { pane, workspace, all, timeout_ms },
        ) && opt_text(pane) == Some(run.pane@) && !all),
        run.stage is ReadScreen ==> (action matches SmokeAction::Ask(
            Request::ReadScreen { pane, scrollback, limit_bytes, ansi, history_lines },
        ) && opt_text(pane) == Some(run.pane@) && scrollback && !ansi),
        run.stage is Metadata ==> (action matches SmokeAction::Ask(
            Request::SetPaneMetadata { pane, key, value },
        ) && opt_text(pane) == Some(run.live_pane@) && key@ == "task"@ && opt_text(value) == Some(
            "smoke-agent"@,
        )),
        run.stage is Identify ==> (action matches SmokeAction::Ask(Request::Identify { pane })
            && opt_text(pane) == Some(run.live_pane@)),
        run.stage is TabOutput ==> (action matches SmokeAction::Watch { pane, needle, attempts }
            && pane@ == run.tab_pane@ && needle@ == "vmux-tab-start"@),
        run.stage is LateOutput || run.stage is RestoredOutput ==> (
        action matches SmokeAction::Watch { pane, needle, attempts } && pane@ == run.tab_pane@
            && needle@ == "vmux-tab-late"@),
        run.stage is LiveOutput || run.stage is RestoredPane ==> (
        action matches SmokeAction::Watch { pane, needle, attempts } && pane@ == run.live_pane@
            && needle@ == "vmux-live"@),
        run.stage is SwitchBack ==> (action matches SmokeAction::Ask(
            Request::SwitchTab { workspace, tab },
        ) && tab@ == run.tab@),
        run.stage is SwitchBase || run.stage is RestoreBase ==> (action matches SmokeAction::Ask(
            Request::SwitchTab { workspace, tab },
        ) && tab@ == "tab-1"@),
        run.stage is Stop || run.stage is FinalStop ==> action is ShutDown,
{
}

/// What a look at the daemon says of its process and its socket.
pub proof fn daemons_are_described(pid: u32, why: String)
    ensures
        pid_detail(Some(pid), true) == "pid "@ + decimal(pid as nat) + " running="@ + "true"@,
        pid_detail(Some(pid), false) == "pid "@ + decimal(pid as nat) + " running="@ + "false"@,
        pid_detail(None, true) == "no pid file for this session"@,
        socket_detail(SocketState::Absent) == "no socket file for this session"@,
        socket_detail(SocketState::Unreachable(why)) == "socket exists but is not reachable: "@
            + why@,
        socket_detail(SocketState::Refused(Some(why))) == why@,
        socket_detail(SocketState::Answered) == "socket responded to ping"@,
{
}

/// The size of several views is the least height and the least width among the leases that still
/// run; without any there is none.
pub proof fn the_smallest_view_counts(overrides: Seq<ViewOverride>, now: u64, i: int)
    ensures
        0 <= i < overrides.len() && overrides[i].expires_at > now ==> (smallest_live(
            overrides,
            now,
        ) matches Some(s) && s.rows <= overrides[i].size.rows && s.cols <= overrides[i].size.cols),
        (forall|k: int| 0 <= k < overrides.len() ==> (#[trigger] overrides[k]).expires_at <= now)
            ==> smallest_live(overrides, now) is None,
        smallest_live(overrides, now) matches Some(s) ==> exists|k: int|
            0 <= k < overrides.len() && (#[trigger] overrides[k]).expires_at > now
                && overrides[k].size.rows == s.rows,
        smallest_live(overrides, now) matches Some(s) ==> exists|k: int|
            0 <= k < overrides.len() && (#[trigger] overrides[k]).expires_at > now
                && overrides[k].size.cols == s.cols,
    decreases overrides.len(),
{
    if overrides.len() > 0 {
        let shorter = overrides.drop_last();
        the_smallest_view_counts(shorter, now, i);
        assert(overrides[overrides.len() - 1] == overrides.last());
        assert forall|k: int| 0 <= k < shorter.len() implies shorter[k] == overrides[k] by {}
        if let Some(s) = smallest_live(shorter, now) {
            let a = choose|k: int|
                0 <= k < shorter.len() && (#[trigger] shorter[k]).expires_at > now
                    && shorter[k].size.rows == s.rows;
            let b = choose|k: int|
                0 <= k < shorter.len() && (#[trigger] shorter[k]).expires_at > now
                    && shorter[k].size.cols == s.cols;
            assert(overrides[a].size.rows == s.rows);
            assert(overrides[b].size.cols == s.cols);
        }
    }
}

/// The files of a project are looked for from its directory upwards, `vmux.json` before
/// `.vmux.json`; not in a directory where anyone can leave a file, nor beyond it, and not beyond
/// the home.
pub proof fn projects_are_looked_for_upwards(
    dirs: Seq<SearchDir>,
    home: Option<Seq<char>>,
    i: int,
    k: int,
)
    requires
        0 <= i < dirs.len(),
        0 <= k <= i,
    ensures
        (forall|j: int| 0 <= j <= i ==> !(#[trigger] dirs[j]).shared) && (forall|j: int|
            0 <= j < i ==> home != Some((#[trigger] dirs[j]).path@)) ==> project_files_of(
            dirs,
            home,
            i + 1,
        ) == project_files_of(dirs, home, i) + seq![
            placed(dirs[i].path@, "vmux.json"@),
            placed(dirs[i].path@, ".vmux.json"@),
        ],
        dirs[k].shared ==> project_files_of(dirs, home, i + 1) == project_files_of(dirs, home, i),
        k < i && home == Some(dirs[k].path@) ==> project_files_of(dirs, home, i + 1)
            == project_files_of(dirs, home, i),
        project_files_of(dirs, home, 0).len() == 0,
{
}

/// What was collected of a pane completes it: its texts where they were collected, of its history
/// what fits, and else the texts that the session has of it.
pub proof fn collected_texts_complete_the_pane(c: Collected, panes: Seq<Pane>, cap: usize, run: Pane)
    requires
        completed(c, panes, cap, run),
    ensures
        run.id == c.pane.id && run.title == c.pane.title && run.status == c.pane.status
            && run.agent_status == c.pane.agent_status,
        c.output matches Some(t) ==> run.output@ == t.contents@ && run.output_formatted@
            == t.formatted@ && run.scrollback@ == tail_within(t.raw@, cap as int)
            && run.scrollback_formatted@ == t.scrollback_formatted@,
        c.output is None ==> (pane_index(panes, c.pane.id@) matches Some(i) ==> run.output
            == panes[i].output && run.scrollback == panes[i].scrollback),
{
}

/// A full look at a run keeps its texts with it: what the screen shows, plain and with colours,
/// and of its output what fits. Another look changes nothing.
pub proof fn full_looks_keep_the_texts(
    before: PaneRuntime,
    after: PaneRuntime,
    screen: vt100::Screen,
    depth: Depth,
)
    requires
        runtime_kept(before, after, screen, depth),
    ensures
        depth != Depth::Full ==> after == before,
        depth == Depth::Full ==> after.pane.output@ == screen_text(screen)
            && after.pane.output_formatted@ == formatted_screen(screen) && after.pane.scrollback@
            == tail_within(flat(texts(before.output@)), before.scrollback_cap as int)
            && after.pane.title == before.pane.title && after.pane.status == before.pane.status
            && after.output == before.output && after.terminal == before.terminal,
{
}

/// The workspace from which one goes on is the active one, or the first where it is not there; the
/// agents of a team are named once each, and not by blank names.
pub proof fn one_goes_on_from_the_active_workspace(
    session: Session,
    names: Seq<Seq<char>>,
    n: Seq<char>,
)
    ensures
        workspace_index(session.workspaces@, session.active_workspace@) matches Some(i)
            ==> home_index(session) == i,
        workspace_index(session.workspaces@, session.active_workspace@) is None ==> home_index(
            session,
        ) == 0,
        trimmed(n).len() == 0 || distinct_names(names).contains(trimmed(n)) ==> distinct_names(
            names.push(n),
        ) == distinct_names(names),
        trimmed(n).len() > 0 && !distinct_names(names).contains(trimmed(n)) ==> distinct_names(
            names.push(n),
        ) == distinct_names(names).push(trimmed(n)),
{
    assert(names.push(n).drop_last() =~= names);
}

/// The limits: of what is kept of an unfinished sequence, of a request, of the texts of panes and
/// pages, of the log and the feed, of images and of waits.
pub proof fn limits_are_these()
    ensures
        OSC_TAIL_CAP == 8 * 1024,
        CSI_CAP == 64,
        MAX_REQUEST_BYTES == 16 * 1024 * 1024,
        STORED_SCREEN == 16_000 && KILLED_OUTPUT == 16_000 && DEFAULT_LIMIT_BYTES == 16_000,
        HISTORY_ROWS == 2_000 && SCROLLBACK_FORMATTED_ROW_CAP == 500,
        MAX_MESSAGE == 4 * 1024 && MAX_EVENTS == 500 && MAX_NOTIFICATIONS == 100,
        FETCH_BODY_CAP == 2 * 1024 * 1024 && TEXT_CAP == 32_000 && ENTITY_CAP == 16,
        TAIL_CHUNK == 8 * 1024,
        MAX_SEND_IMAGE_BYTES == 32 * 1024 * 1024 && IMAGE_NAME_ATTEMPTS == 8,
        DEFAULT_WAIT_TIMEOUT_SECS == 5 * 60,
        AGENT_INSIDE_TTL_SECS == 5 && LLM_TITLE_CONTEXT_CHARS == 2_000,
        MAX_GENERATIONS == 64,
{
}

/// The message of an event is what was said, cut to four kibibytes.
pub proof fn messages_of_events_are_cut(session: &mut Session, event: EventRecord)
    requires
        call_ensures(push_event, (session, event), ()),
    ensures
        byte_len(event_views(final(session).events@).last().message) <= 4096,
        byte_len(event.message@) <= 4096 ==> event_views(final(session).events@).last().message
            == event.message@,
{
    shortened_fits(event.message@, 4096);
}

/// What is kept of a sequence that is not finished is its end.
pub proof fn unfinished_sequences_keep_their_end(tail: &mut String)
    requires
        call_ensures(cap_osc_tail, (tail,), ()),
    ensures
        byte_len(final(tail)@) <= 8192,
        final(tail)@ == old(tail)@.skip(old(tail)@.len() - final(tail)@.len()),
        byte_len(old(tail)@) <= 8192 ==> final(tail)@ == old(tail)@,
{
    tail_within_fits(old(tail)@, 8192);
}

/// What is kept of a long text is its end.
pub proof fn long_texts_keep_their_end(text: String, max: usize, r: String)
    requires
        call_ensures(trim_output, (text, max), r),
    ensures
        byte_len(r@) <= max,
        r@.len() <= text@.len() && r@ == text@.skip(text@.len() - r@.len()),
        byte_len(text@) <= max ==> r@ == text@,
        r@.len() < text@.len() ==> byte_len(text@.skip(text@.len() - r@.len() - 1)) > max,
{
    tail_within_fits(text@, max as int);
}

} // verus!

//! A pane while its process runs: what its output changes, and what its end does.
use crate::daemon::capture::{facts_of, screen_facts};
use crate::daemon::dispatch::{bumped, touch, Daemon};
use crate::daemon::emulator::{
    fed, feed, fitted, is_terminal_size, made, new_terminal, resize_terminal, screen_of, shown,
    Emulator, HISTORY_ROWS, MAX_COLS,
};
use crate::daemon::osc::{events_of, osc_open, osc_payloads, take_osc_events, OscEvents};
use crate::daemon::output::{
    cap_osc_tail, push_bounded_output, total_bytes, within_budget, OSC_TAIL_CAP,
};
use crate::daemon::panes::{sync_tab_from_runtime_pane, tabs_mirroring};
use crate::daemon::runtime::{
    active_key, key_tab, runtime_key_is_active_for_pane, runtime_key_tab, sane, sanitize_pane_size,
};
use crate::daemon::screen::{is_whole, screen_size};
use crate::daemon::session::{logged, next_id, note_event, push_event, MAX_NOTIFICATIONS};
use crate::daemon::status::{
    is_completion_notice, is_feed_worthy, is_idle_notice, is_non_actionable_attention,
    should_record_in_notification_feed,
};
use crate::daemon::stream::{decode_utf8_stream, stream_rest, stream_text};
use crate::daemon::terminal::{
    alternate_scroll_on, mouse_encoding_name, mouse_mode_name, update_pane_terminal_modes,
    ModeModel, MouseProtocolEncoding, MouseProtocolMode, TerminalModeScanState,
    TerminalModeTracker,
};
use crate::model::{
    clone_metadata, clone_tabs, event_views, find_pane, notes, pane_index, touch_agent_status,
    AgentStatus, EventRecord, EventView, NoteView, Notification, Pane, PaneSize, PaneStatus,
    Session,
};
use crate::text::chars::{clone_opt, keep_newest, newest, opt_text, texts};
use crate::text::utf8::{byte_len, tail_within};
use std::collections::VecDeque;
use vstd::prelude::*;

verus! {

/// Whether a tab still waits for a title by the summarizer.
#[derive(Debug, Clone, Copy, PartialEq, Eq, Structural)]
pub enum LlmTitleState {
    Pending,
    Done,
}

/// The size that a viewer of one pane holds, and when its lease ends, in milliseconds.
#[derive(Debug, Clone, Copy, PartialEq, Eq, Structural)]
pub struct ViewLease {
    pub size: PaneSize,
    pub expires_at: u64,
}

/// A running pane.
pub struct PaneRuntime {
    /// Tells this run of the pane from others.
    pub generation: u64,
    pub pane: Pane,
    /// What its program's output makes a screen of.
    pub terminal: Emulator,
    /// The bytes of output that are kept.
    pub scrollback_cap: usize,
    pub output: VecDeque<String>,
    pub output_bytes: usize,
    /// Bytes of a character that is cut at the end of a read.
    pub pending: Vec<u8>,
    /// Text of a control sequence that is cut at the end of a read.
    pub osc_tail: String,
    pub terminal_modes: TerminalModeTracker,
    /// The size that the terminal has.
    pub size: PaneSize,
    /// The size that the layout asks for.
    pub layout_size: PaneSize,
    pub view_override: Option<ViewLease>,
    /// Counts reads of output.
    pub output_generation: u64,
    pub scrollback_formatted_cache: String,
    /// The count of reads that the cache was made at.
    pub scrollback_formatted_generation: u64,
    /// The title that the tab got from this pane last.
    pub auto_title: Option<String>,
    pub llm_title_state: LlmTitleState,
    /// When the process started, in seconds.
    pub started_at: u64,
    /// An agent runs in the pane, as of `agent_inside_at`.
    pub agent_inside: bool,
    pub agent_inside_at: u64,
}

impl PaneRuntime {
    /// The bytes are counted right, and the terminal has the size that is noted and holds no
    /// half of a character.
    pub open spec fn wf(self) -> bool {
        &&& self.output_bytes == total_bytes(texts(self.output@))
        &&& is_terminal_size(self.size.rows, self.size.cols)
        &&& is_whole(shown(self.terminal))
        &&& screen_size(shown(self.terminal)) == (self.size.rows, self.size.cols)
    }
}

/// A running pane that has shown nothing yet.
pub fn new_runtime(generation: u64, pane: Pane, scrollback_cap: usize, now: u64) -> (r: PaneRuntime)
    ensures
        r.wf(),
        r.generation == generation,
        r.pane == pane,
        r.terminal == made(24, 80, HISTORY_ROWS),
        r.scrollback_cap == scrollback_cap,
        r.output@.len() == 0,
        r.pending@.len() == 0,
        r.osc_tail@.len() == 0,
        r.terminal_modes@ == (ModeModel {
            alternate_scroll: false,
            state: TerminalModeScanState::Ground,
            csi: Seq::empty(),
        }),
        r.size == (PaneSize { rows: 24, cols: 80 }),
        r.layout_size == (PaneSize { rows: 24, cols: 80 }),
        r.view_override is None,
        r.output_generation == 0,
        r.scrollback_formatted_cache@.len() == 0,
        r.scrollback_formatted_generation == u64::MAX,
        r.auto_title is None,
        r.llm_title_state == LlmTitleState::Pending,
        r.started_at == now,
        !r.agent_inside,
        r.agent_inside_at == 0,
{
    let r = PaneRuntime {
        generation,
        pane,
        terminal: new_terminal(24, 80, HISTORY_ROWS),
        scrollback_cap,
        output: VecDeque::new(),
        output_bytes: 0,
        pending: Vec::new(),
        osc_tail: String::new(),
        terminal_modes: TerminalModeTracker::default(),
        size: PaneSize { rows: 24, cols: 80 },
        layout_size: PaneSize { rows: 24, cols: 80 },
        view_override: None,
        output_generation: 0,
        scrollback_formatted_cache: String::new(),
        scrollback_formatted_generation: u64::MAX,
        auto_title: None,
        llm_title_state: LlmTitleState::Pending,
        started_at: now,
        agent_inside: false,
        agent_inside_at: 0,
    };
    assert(texts(r.output@) =~= Seq::empty());
    r
}

/// What one read brought.
pub struct Taken {
    pub text: String,
    pub events: OscEvents,
}

/// The control sequences of a read, with what was kept from the reads before.
pub open spec fn read_sequences(before: PaneRuntime, bytes: Seq<u8>) -> Seq<char> {
    before.osc_tail@ + stream_text(before.pending@, bytes)
}

/// `after` is the running pane `before` once a read is taken in: its terminal has taken in the
/// bytes, and what is cut at the end of the read is kept for the next.
pub open spec fn read_taken(
    before: PaneRuntime,
    after: PaneRuntime,
    bytes: Seq<u8>,
    taken: Taken,
) -> bool {
    &&& taken.text@ == stream_text(before.pending@, bytes)
    &&& events_of(taken.events, osc_payloads(read_sequences(before, bytes), 0))
    &&& after.terminal == fed(before.terminal, bytes)
    &&& after.pending@ == stream_rest(before.pending@, bytes)
    &&& after.osc_tail@ == tail_within(
        read_sequences(before, bytes).skip(osc_open(read_sequences(before, bytes), 0)),
        OSC_TAIL_CAP as int,
    )
    &&& after.terminal_modes@ == before.terminal_modes@.run(bytes)
    &&& after.output_generation == if before.output_generation == u64::MAX {
        0
    } else {
        (before.output_generation + 1) as u64
    }
    &&& after.pane == Pane {
        progress: match taken.events.progress {
            Some(p) => p,
            None => before.pane.progress,
        },
        ..before.pane
    }
    &&& after == PaneRuntime {
        terminal: after.terminal,
        pending: after.pending,
        osc_tail: after.osc_tail,
        terminal_modes: after.terminal_modes,
        output_generation: after.output_generation,
        pane: after.pane,
        ..before
    }
}

/// Takes a read in: hands it to the terminal, decodes it, follows the modes, and reads the
/// control sequences. A read of another run of the pane, which `generation` tells, is not
/// taken in.
pub fn take_output(runtime: &mut PaneRuntime, generation: u64, bytes: &[u8]) -> (r: Option<Taken>)
    requires
        old(runtime).wf(),
    ensures
        final(runtime).wf(),
        r is Some <==> old(runtime).generation == generation,
        r is None ==> *final(runtime) == *old(runtime),
        r matches Some(taken) ==> read_taken(*old(runtime), *final(runtime), bytes@, taken),
{
    if runtime.generation != generation {
        return None;
    }
    feed(&mut runtime.terminal, bytes);
    runtime.terminal_modes.process(bytes);
    runtime.output_generation = if runtime.output_generation == u64::MAX {
        0
    } else {
        runtime.output_generation + 1
    };
    let text = decode_utf8_stream(&mut runtime.pending, bytes);
    runtime.osc_tail.append(text.as_str());
    let events = take_osc_events(&mut runtime.osc_tail);
    cap_osc_tail(&mut runtime.osc_tail);
    if let Some(progress) = events.progress {
        runtime.pane.progress = progress;
    }
    Some(Taken { text, events })
}

/// The screen of a running pane.
pub fn live_screen(runtime: &PaneRuntime) -> (r: &vt100::Screen)
    ensures
        *r == shown(runtime.terminal),
{
    screen_of(&runtime.terminal)
}

/// The size that a terminal gets where one is asked for.
pub open spec fn terminal_size(size: PaneSize) -> PaneSize {
    PaneSize {
        rows: sane(size).rows,
        cols: if sane(size).cols > MAX_COLS {
            MAX_COLS
        } else {
            sane(size).cols
        },
    }
}

/// Gives the terminal of a running pane a size, at least two rows and two columns, and no more
/// columns than a terminal can have. Says whether that is another than it had.
pub fn resize_runtime(runtime: &mut PaneRuntime, size: PaneSize) -> (resized: bool)
    requires
        old(runtime).wf(),
    ensures
        final(runtime).wf(),
        resized == (old(runtime).size != terminal_size(size)),
        !resized ==> *final(runtime) == *old(runtime),
        resized ==> *final(runtime) == (PaneRuntime {
            size: terminal_size(size),
            terminal: fitted(old(runtime).terminal, terminal_size(size)),
            ..*old(runtime)
        }),
{
    let asked = sanitize_pane_size(size);
    let next = PaneSize {
        rows: asked.rows,
        cols: if asked.cols > MAX_COLS {
            MAX_COLS
        } else {
            asked.cols
        },
    };
    if runtime.size == next {
        return false;
    }
    resize_terminal(&mut runtime.terminal, next);
    runtime.size = next;
    true
}

/// What the screen of a pane says besides its text.
#[derive(Debug, Clone, Copy, PartialEq, Eq, Structural)]
pub struct ScreenFacts {
    pub cursor_row: u16,
    pub cursor_col: u16,
    pub rows: u16,
    pub cols: u16,
    pub mouse_mode: MouseProtocolMode,
    pub mouse_encoding: MouseProtocolEncoding,
    pub alternate_screen: bool,
}

/// `after` is the pane `before` with what the screen says.
pub open spec fn screen_noted(
    before: Pane,
    after: Pane,
    facts: ScreenFacts,
    alternate_scroll: bool,
) -> bool {
    &&& after == Pane {
        cursor_row: Some(facts.cursor_row),
        cursor_col: Some(facts.cursor_col),
        screen_rows: Some(facts.rows),
        screen_cols: Some(facts.cols),
        mouse_protocol_mode: after.mouse_protocol_mode,
        mouse_protocol_encoding: after.mouse_protocol_encoding,
        alternate_scroll_mode: before.status == PaneStatus::Running && alternate_scroll
            && facts.alternate_screen,
        ..before
    }
    &&& after.mouse_protocol_mode@ == mouse_mode_name(facts.mouse_mode)
    &&& after.mouse_protocol_encoding@ == mouse_encoding_name(facts.mouse_encoding)
}

/// Notes in a pane what its screen says.
pub fn note_screen(pane: &mut Pane, facts: &ScreenFacts, modes: &TerminalModeTracker)
    ensures
        screen_noted(*old(pane), *final(pane), *facts, modes.alternate_scroll),
{
    pane.cursor_row = Some(facts.cursor_row);
    pane.cursor_col = Some(facts.cursor_col);
    pane.screen_rows = Some(facts.rows);
    pane.screen_cols = Some(facts.cols);
    update_pane_terminal_modes(pane, facts.mouse_mode, facts.mouse_encoding);
    pane.alternate_scroll_mode = alternate_scroll_on(&pane.status, modes, facts.alternate_screen);
}

/// A message asks something of the user.
pub open spec fn is_actionable(message: Seq<char>) -> bool {
    !(is_idle_notice(message) || is_completion_notice(message))
}

/// The pane once the status inferred from a read is taken in.
pub open spec fn with_inferred(pane: Pane, status: AgentStatus, pinned: bool, now: u64) -> Pane {
    let base = Pane { updated_at: now, ..pane };
    if status != pane.agent_status || pinned != pane.agent_status_pinned {
        base.touched(status, pinned, now)
    } else {
        base
    }
}

/// `after` is the pane `before` once the last notification of a read is taken in, where it
/// asks something.
pub open spec fn attention_noted(before: Pane, after: Pane, messages: Seq<Seq<char>>, now: u64) -> bool {
    if messages.len() > 0 && is_actionable(messages.last()) {
        &&& after == Pane {
            notification_color: after.notification_color,
            notification_message: after.notification_message,
            ..before.touched(AgentStatus::Attention, true, now)
        }
        &&& opt_text(after.notification_color) == Some("blue"@)
        &&& opt_text(after.notification_message) == Some(messages.last())
    } else {
        after == before
    }
}

fn note_attention(pane: &mut Pane, messages: &Vec<String>, now: u64)
    ensures
        attention_noted(*old(pane), *final(pane), texts(messages@), now),
{
    if messages.len() > 0 {
        let message = &messages[messages.len() - 1];
        assert(texts(messages@).last() == message@);
        if !is_non_actionable_attention(message.as_str()) {
            touch_agent_status(pane, AgentStatus::Attention, true, now);
            pane.notification_color = Some("blue".to_string());
            pane.notification_message = Some(message.clone());
        }
    }
}

/// `after` is the running pane `before` once the text of a read is kept, and what it says of
/// the agent and the screen is noted.
pub open spec fn read_settled(
    before: PaneRuntime,
    after: PaneRuntime,
    text: Seq<char>,
    messages: Seq<Seq<char>>,
    status: AgentStatus,
    pinned: bool,
    now: u64,
) -> bool {
    &&& texts(after.output@) == if text.len() == 0 {
        texts(before.output@)
    } else {
        within_budget(texts(before.output@).push(text), before.scrollback_cap as int)
    }
    &&& exists|mid: Pane| #[trigger]
        attention_noted(with_inferred(before.pane, status, pinned, now), mid, messages, now)
            && screen_noted(
            mid,
            after.pane,
            facts_of(shown(before.terminal)),
            before.terminal_modes.alternate_scroll,
        )
    &&& after == PaneRuntime {
        output: after.output,
        output_bytes: after.output_bytes,
        pane: after.pane,
        ..before
    }
}

/// Keeps the text of a read and takes in what it says of the agent, and what the screen says.
/// `status` and `pinned` are what the text makes of the agent's status. Returns the pane
/// without its text, unless the read is of another run of the pane, which `generation` tells.
pub fn settle_output(
    runtime: &mut PaneRuntime,
    generation: u64,
    text: String,
    messages: &Vec<String>,
    status: AgentStatus,
    pinned: bool,
    now: u64,
) -> (r: Option<Pane>)
    requires
        old(runtime).wf(),
        old(runtime).output@.len() < usize::MAX,
        old(runtime).output_bytes + byte_len(text@) <= usize::MAX,
    ensures
        final(runtime).wf(),
        r is Some <==> old(runtime).generation == generation,
        r is None ==> *final(runtime) == *old(runtime),
        r matches Some(light) ==> is_light_copy(light, final(runtime).pane) && read_settled(
            *old(runtime),
            *final(runtime),
            text@,
            texts(messages@),
            status,
            pinned,
            now,
        ),
{
    if runtime.generation != generation {
        return None;
    }
    let ghost was = runtime.pane;
    push_bounded_output(
        &mut runtime.output,
        &mut runtime.output_bytes,
        text,
        runtime.scrollback_cap,
    );
    runtime.pane.updated_at = now;
    if status != runtime.pane.agent_status || pinned != runtime.pane.agent_status_pinned {
        touch_agent_status(&mut runtime.pane, status, pinned, now);
    }
    assert(runtime.pane == with_inferred(was, status, pinned, now));
    note_attention(&mut runtime.pane, messages, now);
    let ghost mid = runtime.pane;
    let facts = screen_facts(screen_of(&runtime.terminal));
    note_screen(&mut runtime.pane, &facts, &runtime.terminal_modes);
    assert(attention_noted(with_inferred(was, status, pinned, now), mid, texts(messages@), now));
    Some(light_copy(&runtime.pane))
}

/// What a pane shows without its text.
pub open spec fn is_light_copy(light: Pane, pane: Pane) -> bool {
    &&& light == Pane {
        output: light.output,
        output_formatted: light.output_formatted,
        scrollback: light.scrollback,
        scrollback_formatted: light.scrollback_formatted,
        tabs: light.tabs,
        metadata: light.metadata,
        ..pane
    }
    &&& light.output@.len() == 0
    &&& light.output_formatted@.len() == 0
    &&& light.scrollback@.len() == 0
    &&& light.scrollback_formatted@.len() == 0
    &&& light.tabs@ == pane.tabs@
    &&& light.metadata@ == pane.metadata@
}

/// A copy of a pane without its text.
pub fn light_copy(pane: &Pane) -> (r: Pane)
    ensures
        is_light_copy(r, *pane),
{
    Pane {
        id: pane.id.clone(),
        title: pane.title.clone(),
        command: pane.command.clone(),
        surface_kind: pane.surface_kind,
        status: pane.status,
        agent_status: pane.agent_status,
        agent_status_pinned: pane.agent_status_pinned,
        agent_status_at: pane.agent_status_at,
        progress: pane.progress,
        notification_color: clone_opt(&pane.notification_color),
        notification_message: clone_opt(&pane.notification_message),
        exit_code: pane.exit_code,
        pid: pane.pid,
        output: String::new(),
        output_formatted: String::new(),
        scrollback: String::new(),
        scrollback_formatted: String::new(),
        scrollback_lines: pane.scrollback_lines,
        screen_rows: pane.screen_rows,
        screen_cols: pane.screen_cols,
        cursor_row: pane.cursor_row,
        cursor_col: pane.cursor_col,
        alternate_scroll_mode: pane.alternate_scroll_mode,
        mouse_protocol_mode: pane.mouse_protocol_mode.clone(),
        mouse_protocol_encoding: pane.mouse_protocol_encoding.clone(),
        metadata: clone_metadata(&pane.metadata),
        tabs: clone_tabs(&pane.tabs),
        active_tab: clone_opt(&pane.active_tab),
        view_size: pane.view_size,
        updated_at: pane.updated_at,
    }
}

/// The pane with what a read changed in the running one; its text stays.
pub open spec fn light_merged(pane: Pane, light: Pane) -> Pane {
    Pane {
        updated_at: light.updated_at,
        agent_status: light.agent_status,
        agent_status_pinned: light.agent_status_pinned,
        agent_status_at: light.agent_status_at,
        notification_color: light.notification_color,
        notification_message: light.notification_message,
        cursor_row: light.cursor_row,
        cursor_col: light.cursor_col,
        screen_rows: light.screen_rows,
        screen_cols: light.screen_cols,
        mouse_protocol_mode: light.mouse_protocol_mode,
        mouse_protocol_encoding: light.mouse_protocol_encoding,
        alternate_scroll_mode: light.alternate_scroll_mode,
        status: light.status,
        pid: light.pid,
        progress: light.progress,
        ..pane
    }
}

/// `after` is the pane `before` once a read of the run with the key is taken in: the pane
/// itself where that is its active tab, or else the tab that the key names.
pub open spec fn run_merged(before: Pane, after: Pane, key: Seq<char>, light: Pane) -> bool {
    if active_key(before) == key {
        after == light_merged(before, light)
    } else {
        &&& after == Pane { tabs: after.tabs, ..before }
        &&& after.tabs@ == match key_tab(before.id@, key) {
            Some(tab) => tabs_mirroring(before.tabs@, tab, light, light.updated_at),
            None => before.tabs@,
        }
    }
}

/// Takes what a read changed in the running pane into the pane of the session.
pub fn merge_run(pane: &mut Pane, runtime_key: &str, light: &Pane)
    ensures
        run_merged(*old(pane), *final(pane), runtime_key@, *light),
{
    if runtime_key_is_active_for_pane(pane, runtime_key) {
        pane.updated_at = light.updated_at;
        pane.agent_status = light.agent_status;
        pane.agent_status_pinned = light.agent_status_pinned;
        pane.agent_status_at = light.agent_status_at;
        pane.notification_color = clone_opt(&light.notification_color);
        pane.notification_message = clone_opt(&light.notification_message);
        pane.cursor_row = light.cursor_row;
        pane.cursor_col = light.cursor_col;
        pane.screen_rows = light.screen_rows;
        pane.screen_cols = light.screen_cols;
        pane.mouse_protocol_mode = light.mouse_protocol_mode.clone();
        pane.mouse_protocol_encoding = light.mouse_protocol_encoding.clone();
        pane.alternate_scroll_mode = light.alternate_scroll_mode;
        pane.status = light.status;
        pane.pid = light.pid;
        pane.progress = light.progress;
    } else if let Some(tab) = runtime_key_tab(pane.id.as_str(), runtime_key) {
        let tab = tab.to_string();
        sync_tab_from_runtime_pane(pane, tab.as_str(), light);
    }
}

/// The notification that a message of a pane's program leaves.
pub open spec fn program_note(pane: Seq<char>, message: Seq<char>, now: u64) -> NoteView {
    NoteView {
        time: now,
        pane: Some(pane),
        workspace: None,
        status: Some("attention"@),
        color: Some("blue"@),
        clear: false,
        message,
    }
}

/// The feed and the log.
#[verifier::ext_equal]
pub struct Record {
    pub feed: Seq<NoteView>,
    pub log: Seq<EventView>,
    pub last_id: u64,
}

/// The feed and the log of a session.
pub open spec fn record_of(session: Session) -> Record {
    Record {
        feed: notes(session.notifications@),
        log: event_views(session.events@),
        last_id: session.next_event_id,
    }
}

/// The record once the messages of a read are in it: each that asks something and belongs in
/// the feed.
pub open spec fn with_messages(
    record: Record,
    pane: Seq<char>,
    messages: Seq<Seq<char>>,
    now: u64,
) -> Record
    decreases messages.len(),
{
    if messages.len() == 0 {
        record
    } else {
        let before = with_messages(record, pane, messages.drop_last(), now);
        let note = program_note(pane, messages.last(), now);
        if is_actionable(messages.last()) && is_feed_worthy(note.status, false, messages.last()) {
            Record {
                feed: before.feed.push(note),
                log: logged(before.log, before.last_id, note_event(note)),
                last_id: next_id(before.last_id),
            }
        } else {
            before
        }
    }
}

/// Some message of a read goes into the feed.
pub open spec fn any_worthy(messages: Seq<Seq<char>>) -> bool {
    exists|i: int|
        0 <= i < messages.len() && is_actionable(#[trigger] messages[i]) && is_feed_worthy(
            Some("attention"@),
            false,
            messages[i],
        )
}

fn record_message(session: &mut Session, pane_id: &str, message: &str, now: u64) -> (recorded: bool)
    ensures
        recorded == (is_actionable(message@) && is_feed_worthy(
            Some("attention"@),
            false,
            message@,
        )),
        record_of(*final(session)) == with_messages(
            record_of(*old(session)),
            pane_id@,
            seq![message@],
            now,
        ),
        *final(session) == (Session {
            notifications: final(session).notifications,
            events: final(session).events,
            next_event_id: final(session).next_event_id,
            ..*old(session)
        }),
{
    proof {
        let one = seq![message@];
        assert(one.drop_last() =~= Seq::empty());
        assert(with_messages(record_of(*session), pane_id@, one.drop_last(), now) == record_of(
            *session,
        ));
    }
    if is_non_actionable_attention(message) {
        return false;
    }
    let note = Notification {
        time: now,
        pane: Some(pane_id.to_string()),
        workspace: None,
        status: Some("attention".to_string()),
        color: Some("blue".to_string()),
        clear: false,
        message: message.to_string(),
    };
    if !should_record_in_notification_feed(&note) {
        return false;
    }
    let event = EventRecord {
        id: 0,
        time: now,
        kind: "notification".to_string(),
        pane: Some(pane_id.to_string()),
        workspace: None,
        status: Some("attention".to_string()),
        key: None,
        value: Some("blue".to_string()),
        message: message.to_string(),
    };
    let ghost before = session.notifications@;
    session.notifications.push(note);
    assert(notes(session.notifications@) =~= notes(before).push(note@));
    push_event(session, event);
    true
}

/// A message more is one step more.
proof fn with_messages_step(
    record: Record,
    pane: Seq<char>,
    messages: Seq<Seq<char>>,
    last: Seq<char>,
    now: u64,
)
    ensures
        with_messages(record, pane, messages.push(last), now) == with_messages(
            with_messages(record, pane, messages, now),
            pane,
            seq![last],
            now,
        ),
{
    assert(messages.push(last).drop_last() =~= messages);
    assert(seq![last].drop_last() =~= Seq::empty());
    let mid = with_messages(record, pane, messages, now);
    assert(with_messages(mid, pane, seq![last].drop_last(), now) == mid);
}

/// The panes once a read of the run with the key is taken in.
pub open spec fn panes_merged(
    before: Seq<Pane>,
    after: Seq<Pane>,
    id: Seq<char>,
    key: Seq<char>,
    light: Pane,
) -> bool {
    match pane_index(before, id) {
        None => after == before,
        Some(i) => after.len() == before.len() && after == before.update(i, after[i])
            && run_merged(before[i], after[i], key, light),
    }
}

/// Takes a read of a running pane into the session: the pane, and the messages of its
/// program. Says whether a message went into the feed.
fn append_to_session(
    session: &mut Session,
    runtime_key: &str,
    pane_id: &str,
    light: &Pane,
    messages: &Vec<String>,
    now: u64,
) -> (should_save: bool)
    ensures
        panes_merged(
            old(session).panes@,
            final(session).panes@,
            pane_id@,
            runtime_key@,
            *light,
        ),
        record_of(*final(session)) == ({
            let full = with_messages(
                record_of(*old(session)),
                pane_id@,
                texts(messages@),
                now,
            );
            Record { feed: newest(full.feed, MAX_NOTIFICATIONS as int), ..full }
        }),
        should_save == any_worthy(texts(messages@)),
        *final(session) == (Session {
            panes: final(session).panes,
            notifications: final(session).notifications,
            events: final(session).events,
            next_event_id: final(session).next_event_id,
            ..*old(session)
        }),
{
    if let Some(i) = find_pane(&session.panes, pane_id) {
        merge_run(&mut session.panes[i], runtime_key, light);
    }
    let ghost panes = session.panes;
    let ghost first = record_of(*session);
    let ghost all = texts(messages@);
    let ghost base = *session;
    let mut should_save = false;
    let mut i: usize = 0;
    assert(all.take(0) =~= Seq::empty());
    while i < messages.len()
        invariant
            i <= messages.len(),
            all == texts(messages@),
            record_of(*session) == with_messages(first, pane_id@, all.take(i as int), now),
            should_save == any_worthy(all.take(i as int)),
            *session == (Session {
                notifications: session.notifications,
                events: session.events,
                next_event_id: session.next_event_id,
                ..base
            }),
        decreases messages.len() - i,
    {
        let message = messages[i].as_str();
        proof {
            with_messages_step(first, pane_id@, all.take(i as int), all[i as int], now);
            assert(all.take(i + 1) =~= all.take(i as int).push(all[i as int]));
        }
        let recorded = record_message(session, pane_id, message, now);
        proof {
            let before = all.take(i as int);
            let after = all.take(i + 1);
            if any_worthy(before) {
                let k = choose|k: int|
                    0 <= k < before.len() && is_actionable(#[trigger] before[k]) && is_feed_worthy(
                        Some("attention"@),
                        false,
                        before[k],
                    );
                assert(after[k] == before[k]);
            }
            if recorded {
                assert(after[i as int] == message@);
            }
            if any_worthy(after) && !recorded {
                let k = choose|k: int|
                    0 <= k < after.len() && is_actionable(#[trigger] after[k]) && is_feed_worthy(
                        Some("attention"@),
                        false,
                        after[k],
                    );
                assert(before[k] == after[k]);
            }
        }
        if recorded {
            should_save = true;
        }
        i += 1;
    }
    assert(all.take(i as int) =~= all);
    let ghost full = session.notifications@;
    keep_newest(&mut session.notifications, MAX_NOTIFICATIONS);
    assert(notes(newest(full, MAX_NOTIFICATIONS as int)) =~= newest(
        notes(full),
        MAX_NOTIFICATIONS as int,
    ));
    should_save
}

/// `after` is the session `before` once a read of the run with the key is taken in.
pub open spec fn read_appended(
    before: Session,
    after: Session,
    key: Seq<char>,
    id: Seq<char>,
    light: Pane,
    messages: Seq<Seq<char>>,
    now: u64,
) -> bool {
    &&& panes_merged(before.panes@, after.panes@, id, key, light)
    &&& record_of(after) == ({
        let full = with_messages(record_of(before), id, messages, now);
        Record { feed: newest(full.feed, MAX_NOTIFICATIONS as int), ..full }
    })
    &&& after == Session {
        panes: after.panes,
        notifications: after.notifications,
        events: after.events,
        next_event_id: after.next_event_id,
        ..before
    }
}

/// Takes a read of a running pane into the session, and counts the change. `light` is what the
/// read made of the pane: none where no such run is left, and then nothing changes. Says
/// whether a message went into the feed, which is to be saved.
pub fn append_output(
    daemon: &mut Daemon,
    runtime_key: &str,
    pane_id: &str,
    light: Option<&Pane>,
    messages: &Vec<String>,
    now: u64,
) -> (should_save: bool)
    ensures
        light is None ==> *final(daemon) == *old(daemon) && !should_save,
        light matches Some(pane) ==> read_appended(
            old(daemon).session,
            final(daemon).session,
            runtime_key@,
            pane_id@,
            *pane,
            texts(messages@),
            now,
        ) && should_save == any_worthy(texts(messages@)) && *final(daemon) == (Daemon {
            session: final(daemon).session,
            generation: bumped(old(daemon).generation),
            ..*old(daemon)
        }),
{
    match light {
        None => false,
        Some(pane) => {
            let should_save = append_to_session(
                &mut daemon.session,
                runtime_key,
                pane_id,
                pane,
                messages,
                now,
            );
            touch(daemon);
            should_save
        },
    }
}

} // verus!

//! The data of a session: workspaces, tabs, panes, notifications and events.
use crate::text::chars::{clone_opt, opt_text};
use crate::text::order::{before, precedes, precedes_total, precedes_transitive};
use vstd::prelude::*;

verus! {

/// What a coding agent in a pane is doing.
#[derive(Debug, Clone, Copy, PartialEq, Eq, Structural)]
pub enum AgentStatus {
    Unknown,
    Idle,
    Busy,
    Attention,
    Done,
    Error,
}

/// Whether a pane's process runs.
#[derive(Debug, Clone, Copy, PartialEq, Eq, Structural)]
pub enum PaneStatus {
    Running,
    Restored,
    Exited,
}

/// What a pane shows.
#[derive(Debug, Clone, Copy, PartialEq, Eq, Structural)]
pub enum SurfaceKind {
    Terminal,
    Browser,
    Agent,
    Markdown,
}

/// A side of a pane.
#[derive(Debug, Clone, Copy, PartialEq, Eq, Structural)]
pub enum SplitDirection {
    Right,
    Left,
    Up,
    Down,
}

/// Which panes a broadcast reaches.
#[derive(Debug, Clone, Copy, PartialEq, Eq, Structural)]
pub enum BroadcastScope {
    Workspace,
    Session,
}

/// The size of a pane in cells.
#[derive(Debug, Clone, Copy, PartialEq, Eq, Structural)]
pub struct PaneSize {
    pub rows: u16,
    pub cols: u16,
}

/// A tab of a pane, as older sessions have them.
#[derive(Debug)]
pub struct PaneTab {
    pub id: String,
    pub title: String,
    pub command: String,
    pub surface_kind: SurfaceKind,
    pub status: Option<PaneStatus>,
    pub agent_status: Option<AgentStatus>,
    pub progress: Option<u8>,
    pub notification_color: Option<String>,
    pub notification_message: Option<String>,
    pub exit_code: Option<i32>,
    pub output: String,
    pub output_formatted: String,
    pub scrollback: String,
    pub scrollback_formatted: String,
    pub created_at: u64,
    pub updated_at: u64,
}

/// A pane: a process on a terminal, and what is known of it.
#[derive(Debug)]
pub struct Pane {
    pub id: String,
    pub title: String,
    pub command: String,
    pub surface_kind: SurfaceKind,
    pub status: PaneStatus,
    pub agent_status: AgentStatus,
    /// The status was set by a hook or a command and is not inferred.
    pub agent_status_pinned: bool,
    /// When the status was set, in seconds.
    pub agent_status_at: u64,
    pub progress: Option<u8>,
    pub notification_color: Option<String>,
    pub notification_message: Option<String>,
    pub exit_code: Option<i32>,
    pub pid: Option<u32>,
    pub output: String,
    pub output_formatted: String,
    pub scrollback: String,
    pub scrollback_formatted: String,
    pub scrollback_lines: Option<usize>,
    pub screen_rows: Option<u16>,
    pub screen_cols: Option<u16>,
    pub cursor_row: Option<u16>,
    pub cursor_col: Option<u16>,
    pub alternate_scroll_mode: bool,
    pub mouse_protocol_mode: String,
    pub mouse_protocol_encoding: String,
    /// Keys and values, by key, each key once.
    pub metadata: Vec<(String, String)>,
    pub tabs: Vec<PaneTab>,
    pub active_tab: Option<String>,
    pub view_size: Option<PaneSize>,
    pub updated_at: u64,
}

/// A port that a process of a workspace listens on.
#[derive(Debug)]
pub struct ListeningPort {
    pub host: String,
    pub port: u16,
    pub pids: Vec<u32>,
    pub process: Option<String>,
    pub pane: Option<String>,
}

/// A tab of a workspace.
#[derive(Debug)]
pub struct WorkspaceTab {
    pub id: String,
    pub title: String,
    /// The title was given by hand and is not replaced by an agent's.
    pub title_locked: bool,
    pub panes: Vec<String>,
    pub active_pane: Option<String>,
    pub zoomed_pane: Option<String>,
}

/// A workspace. Its `panes` are those of the active tab.
#[derive(Debug)]
pub struct Workspace {
    pub id: String,
    pub name: String,
    pub cwd: String,
    pub git_branch: Option<String>,
    pub pull_request: Option<String>,
    pub ports: Vec<ListeningPort>,
    pub panes: Vec<String>,
    pub active_pane: Option<String>,
    pub zoomed_pane: Option<String>,
    pub tabs: Vec<WorkspaceTab>,
    pub active_tab: Option<String>,
    /// The largest number that a tab was given here, tabs that are gone counted in.
    pub next_tab_seq: u64,
    pub pinned: bool,
}

/// An entry of the notification feed.
#[derive(Debug)]
pub struct Notification {
    pub time: u64,
    pub pane: Option<String>,
    pub workspace: Option<String>,
    pub status: Option<String>,
    pub color: Option<String>,
    pub clear: bool,
    pub message: String,
}

/// An entry of the event log.
#[derive(Debug)]
pub struct EventRecord {
    pub id: u64,
    pub time: u64,
    pub kind: String,
    pub pane: Option<String>,
    pub workspace: Option<String>,
    pub status: Option<String>,
    pub key: Option<String>,
    pub value: Option<String>,
    pub message: String,
}

/// What was copied last.
#[derive(Debug)]
pub struct ClipboardItem {
    pub text: String,
    pub source_pane: Option<String>,
    pub source: String,
    pub copied_at: u64,
}

/// A session.
#[derive(Debug)]
pub struct Session {
    pub name: String,
    pub active_workspace: String,
    pub workspaces: Vec<Workspace>,
    /// The panes by id, each id once.
    pub panes: Vec<Pane>,
    pub notifications: Vec<Notification>,
    pub events: Vec<EventRecord>,
    pub next_event_id: u64,
    pub clipboard: Option<ClipboardItem>,
}

impl WorkspaceTab {
    /// A tab without panes.
    pub fn new(id: &str, title: &str) -> (r: WorkspaceTab)
        ensures
            is_new_tab(r, id@, title@),
    {
        WorkspaceTab {
            id: id.to_string(),
            title: title.to_string(),
            title_locked: false,
            panes: Vec::new(),
            active_pane: None,
            zoomed_pane: None,
        }
    }
}

/// A tab without panes.
pub open spec fn is_new_tab(tab: WorkspaceTab, id: Seq<char>, title: Seq<char>) -> bool {
    &&& tab.id@ == id
    &&& tab.title@ == title
    &&& !tab.title_locked
    &&& tab.panes@.len() == 0
    &&& tab.active_pane is None
    &&& tab.zoomed_pane is None
}

/// A workspace with one tab and no panes.
pub open spec fn is_new_workspace(
    w: Workspace,
    id: Seq<char>,
    name: Seq<char>,
    cwd: Seq<char>,
) -> bool {
    &&& w.id@ == id
    &&& w.name@ == name
    &&& w.cwd@ == cwd
    &&& w.git_branch is None
    &&& w.pull_request is None
    &&& w.ports@.len() == 0
    &&& w.panes@.len() == 0
    &&& w.active_pane is None
    &&& w.zoomed_pane is None
    &&& w.tabs@.len() == 1
    &&& is_new_tab(w.tabs@[0], "tab-1"@, "main"@)
    &&& opt_text(w.active_tab) == Some("tab-1"@)
    &&& w.next_tab_seq == 0
    &&& !w.pinned
}

impl Workspace {
    /// A workspace with one tab and no panes. Its directory is yet to be given.
    pub fn new(id: &str, name: &str) -> (r: Workspace)
        ensures
            is_new_workspace(r, id@, name@, ""@),
    {
        let mut tabs: Vec<WorkspaceTab> = Vec::new();
        tabs.push(WorkspaceTab::new("tab-1", "main"));
        Workspace {
            id: id.to_string(),
            name: name.to_string(),
            cwd: "".to_string(),
            git_branch: None,
            pull_request: None,
            ports: Vec::new(),
            panes: Vec::new(),
            active_pane: None,
            zoomed_pane: None,
            tabs,
            active_tab: Some("tab-1".to_string()),
            next_tab_seq: 0,
            pinned: false,
        }
    }
}

impl Session {
    /// A session with one workspace and no panes.
    pub fn new(name: &str) -> (r: Session)
        ensures
            r.name@ == name@,
            r.active_workspace@ == "ws-1"@,
            r.workspaces@.len() == 1,
            is_new_workspace(r.workspaces@[0], "ws-1"@, "main"@, ""@),
            r.panes@.len() == 0,
            r.notifications@.len() == 0,
            r.events@.len() == 0,
            r.next_event_id == 0,
            r.clipboard is None,
    {
        let mut workspaces: Vec<Workspace> = Vec::new();
        workspaces.push(Workspace::new("ws-1", "main"));
        Session {
            name: name.to_string(),
            active_workspace: "ws-1".to_string(),
            workspaces,
            panes: Vec::new(),
            notifications: Vec::new(),
            events: Vec::new(),
            next_event_id: 0,
            clipboard: None,
        }
    }
}

/// The place of the pane with the id among `panes`.
pub open spec fn pane_index(panes: Seq<Pane>, id: Seq<char>) -> Option<int>
    decreases panes.len(),
{
    if panes.len() == 0 {
        None
    } else if panes[0].id@ == id {
        Some(0)
    } else {
        match pane_index(panes.drop_first(), id) {
            Some(i) => Some(i + 1),
            None => None,
        }
    }
}

/// The place found holds the id, and no earlier one does.
pub proof fn pane_index_is_first(panes: Seq<Pane>, id: Seq<char>)
    ensures
        pane_index(panes, id) matches Some(i) ==> 0 <= i < panes.len() && panes[i].id@ == id && (
        forall|j: int| 0 <= j < i ==> (#[trigger] panes[j]).id@ != id),
        pane_index(panes, id) is None ==> (forall|j: int|
            0 <= j < panes.len() ==> (#[trigger] panes[j]).id@ != id),
    decreases panes.len(),
{
    if panes.len() > 0 && panes[0].id@ != id {
        let rest = panes.drop_first();
        pane_index_is_first(rest, id);
        assert forall|j: int| 0 < j < panes.len() implies panes[j] == rest[j - 1] by {}
    }
}

/// The place of the pane with the id.
pub fn find_pane(panes: &Vec<Pane>, id: &str) -> (r: Option<usize>)
    ensures
        r matches Some(i) ==> pane_index(panes@, id@) == Some(i as int) && i < panes@.len()
            && panes@[i as int].id@ == id@,
        r is None ==> pane_index(panes@, id@) is None,
{
    let mut i: usize = 0;
    assert(panes@.skip(0) =~= panes@);
    while i < panes.len()
        invariant
            i <= panes.len(),
            pane_index(panes@, id@) == match pane_index(panes@.skip(i as int), id@) {
                Some(k) => Some(k + i),
                None => None,
            },
        decreases panes.len() - i,
    {
        assert(panes@.skip(i as int).drop_first() =~= panes@.skip(i + 1));
        if crate::text::chars::same(panes[i].id.as_str(), id) {
            return Some(i);
        }
        i += 1;
    }
    None
}

/// A pane that runs a command and shows nothing yet.
pub open spec fn is_new_pane(
    p: Pane,
    id: Seq<char>,
    title: Seq<char>,
    command: Seq<char>,
    kind: SurfaceKind,
    now: u64,
) -> bool {
    &&& p.id@ == id
    &&& p.title@ == title
    &&& p.command@ == command
    &&& p.surface_kind == kind
    &&& p.status == PaneStatus::Running
    &&& p.agent_status == AgentStatus::Unknown
    &&& !p.agent_status_pinned
    &&& p.agent_status_at == now
    &&& p.progress is None && p.exit_code is None && p.pid is None
    &&& p.notification_color is None && p.notification_message is None
    &&& p.output@.len() == 0 && p.output_formatted@.len() == 0
    &&& p.scrollback@.len() == 0 && p.scrollback_formatted@.len() == 0
    &&& p.scrollback_lines is None
    &&& p.screen_rows is None && p.screen_cols is None
    &&& p.cursor_row is None && p.cursor_col is None
    &&& !p.alternate_scroll_mode
    &&& p.mouse_protocol_mode@.len() == 0 && p.mouse_protocol_encoding@.len() == 0
    &&& p.metadata@.len() == 0
    &&& p.tabs@.len() == 0
    &&& p.active_tab is None
    &&& p.view_size is None
    &&& p.updated_at == now
}

impl Pane {
    /// A pane that runs `command` and shows nothing yet. It is titled by its command.
    pub fn new(id: String, command: String, now: u64) -> (r: Pane)
        ensures
            is_new_pane(r, id@, command@, command@, SurfaceKind::Terminal, now),
    {
        Pane {
            id,
            title: command.clone(),
            command,
            surface_kind: SurfaceKind::Terminal,
            status: PaneStatus::Running,
            agent_status: AgentStatus::Unknown,
            agent_status_pinned: false,
            agent_status_at: now,
            progress: None,
            notification_color: None,
            notification_message: None,
            exit_code: None,
            pid: None,
            output: String::new(),
            output_formatted: String::new(),
            scrollback: String::new(),
            scrollback_formatted: String::new(),
            scrollback_lines: None,
            screen_rows: None,
            screen_cols: None,
            cursor_row: None,
            cursor_col: None,
            alternate_scroll_mode: false,
            mouse_protocol_mode: String::new(),
            mouse_protocol_encoding: String::new(),
            metadata: Vec::new(),
            tabs: Vec::new(),
            active_tab: None,
            view_size: None,
            updated_at: now,
        }
    }

    /// Sets the status of the agent, and when.
    pub open spec fn touched(self, status: AgentStatus, pinned: bool, now: u64) -> Pane {
        Pane {
            agent_status: status,
            agent_status_pinned: pinned,
            agent_status_at: now,
            ..self
        }
    }
}

/// Sets the status of the agent in a pane, and when it was set.
pub fn touch_agent_status(pane: &mut Pane, status: AgentStatus, pinned: bool, now: u64)
    ensures
        *final(pane) == old(pane).touched(status, pinned, now),
{
    pane.agent_status = status;
    pane.agent_status_pinned = pinned;
    pane.agent_status_at = now;
}

/// What a notification says.
#[verifier::ext_equal]
pub struct NoteView {
    pub time: u64,
    pub pane: Option<Seq<char>>,
    pub workspace: Option<Seq<char>>,
    pub status: Option<Seq<char>>,
    pub color: Option<Seq<char>>,
    pub clear: bool,
    pub message: Seq<char>,
}

impl View for Notification {
    type V = NoteView;

    open spec fn view(&self) -> NoteView {
        NoteView {
            time: self.time,
            pane: opt_text(self.pane),
            workspace: opt_text(self.workspace),
            status: opt_text(self.status),
            color: opt_text(self.color),
            clear: self.clear,
            message: self.message@,
        }
    }
}

/// What a list of notifications says.
pub open spec fn notes(v: Seq<Notification>) -> Seq<NoteView> {
    Seq::new(v.len(), |i: int| v[i]@)
}

/// A copy of a notification.
pub fn clone_note(note: &Notification) -> (r: Notification)
    ensures
        r@ == note@,
{
    Notification {
        time: note.time,
        pane: clone_opt(&note.pane),
        workspace: clone_opt(&note.workspace),
        status: clone_opt(&note.status),
        color: clone_opt(&note.color),
        clear: note.clear,
        message: note.message.clone(),
    }
}

/// What an event says.
#[verifier::ext_equal]
pub struct EventView {
    pub id: u64,
    pub time: u64,
    pub kind: Seq<char>,
    pub pane: Option<Seq<char>>,
    pub workspace: Option<Seq<char>>,
    pub status: Option<Seq<char>>,
    pub key: Option<Seq<char>>,
    pub value: Option<Seq<char>>,
    pub message: Seq<char>,
}

impl View for EventRecord {
    type V = EventView;

    open spec fn view(&self) -> EventView {
        EventView {
            id: self.id,
            time: self.time,
            kind: self.kind@,
            pane: opt_text(self.pane),
            workspace: opt_text(self.workspace),
            status: opt_text(self.status),
            key: opt_text(self.key),
            value: opt_text(self.value),
            message: self.message@,
        }
    }
}

/// What a list of events says.
pub open spec fn event_views(v: Seq<EventRecord>) -> Seq<EventView> {
    Seq::new(v.len(), |i: int| v[i]@)
}

/// A copy of a tab of a pane.
pub fn clone_tab(tab: &PaneTab) -> (r: PaneTab)
    ensures
        r == *tab,
{
    PaneTab {
        id: tab.id.clone(),
        title: tab.title.clone(),
        command: tab.command.clone(),
        surface_kind: tab.surface_kind,
        status: tab.status,
        agent_status: tab.agent_status,
        progress: tab.progress,
        notification_color: clone_opt(&tab.notification_color),
        notification_message: clone_opt(&tab.notification_message),
        exit_code: tab.exit_code,
        output: tab.output.clone(),
        output_formatted: tab.output_formatted.clone(),
        scrollback: tab.scrollback.clone(),
        scrollback_formatted: tab.scrollback_formatted.clone(),
        created_at: tab.created_at,
        updated_at: tab.updated_at,
    }
}

/// Copies of the tabs of a pane.
pub fn clone_tabs(tabs: &Vec<PaneTab>) -> (r: Vec<PaneTab>)
    ensures
        r@ == tabs@,
{
    let mut out: Vec<PaneTab> = Vec::new();
    let mut i: usize = 0;
    while i < tabs.len()
        invariant
            i <= tabs.len(),
            out@ == tabs@.take(i as int),
        decreases tabs.len() - i,
    {
        out.push(clone_tab(&tabs[i]));
        i += 1;
        assert(tabs@.take(i as int) =~= tabs@.take(i - 1).push(tabs@[i - 1]));
    }
    assert(tabs@.take(i as int) =~= tabs@);
    out
}

/// A copy of the metadata of a pane.
pub fn clone_metadata(pairs: &Vec<(String, String)>) -> (r: Vec<(String, String)>)
    ensures
        r@ == pairs@,
{
    let mut out: Vec<(String, String)> = Vec::new();
    let mut i: usize = 0;
    while i < pairs.len()
        invariant
            i <= pairs.len(),
            out@ == pairs@.take(i as int),
        decreases pairs.len() - i,
    {
        out.push((pairs[i].0.clone(), pairs[i].1.clone()));
        i += 1;
        assert(pairs@.take(i as int) =~= pairs@.take(i - 1).push(pairs@[i - 1]));
    }
    assert(pairs@.take(i as int) =~= pairs@);
    out
}

/// `a` holds what `b` holds.
pub open spec fn same_pane(a: Pane, b: Pane) -> bool {
    &&& a == Pane { tabs: a.tabs, metadata: a.metadata, ..b }
    &&& a.tabs@ == b.tabs@
    &&& a.metadata@ == b.metadata@
}

/// A copy of a pane.
pub fn clone_pane(pane: &Pane) -> (r: Pane)
    ensures
        same_pane(r, *pane),
{
    Pane {
        id: pane.id.clone(),
        title: pane.title.clone(),
        command: pane.command.clone(),
        surface_kind: pane.surface_kind,
        status: pane.status,
        agent_status: pane.agent_status,
        agent_status_pinned: pane.agent_status_pinned,
        agent_status_at: pane.agent_status_at,
        progress: pane.progress,
        notification_color: clone_opt(&pane.notification_color),
        notification_message: clone_opt(&pane.notification_message),
        exit_code: pane.exit_code,
        pid: pane.pid,
        output: pane.output.clone(),
        output_formatted: pane.output_formatted.clone(),
        scrollback: pane.scrollback.clone(),
        scrollback_formatted: pane.scrollback_formatted.clone(),
        scrollback_lines: pane.scrollback_lines,
        screen_rows: pane.screen_rows,
        screen_cols: pane.screen_cols,
        cursor_row: pane.cursor_row,
        cursor_col: pane.cursor_col,
        alternate_scroll_mode: pane.alternate_scroll_mode,
        mouse_protocol_mode: pane.mouse_protocol_mode.clone(),
        mouse_protocol_encoding: pane.mouse_protocol_encoding.clone(),
        metadata: clone_metadata(&pane.metadata),
        tabs: clone_tabs(&pane.tabs),
        active_tab: clone_opt(&pane.active_tab),
        view_size: pane.view_size,
        updated_at: pane.updated_at,
    }
}

/// Seen by its user, a finished turn counts as over: done becomes idle, by hand.
pub fn acknowledge_done_status(pane: &mut Pane, now: u64) -> (changed: bool)
    ensures
        changed == (old(pane).agent_status == AgentStatus::Done),
        *final(pane) == if changed {
            old(pane).touched(AgentStatus::Idle, true, now)
        } else {
            *old(pane)
        },
{
    if pane.agent_status == AgentStatus::Done {
        touch_agent_status(pane, AgentStatus::Idle, true, now);
        true
    } else {
        false
    }
}

/// The ids of panes rise.
pub open spec fn panes_in_order(panes: Seq<Pane>) -> bool {
    forall|i: int, j: int|
        0 <= i < j < panes.len() ==> precedes(
            (#[trigger] panes[i]).id@,
            (#[trigger] panes[j]).id@,
        )
}

/// The panes once `pane` is among them: in the place of one with its id, or else before the
/// first one with a later id.
pub open spec fn with_pane(panes: Seq<Pane>, pane: Pane) -> Seq<Pane> {
    match pane_index(panes, pane.id@) {
        Some(i) => panes.update(i, pane),
        None => panes.insert(slot_for(panes, pane.id@), pane),
    }
}

/// The place of the first pane with a later id.
pub open spec fn slot_for(panes: Seq<Pane>, id: Seq<char>) -> int
    decreases panes.len(),
{
    if panes.len() == 0 || precedes(id, panes[0].id@) {
        0
    } else {
        1 + slot_for(panes.drop_first(), id)
    }
}

/// The place lies within the list, after no pane with a later id.
pub proof fn slot_for_bounds(panes: Seq<Pane>, id: Seq<char>)
    ensures
        0 <= slot_for(panes, id) <= panes.len(),
        forall|i: int| 0 <= i < slot_for(panes, id) ==> !precedes(id, (#[trigger] panes[i]).id@),
        slot_for(panes, id) < panes.len() ==> precedes(id, panes[slot_for(panes, id)].id@),
    decreases panes.len(),
{
    if panes.len() > 0 && !precedes(id, panes[0].id@) {
        let rest = panes.drop_first();
        slot_for_bounds(rest, id);
        assert forall|i: int| 0 < i < panes.len() implies panes[i] == rest[i - 1] by {}
    }
}

/// Puts a pane into the list, in the place of one with its id where there is one.
pub fn insert_pane(panes: &mut Vec<Pane>, pane: Pane)
    requires
        old(panes)@.len() < usize::MAX,
    ensures
        final(panes)@ == with_pane(old(panes)@, pane),
{
    match find_pane(panes, pane.id.as_str()) {
        Some(i) => {
            panes.set(i, pane);
        },
        None => {
            let ghost all = panes@;
            let ghost id = pane.id@;
            let mut i: usize = 0;
            assert(all.skip(0) =~= all);
            while i < panes.len() && !before(pane.id.as_str(), panes[i].id.as_str())
                invariant
                    i <= panes.len(),
                    panes@ == all,
                    id == pane.id@,
                    slot_for(all, id) == i + slot_for(all.skip(i as int), id),
                decreases panes.len() - i,
            {
                assert(all.skip(i as int).drop_first() =~= all.skip(i + 1));
                i += 1;
            }
            panes.insert(i, pane);
        },
    }
}

/// The panes stay in order, each id once, when one is put among them.
pub proof fn with_pane_stays_in_order(panes: Seq<Pane>, pane: Pane)
    requires
        panes_in_order(panes),
    ensures
        panes_in_order(with_pane(panes, pane)),
        pane_index(with_pane(panes, pane), pane.id@) is Some,
{
    pane_index_is_first(panes, pane.id@);
    slot_for_bounds(panes, pane.id@);
    let after = with_pane(panes, pane);
    match pane_index(panes, pane.id@) {
        Some(k) => {
            pane_index_is_first(after, pane.id@);
            assert(after[k].id@ == pane.id@);
        },
        None => {
            let k = slot_for(panes, pane.id@);
            assert forall|i: int, j: int| 0 <= i < j < after.len() implies precedes(
                (#[trigger] after[i]).id@,
                (#[trigger] after[j]).id@,
            ) by {
                if i == k {
                    if k < panes.len() && j - 1 > k {
                        precedes_transitive(pane.id@, panes[k].id@, panes[j - 1].id@);
                    }
                } else if j == k {
                    precedes_total(panes[i].id@, pane.id@);
                } else {
                    let a = if i < k {
                        i
                    } else {
                        i - 1
                    };
                    let b = if j < k {
                        j
                    } else {
                        j - 1
                    };
                    assert(after[i] == panes[a] && after[j] == panes[b]);
                }
            }
            pane_index_is_first(after, pane.id@);
            assert(after[k].id@ == pane.id@);
        },
    }
}

} // verus!

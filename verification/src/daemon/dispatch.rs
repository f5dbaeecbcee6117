//! Requests to a daemon: what each does to the session, and what is left to do outside.
use crate::daemon::capture::{mark_view, restart_refused, unmark_views, view_marked, ViewError};
use crate::daemon::handlers::{
    acknowledge_panes, acknowledged, broadcast_ids, broadcast_targets, claim_pane_sizes,
    clear_notifications, is_metadata_key, is_pane_error, is_zoomed, metadata_fits, metadata_noted,
    naming, pane_titled, paste_data, progress_noted, resize_by, resize_delta, resolve_pane,
    set_clipboard, set_pane_metadata, set_pane_title, set_progress, toggle_zoom, zoom_toggled,
    Naming, PaneError, Zoom, ZoomError,
};
use crate::daemon::navigate::{
    find_workspace_tab, jump_notification, jumped, switch_tab, switched, targeted, wait_targets,
    workspace_pane_ids, workspace_tab_index, Jump, JumpError, TargetError,
};
use crate::daemon::panes::{
    hits, is_tab_error, lists, resolve_workspace_tab_id, workspace_tab_labels, KeyError, TabError,
    TitleError,
};
use crate::daemon::plans::{duplicate_plan, DuplicateError, PanePlan};
use crate::daemon::session::NotifyRequest;
use crate::daemon::workspaces::{
    add_tab, all_taken, capped, close_tab, close_workspace, drop_panes, exited_ids, focus_pane,
    focused, is_select_error, last_tab_number, move_pane, move_workspace, moved, new_workspace,
    pane_moved, panes_swapped, panes_without, prune_exited, rename_tab, rename_workspace,
    scope_ids, select_workspace, selection, set_workspace_cwd, set_workspace_pinned, swap_panes,
    switch_workspace, tab_added, tab_closed, tab_renamed, workspace_added, workspace_closed,
    workspace_replaced, workspace_switched, FocusError, SelectError, Selection,
};
use crate::input::{encode_key_specs, first_bad, spec_error, specs_input};
use crate::model::{
    pane_index, ClipboardItem, Pane, PaneSize, Session, SplitDirection, Workspace,
};
use crate::protocol::Request;
use crate::text::chars::{blank, is_blank, opt_text, texts, trim_text, trimmed};
use vstd::prelude::*;

verus! {

/// What a daemon keeps, besides its running panes.
pub struct Daemon {
    pub session: Session,
    pub next_pane: u64,
    pub next_workspace: u64,
    /// Tells one state of the session from another.
    pub generation: u64,
    /// The client that sets the sizes of panes.
    pub pane_size_owner: Option<String>,
    pub shutting_down: bool,
}

/// Why a request is refused.
#[derive(Debug)]
pub enum DispatchError {
    Select(SelectError),
    Pane(PaneError),
    Title(TitleError),
    MetadataKey(KeyError),
    Tab(TabError),
    Focus(FocusError),
    Zoom(ZoomError),
    Jump(JumpError),
    Keys(crate::input::KeyError),
    Duplicate(DuplicateError),
    Target(TargetError),
    View(ViewError),
    /// Panes have no tabs of their own any more.
    NoPaneTabs,
    /// A command can be given only where one pane is started again.
    CommandForMany,
    EmptyQuery,
    /// Links are counted from one.
    ZeroLink,
    /// Forms are counted from one.
    ZeroForm,
    EmptyActionName,
    LastWorkspace,
    LastTab,
    /// No workspace shows both panes.
    NotTogether,
    NothingCopied,
    /// Numbers have run out.
    NoNumbers,
    /// There is no pane to go to.
    NoPanes,
}

/// What is answered; places are places in the session.
pub enum Answer {
    Pong,
    /// The client has seen this state of the session.
    Unchanged { generation: u64 },
    Empty,
    Workspace(usize),
    Pane(String),
    Metadata(String),
    Tabs(usize),
    Tab { workspace: usize, tab: usize },
    Zoomed { workspace: usize, zoom: Zoom },
    Cleared(usize),
    Jumped(Jump),
    Copied,
    Clipboard,
}

/// What a snapshot of the session is made for.
pub enum Collect {
    /// For a client; with the histories of the listed panes only, where there is a list.
    Snapshot { full: bool, keep: Option<Vec<String>> },
    List,
    Agents,
    Identify { pane: Option<String> },
    Notifications { limit: usize },
    Events { limit: usize },
}

/// What the layout of the active tab is needed for.
pub enum LayoutStep {
    /// The neighbour of the active pane on a side becomes the active one.
    Focus(SplitDirection),
    /// A pane changes places with its neighbour on a side.
    Swap { pane: String, direction: SplitDirection },
    /// The split around the active pane moves by so much.
    Resize { direction: SplitDirection, delta: i16 },
}

/// What a directory is for, once it is known to be one.
pub enum CwdUse {
    /// A workspace with this name is made.
    New { name: String },
    /// The workspace that is named gets it.
    Give { workspace: String },
}

/// What is left to do.
#[allow(inconsistent_fields)]
pub enum Step {
    /// Nothing.
    Done(Answer),
    /// The session has changed and is to be saved.
    Save(Answer),
    Collect(Collect),
    Start(PanePlan),
    /// The pane goes to the tab with the id.
    StartInTab { tab: String, plan: PanePlan },
    /// A page is to be opened or fetched.
    Browse(Request),
    /// The commands that a workspace's project offers are listed, or one of them is run.
    Actions { workspace: usize, run: Option<String> },
    /// The processes of panes that are gone are ended, and the session is to be saved.
    Remove { panes: Vec<String> },
    Kill { pane: String },
    Restart { panes: Vec<String>, command: Option<String>, scoped: bool },
    Layout(LayoutStep),
    Wait { panes: Vec<String>, timeout_ms: Option<u64>, scoped: bool },
    /// A directory is looked for, or the one that the user started in where none is named.
    CheckCwd { cwd: Option<String>, purpose: CwdUse },
    Write { pane: String, data: String },
    Broadcast { panes: Vec<String>, data: String },
    Notify(NotifyRequest),
    Read {
        pane: String,
        scrollback: bool,
        limit_bytes: Option<usize>,
        ansi: bool,
        history_lines: usize,
    },
    Search { pane: String, query: String },
    Clear { pane: String },
    Copy { pane: String, scrollback: bool, limit_bytes: Option<usize> },
    Sizes { panes: Vec<(String, PaneSize)> },
    ViewSize { pane: String, size: PaneSize, lease_ms: u64 },
    ClearView { pane: String },
    ShutDown,
}

/// The next state of a session has another number.
pub open spec fn bumped(generation: u64) -> u64 {
    if generation == u64::MAX {
        0
    } else {
        (generation + 1) as u64
    }
}

/// Notes that the session has changed.
pub fn touch(daemon: &mut Daemon)
    ensures
        *final(daemon) == (Daemon { generation: bumped(old(daemon).generation), ..*old(daemon) }),
{
    daemon.generation = if daemon.generation == u64::MAX {
        0
    } else {
        daemon.generation + 1
    };
}

/// `after` is the daemon `before` with another session, and knows that it has changed.
pub open spec fn changed(before: Daemon, after: Daemon) -> bool {
    after == Daemon {
        session: after.session,
        generation: bumped(before.generation),
        ..before
    }
}

/// What the daemon needs for its numbers and lists to grow.
pub open spec fn can_grow(daemon: Daemon) -> bool {
    &&& daemon.next_pane < u64::MAX
    &&& daemon.next_workspace < u64::MAX
    &&& metadata_fits(daemon.session.panes@)
}

/// `r` refuses because nothing is selected.
pub open spec fn select_refused(sel: Selection, r: Result<Step, DispatchError>) -> bool {
    r matches Err(DispatchError::Select(e)) && is_select_error(sel, e)
}

/// `r` refuses because no pane is named.
pub open spec fn pane_refused(n: Naming, r: Result<Step, DispatchError>) -> bool {
    r matches Err(DispatchError::Pane(e)) && is_pane_error(n, e)
}

/// The plan of a pane for the workspace in a place.
pub open spec fn plan_in(
    session: Session,
    w: int,
    direction: SplitDirection,
    command: String,
    title: Option<String>,
    surface_kind: Option<crate::model::SurfaceKind>,
) -> PanePlan {
    PanePlan {
        direction,
        command,
        title,
        surface_kind,
        workspace: session.workspaces@[w].id,
        cwd: session.workspaces@[w].cwd,
    }
}

/// The scope of a request: a workspace, or none where it is for one pane or for all.
pub enum Scope {
    Of(Option<int>),
    Refused(Selection),
}

/// The scope of a request that may name a workspace.
pub open spec fn scope_of(session: Session, workspace: Option<Seq<char>>, all: bool) -> Scope {
    if all || workspace is None {
        Scope::Of(None)
    } else {
        match selection(session, workspace) {
            Selection::At(w) => Scope::Of(Some(w)),
            other => Scope::Refused(other),
        }
    }
}

/// The place as an integer.
pub open spec fn place(w: Option<usize>) -> Option<int> {
    match w {
        Some(w) => Some(w as int),
        None => None,
    }
}

/// What came of looking for the panes of a request.
pub open spec fn found_targets(
    session: Session,
    pane: Option<Seq<char>>,
    workspace: Option<Seq<char>>,
    all: bool,
    r: Result<Vec<String>, DispatchError>,
) -> bool {
    match scope_of(session, workspace, all) {
        Scope::Refused(sel) => r matches Err(DispatchError::Select(e)) && is_select_error(sel, e),
        Scope::Of(w) => exists|at: Option<usize>, t: Result<Vec<String>, TargetError>|
            place(at) == w && #[trigger] targeted(session, pane, at, all, t) && match t {
                Ok(ids) => r == Ok::<Vec<String>, DispatchError>(ids),
                Err(e) => r == Err::<Vec<String>, DispatchError>(DispatchError::Target(e)),
            },
    }
}

/// An optional text as a slice.
fn as_str(text: &Option<String>) -> (r: Option<&str>)
    ensures
        crate::text::chars::opt_str(r) == opt_text(*text),
{
    match text {
        Some(t) => Some(t.as_str()),
        None => None,
    }
}

/// The panes of a request.
fn find_targets(
    session: &Session,
    pane: &Option<String>,
    workspace: &Option<String>,
    all: bool,
) -> (r: Result<Vec<String>, DispatchError>)
    ensures
        found_targets(*session, opt_text(*pane), opt_text(*workspace), all, r),
{
    let at = if all || workspace.is_none() {
        None
    } else {
        match select_workspace(session, as_str(workspace)) {
            Ok(w) => Some(w),
            Err(e) => {
                return Err(DispatchError::Select(e));
            },
        }
    };
    let t = wait_targets(session, as_str(pane), at, all);
    assert(targeted(*session, opt_text(*pane), at, all, t));
    match t {
        Ok(ids) => Ok(ids),
        Err(e) => Err(DispatchError::Target(e)),
    }
}

/// The tab that a selector names in the workspace in a place: its id; how many tabs it names
/// where that is not one.
pub open spec fn tab_named(w: Workspace, selector: Seq<char>) -> Option<Seq<char>> {
    let found = hits(workspace_tab_labels(w.tabs@), selector);
    if found.len() == 1 {
        Some(w.tabs@[found[0]].id@)
    } else {
        None
    }
}

/// `r` refuses because no tab, or several, are named.
pub open spec fn tab_refused(
    w: Workspace,
    selector: Seq<char>,
    r: Result<Step, DispatchError>,
) -> bool {
    r matches Err(DispatchError::Tab(e)) && is_tab_error(
        e,
        selector,
        hits(workspace_tab_labels(w.tabs@), selector).len(),
    )
}

/// The panes with no viewer that holds the one with the id to a size.
pub open spec fn without_view(panes: Seq<Pane>, id: Seq<char>) -> Seq<Pane> {
    panes.map_values(
        |p: Pane|
            if p.id@ == id {
                Pane { view_size: None, ..p }
            } else {
                p
            },
    )
}

/// Requests that only read, or whose work is all outside.
pub open spec fn asks_or_plans(
    before: Daemon,
    request: Request,
    r: Result<Step, DispatchError>,
) -> bool {
    let s = before.session;
    match request {
        Request::Ping => r == Ok::<Step, DispatchError>(Step::Done(Answer::Pong)),
        Request::Snapshot { since, full, lean, scrollback_panes } => r == Ok::<
            Step,
            DispatchError,
        >(
            if since == Some(before.generation) {
                Step::Done(Answer::Unchanged { generation: before.generation })
            } else {
                Step::Collect(
                    Collect::Snapshot {
                        full,
                        keep: if lean {
                            Some(scrollback_panes)
                        } else {
                            None
                        },
                    },
                )
            },
        ),
        Request::List => r == Ok::<Step, DispatchError>(Step::Collect(Collect::List)),
        Request::Agents => r == Ok::<Step, DispatchError>(Step::Collect(Collect::Agents)),
        Request::Identify { pane } => r == Ok::<Step, DispatchError>(
            Step::Collect(Collect::Identify { pane }),
        ),
        Request::Notifications { limit } => r == Ok::<Step, DispatchError>(
            Step::Collect(Collect::Notifications { limit }),
        ),
        Request::Events { limit } => r == Ok::<Step, DispatchError>(
            Step::Collect(Collect::Events { limit }),
        ),
        Request::NewPane { direction, command, title, workspace, surface_kind } => match selection(
            s,
            opt_text(workspace),
        ) {
            Selection::At(w) => r == Ok::<Step, DispatchError>(
                Step::Start(plan_in(s, w, direction, command, title, surface_kind)),
            ),
            sel => select_refused(sel, r),
        },
        Request::DuplicatePane { pane, direction } => match naming(s, opt_text(pane)) {
            Naming::Pane(id) => match crate::daemon::handlers::holder_index(s.workspaces@, id) {
                Some(w) => {
                    let p = s.panes@[pane_index(s.panes@, id)->0];
                    r == Ok::<Step, DispatchError>(
                        Step::Start(
                            plan_in(
                                s,
                                w,
                                direction,
                                p.command,
                                Some(p.title),
                                Some(p.surface_kind),
                            ),
                        ),
                    )
                },
                None => r matches Err(DispatchError::Duplicate(DuplicateError::Detached(got)))
                    && got@ == id,
            },
            n => pane_refused(n, r),
        },
        Request::OpenUrlLink { index, .. } => if index == 0 {
            r matches Err(DispatchError::ZeroLink)
        } else {
            r == Ok::<Step, DispatchError>(Step::Browse(request))
        },
        Request::SubmitForm { index, .. } => if index == 0 {
            r matches Err(DispatchError::ZeroForm)
        } else {
            r == Ok::<Step, DispatchError>(Step::Browse(request))
        },
        Request::OpenUrl { .. } | Request::UrlSnapshot { .. } | Request::UrlLinks { .. }
        | Request::UrlForms { .. } | Request::UrlEvaluate { .. } | Request::UrlConsole { .. }
        | Request::UrlNetwork { .. } => r == Ok::<Step, DispatchError>(Step::Browse(request)),
        Request::CustomActions { workspace } => match selection(s, opt_text(workspace)) {
            Selection::At(w) => r == Ok::<Step, DispatchError>(
                Step::Actions { workspace: w as usize, run: None },
            ),
            sel => select_refused(sel, r),
        },
        Request::RunCustomAction { name, workspace } => if is_blank(name@) {
            r matches Err(DispatchError::EmptyActionName)
        } else {
            match selection(s, opt_text(workspace)) {
                Selection::At(w) => r == Ok::<Step, DispatchError>(
                    Step::Actions { workspace: w as usize, run: Some(name) },
                ),
                sel => select_refused(sel, r),
            }
        },
        Request::KillPane { pane } => match naming(s, opt_text(pane)) {
            Naming::Pane(id) => r matches Ok(Step::Kill { pane: p }) && p@ == id,
            n => pane_refused(n, r),
        },
        Request::RestartPane { pane, workspace, all, command } => if (workspace is Some || all)
            && command is Some {
            r matches Err(DispatchError::CommandForMany)
        } else {
            exists|t: Result<Vec<String>, DispatchError>| #[trigger]
                found_targets(s, opt_text(pane), opt_text(workspace), all, t) && match t {
                    Ok(panes) => r == Ok::<Step, DispatchError>(
                        Step::Restart { panes, command, scoped: all || workspace is Some },
                    ),
                    Err(e) => r == Err::<Step, DispatchError>(e),
                }
        },
        Request::ListTabs { workspace } => match selection(s, opt_text(workspace)) {
            Selection::At(w) => r == Ok::<Step, DispatchError>(
                Step::Done(Answer::Tabs(w as usize)),
            ),
            sel => select_refused(sel, r),
        },
        Request::MovePaneInLayout { pane, direction } => match naming(s, opt_text(pane)) {
            Naming::Pane(id) => r matches Ok(
                Step::Layout(LayoutStep::Swap { pane: p, direction: d }),
            ) && p@ == id && d == direction,
            n => pane_refused(n, r),
        },
        Request::PaneTabs => r matches Err(DispatchError::NoPaneTabs),
        Request::WaitPane { pane, workspace, all, timeout_ms } => exists|
            t: Result<Vec<String>, DispatchError>,
        | #[trigger]
            found_targets(s, opt_text(pane), opt_text(workspace), all, t) && match t {
                Ok(panes) => r == Ok::<Step, DispatchError>(
                    Step::Wait { panes, timeout_ms, scoped: all || workspace is Some },
                ),
                Err(e) => r == Err::<Step, DispatchError>(e),
            },
        Request::NewWorkspace { name, cwd } => r == Ok::<Step, DispatchError>(
            Step::CheckCwd { cwd, purpose: CwdUse::New { name } },
        ),
        Request::SetWorkspaceCwd { workspace, cwd } => r == Ok::<Step, DispatchError>(
            Step::CheckCwd { cwd: Some(cwd), purpose: CwdUse::Give { workspace } },
        ),
        Request::FocusDirection { direction } => r == Ok::<Step, DispatchError>(
            Step::Layout(LayoutStep::Focus(direction)),
        ),
        Request::Resize { direction, amount } => r == Ok::<Step, DispatchError>(
            Step::Layout(
                LayoutStep::Resize { direction, delta: resize_by(direction, amount) as i16 },
            ),
        ),
        Request::Input { pane, data } => match naming(s, opt_text(pane)) {
            Naming::Pane(id) => r matches Ok(Step::Write { pane: p, data: d }) && p@ == id && d
                == data,
            n => pane_refused(n, r),
        },
        Request::SendKey { pane, keys } => if keys@.len() == 0 {
            r matches Err(DispatchError::Keys(crate::input::KeyError::NoKeys))
        } else {
            match first_bad(texts(keys@)) {
                Some(key) => r matches Err(DispatchError::Keys(e)) && spec_error(key, e),
                None => match naming(s, opt_text(pane)) {
                    Naming::Pane(id) => r matches Ok(Step::Write { pane: p, data: d }) && p@ == id
                        && specs_input(texts(keys@)) == Some(d@),
                    n => pane_refused(n, r),
                },
            }
        },
        Request::Broadcast { scope, data } => r matches Ok(Step::Broadcast { panes, data: d })
            && texts(panes@) == broadcast_ids(s, scope) && d == data,
        Request::Notify { pane, workspace, status, color, clear, message, title } => match workspace {
            Some(selector) => match selection(s, Some(selector@)) {
                Selection::At(w) => r == Ok::<Step, DispatchError>(
                    Step::Notify(
                        NotifyRequest {
                            pane,
                            workspace: Some(s.workspaces@[w].id),
                            status,
                            color,
                            clear,
                            message,
                            title,
                        },
                    ),
                ),
                sel => select_refused(sel, r),
            },
            None => match naming(s, opt_text(pane)) {
                Naming::Pane(id) => r matches Ok(Step::Notify(n)) && n == (NotifyRequest {
                    pane: n.pane,
                    workspace: None,
                    status,
                    color,
                    clear,
                    message,
                    title,
                }) && opt_text(n.pane) == Some(id),
                n => pane_refused(n, r),
            },
        },
        Request::ReadScreen { pane, scrollback, limit_bytes, ansi, history_lines } => match naming(
            s,
            opt_text(pane),
        ) {
            Naming::Pane(id) => r matches Ok(
                Step::Read { pane: p, scrollback: b, limit_bytes: l, ansi: a, history_lines: h },
            ) && p@ == id && b == scrollback && l == limit_bytes && a == ansi && h
                == history_lines,
            n => pane_refused(n, r),
        },
        Request::Search { pane, query } => match naming(s, opt_text(pane)) {
            Naming::Pane(id) => if query@.len() == 0 {
                r matches Err(DispatchError::EmptyQuery)
            } else {
                r matches Ok(Step::Search { pane: p, query: q }) && p@ == id && q == query
            },
            n => pane_refused(n, r),
        },
        Request::ClearPane { pane } => match naming(s, opt_text(pane)) {
            Naming::Pane(id) => r matches Ok(Step::Clear { pane: p }) && p@ == id,
            n => pane_refused(n, r),
        },
        Request::CopyPane { pane, scrollback, limit_bytes } => match naming(s, opt_text(pane)) {
            Naming::Pane(id) => r matches Ok(
                Step::Copy { pane: p, scrollback: b, limit_bytes: l },
            ) && p@ == id && b == scrollback && l == limit_bytes,
            n => pane_refused(n, r),
        },
        Request::Paste { pane, enter } => match s.clipboard {
            None => r matches Err(DispatchError::NothingCopied),
            Some(item) => match naming(s, opt_text(pane)) {
                Naming::Pane(id) => r matches Ok(Step::Write { pane: p, data }) && p@ == id
                    && data@ == if enter {
                    item.text@.push('\n')
                } else {
                    item.text@
                },
                n => pane_refused(n, r),
            },
        },
        Request::Clipboard => r == Ok::<Step, DispatchError>(Step::Done(Answer::Clipboard)),
        _ => false,
    }
}

/// Requests that leave the daemon as it is.
pub open spec fn only_asks(request: Request) -> bool {
    match request {
        Request::Prune { .. } | Request::MovePane { .. } | Request::SwapPanes { .. }
        | Request::SetPaneTitle { .. } | Request::SetPaneMetadata { .. } | Request::NewTab { .. }
        | Request::SwitchTab { .. } | Request::RenameTab { .. } | Request::CloseTab { .. }
        | Request::SwitchWorkspace { .. } | Request::RenameWorkspace { .. }
        | Request::CloseWorkspace { .. } | Request::SetWorkspacePinned { .. }
        | Request::MoveWorkspace { .. } | Request::FocusPane { .. } | Request::ToggleZoom { .. }
        | Request::ClearNotifications | Request::JumpNotification | Request::Progress { .. }
        | Request::SetClipboard { .. } | Request::PaneSizes { .. }
        | Request::SetPaneViewSize { .. } | Request::ClearPaneViewSize { .. }
        | Request::Shutdown => false,
        _ => true,
    }
}

/// Requests on panes that change the session.
pub open spec fn changes_panes(
    before: Daemon,
    request: Request,
    now: u64,
    after: Daemon,
    r: Result<Step, DispatchError>,
) -> bool {
    let s = before.session;
    let t = after.session;
    match request {
        Request::MovePane { pane, workspace, direction } => match naming(s, opt_text(pane)) {
            Naming::Pane(id) => match selection(s, Some(workspace@)) {
                Selection::At(w) => {
                    &&& r == Ok::<Step, DispatchError>(Step::Save(Answer::Workspace(w as usize)))
                    &&& pane_moved(s, t, id, w)
                    &&& changed(before, after)
                },
                sel => select_refused(sel, r) && after == before,
            },
            n => pane_refused(n, r) && after == before,
        },
        Request::SwapPanes { first, second } => exists|w: Option<usize>| #[trigger]
            panes_swapped(s, t, first@, second@, w) && match w {
                Some(w) => r == Ok::<Step, DispatchError>(Step::Save(Answer::Workspace(w)))
                    && changed(before, after),
                None => r matches Err(DispatchError::NotTogether) && after == before,
            },
        Request::SetPaneTitle { pane, title } => if is_blank(title@) {
            r matches Err(DispatchError::Title(_)) && after == before
        } else {
            match naming(s, opt_text(pane)) {
                Naming::Pane(id) => {
                    &&& r matches Ok(Step::Save(Answer::Pane(p))) && p@ == id
                    &&& pane_titled(s, t, id, title@, now)
                    &&& changed(before, after)
                },
                n => pane_refused(n, r) && after == before,
            }
        },
        Request::SetPaneMetadata { pane, key, value } => if !is_metadata_key(key@) {
            r matches Err(DispatchError::MetadataKey(_)) && after == before
        } else {
            match naming(s, opt_text(pane)) {
                Naming::Pane(id) => {
                    &&& r matches Ok(Step::Save(Answer::Metadata(p))) && p@ == id
                    &&& metadata_noted(s, t, id, key@, opt_text(value), now)
                    &&& changed(before, after)
                },
                n => pane_refused(n, r) && after == before,
            }
        },
        Request::Progress { pane, value } => match naming(s, opt_text(pane)) {
            Naming::Pane(id) => {
                &&& r matches Ok(Step::Save(Answer::Pane(p))) && p@ == id
                &&& progress_noted(s, t, id, value, now)
                &&& changed(before, after)
            },
            n => pane_refused(n, r) && after == before,
        },
        Request::FocusPane { pane } => exists|f: Result<(), FocusError>| #[trigger]
            focused(s, t, pane@, now, f) && match f {
                Ok(_) => r == Ok::<Step, DispatchError>(Step::Save(Answer::Empty)) && changed(
                    before,
                    after,
                ),
                Err(e) => r == Err::<Step, DispatchError>(DispatchError::Focus(e)) && after == (
                Daemon { session: t, ..before }),
            },
        Request::ToggleZoom { pane } => match selection(s, None) {
            Selection::At(w) => exists|z: Result<Zoom, ZoomError>| #[trigger]
                zoom_toggled(s.workspaces@[w], t.workspaces@[w], opt_text(pane), z)
                    && workspace_replaced(s, t, w, t.workspaces@[w]) && match z {
                    Ok(zoom) => r == Ok::<Step, DispatchError>(
                        Step::Save(Answer::Zoomed { workspace: w as usize, zoom }),
                    ) && changed(before, after),
                    Err(e) => r == Err::<Step, DispatchError>(DispatchError::Zoom(e)) && after == (
                    Daemon { session: t, ..before }),
                },
            sel => select_refused(sel, r) && after == before,
        },
        Request::JumpNotification => exists|j: Result<Jump, JumpError>| #[trigger]
            jumped(s, t, now, j) && match j {
                Ok(jump) => r == Ok::<Step, DispatchError>(Step::Save(Answer::Jumped(jump)))
                    && changed(before, after),
                Err(e) => r == Err::<Step, DispatchError>(DispatchError::Jump(e)) && after == (
                Daemon { session: t, ..before }),
            },
        Request::ClearNotifications => {
            &&& r == Ok::<Step, DispatchError>(
                Step::Save(Answer::Cleared(s.notifications@.len() as usize)),
            )
            &&& t.notifications@.len() == 0
            &&& t == Session { notifications: t.notifications, ..s }
            &&& changed(before, after)
        },
        Request::SetClipboard { text, source_pane, source } => {
            &&& r == Ok::<Step, DispatchError>(Step::Save(Answer::Copied))
            &&& t == Session {
                clipboard: Some(ClipboardItem { text, source_pane, source, copied_at: now }),
                ..s
            }
            &&& changed(before, after)
        },
        Request::PaneSizes { panes, client_id, take_control } => {
            let owner = match client_id {
                Some(id) => if take_control || before.pane_size_owner is None {
                    Some(id@)
                } else {
                    opt_text(before.pane_size_owner)
                },
                None => opt_text(before.pane_size_owner),
            };
            &&& after == Daemon { pane_size_owner: after.pane_size_owner, ..before }
            &&& opt_text(after.pane_size_owner) == owner
            &&& r == Ok::<Step, DispatchError>(
                if client_id is None || owner == opt_text(client_id) {
                    Step::Sizes { panes }
                } else {
                    Step::Done(Answer::Empty)
                },
            )
        },
        Request::SetPaneViewSize { pane, cols, rows, lease_ms } => match naming(s, Some(pane@)) {
            Naming::Pane(id) => if is_zoomed(s.workspaces@, id) {
                r matches Err(DispatchError::View(ViewError::Zoomed(p))) && p@ == id && after == before
            } else {
                let view = PaneSize { rows, cols };
                &&& r matches Ok(Step::ViewSize { pane: p, size, lease_ms: l }) && p@ == id && size
                    == view && l == lease_ms
                &&& view_marked(s, t, id, view)
                &&& changed(before, after)
            },
            n => pane_refused(n, r) && after == before,
        },
        Request::ClearPaneViewSize { pane } => match naming(s, Some(pane@)) {
            Naming::Pane(id) => {
                &&& r matches Ok(Step::ClearView { pane: p }) && p@ == id
                &&& t.panes@ == without_view(s.panes@, id)
                &&& t == Session { panes: t.panes, ..s }
                &&& changed(before, after)
            },
            n => pane_refused(n, r) && after == before,
        },
        Request::Shutdown => {
            &&& r == Ok::<Step, DispatchError>(Step::ShutDown)
            &&& after == Daemon {
                shutting_down: true,
                generation: bumped(before.generation),
                ..before
            }
        },
        _ => false,
    }
}

/// Requests on workspaces and tabs that change the session.
pub open spec fn changes_workspaces(
    before: Daemon,
    request: Request,
    now: u64,
    after: Daemon,
    r: Result<Step, DispatchError>,
) -> bool {
    let s = before.session;
    let t = after.session;
    match request {
        Request::Prune { workspace, all } => {
            let sel = selection(s, opt_text(workspace));
            if !all && !(sel is At) {
                select_refused(sel, r) && after == before
            } else {
                let w = if all {
                    None
                } else {
                    Some(sel->At_0 as usize)
                };
                &&& r matches Ok(Step::Remove { panes }) && texts(panes@) == exited_ids(
                    s.panes@,
                    scope_ids(s, w),
                ) && all_taken(s, t, texts(panes@))
                &&& changed(before, after)
            }
        },
        Request::NewTab { workspace, title, command } => match selection(s, opt_text(workspace)) {
            Selection::At(w) => {
                let name = match title {
                    Some(title) => if is_blank(title@) {
                        "tab"@
                    } else {
                        trimmed(title@)
                    },
                    None => "tab"@,
                };
                let space = t.workspaces@[w];
                if last_tab_number(s.workspaces@[w]) == u64::MAX {
                    r matches Err(DispatchError::NoNumbers) && t.workspaces@ == s.workspaces@
                        && after == (Daemon { session: t, ..before }) && t == (Session {
                        workspaces: t.workspaces,
                        ..s
                    })
                } else {
                    &&& workspace_replaced(s, t, w, space)
                    &&& tab_added(s.workspaces@[w], space, name)
                    &&& changed(before, after)
                    &&& r matches Ok(Step::StartInTab { tab, plan }) && tab@
                        == space.tabs@.last().id@ && plan == (PanePlan {
                        direction: SplitDirection::Right,
                        command: plan.command,
                        title: None,
                        surface_kind: None,
                        workspace: s.workspaces@[w].id,
                        cwd: s.workspaces@[w].cwd,
                    }) && plan.command@ == match command {
                        Some(c) => c@,
                        None => ""@,
                    }
                }
            },
            sel => select_refused(sel, r) && after == before,
        },
        Request::SwitchTab { workspace, tab } => match selection(s, opt_text(workspace)) {
            Selection::At(w) => match tab_named(s.workspaces@[w], tab@) {
                Some(id) => {
                    let space = t.workspaces@[w];
                    &&& r == Ok::<Step, DispatchError>(Step::Save(Answer::Tabs(w as usize)))
                    &&& switched(s.workspaces@[w], space, id)
                    &&& t.workspaces@ == s.workspaces@.update(w, space)
                    &&& t.active_workspace@ == s.workspaces@[w].id@
                    &&& t.panes@ == acknowledged(s.panes@, texts(space.panes@), now)
                    &&& t == Session {
                        workspaces: t.workspaces,
                        active_workspace: t.active_workspace,
                        panes: t.panes,
                        ..s
                    }
                    &&& changed(before, after)
                },
                None => tab_refused(s.workspaces@[w], tab@, r) && after == before,
            },
            sel => select_refused(sel, r) && after == before,
        },
        Request::RenameTab { workspace, tab, title } => if is_blank(title@) {
            r matches Err(DispatchError::Title(_)) && after == before
        } else {
            match selection(s, opt_text(workspace)) {
                Selection::At(w) => match tab_named(s.workspaces@[w], tab@) {
                    Some(id) => {
                        let i = workspace_tab_index(s.workspaces@[w].tabs@, id)->0;
                        &&& r == Ok::<Step, DispatchError>(
                            Step::Save(Answer::Tab { workspace: w as usize, tab: i as usize }),
                        )
                        &&& workspace_replaced(s, t, w, t.workspaces@[w])
                        &&& tab_renamed(s.workspaces@[w], t.workspaces@[w], i, trimmed(title@))
                        &&& changed(before, after)
                    },
                    None => tab_refused(s.workspaces@[w], tab@, r) && after == before,
                },
                sel => select_refused(sel, r) && after == before,
            }
        },
        Request::CloseTab { workspace, tab } => match selection(s, opt_text(workspace)) {
            Selection::At(w) => match tab_named(s.workspaces@[w], tab@) {
                Some(id) => if s.workspaces@[w].tabs@.len() <= 1 {
                    r matches Err(DispatchError::LastTab) && after == before
                } else {
                    let i = workspace_tab_index(s.workspaces@[w].tabs@, id)->0;
                    &&& r matches Ok(Step::Remove { panes }) && tab_closed(
                        s.workspaces@[w],
                        t.workspaces@[w],
                        i,
                        panes@,
                    ) && t.panes@ == panes_without(s.panes@, texts(panes@))
                    &&& t.workspaces@ == s.workspaces@.update(w, t.workspaces@[w])
                    &&& t == Session { workspaces: t.workspaces, panes: t.panes, ..s }
                    &&& changed(before, after)
                },
                None => tab_refused(s.workspaces@[w], tab@, r) && after == before,
            },
            sel => select_refused(sel, r) && after == before,
        },
        Request::SwitchWorkspace { workspace } => match selection(s, Some(workspace@)) {
            Selection::At(w) => {
                &&& r == Ok::<Step, DispatchError>(Step::Save(Answer::Empty))
                &&& workspace_switched(s, t, w, now)
                &&& changed(before, after)
            },
            sel => select_refused(sel, r) && after == before,
        },
        Request::RenameWorkspace { workspace, name } => match selection(s, Some(workspace@)) {
            Selection::At(w) => {
                &&& r == Ok::<Step, DispatchError>(Step::Save(Answer::Workspace(w as usize)))
                &&& workspace_replaced(s, t, w, Workspace { name, ..s.workspaces@[w] })
                &&& changed(before, after)
            },
            sel => select_refused(sel, r) && after == before,
        },
        Request::CloseWorkspace { workspace } => match selection(s, opt_text(workspace)) {
            Selection::At(w) => if s.workspaces@.len() <= 1 {
                r matches Err(DispatchError::LastWorkspace) && after == before
            } else {
                &&& r matches Ok(Step::Remove { panes }) && texts(panes@) == workspace_pane_ids(
                    s.workspaces@[w],
                )
                &&& workspace_closed(s, t, w)
                &&& changed(before, after)
            },
            sel => select_refused(sel, r) && after == before,
        },
        Request::SetWorkspacePinned { workspace, pinned } => match selection(s, Some(workspace@)) {
            Selection::At(w) => {
                &&& r == Ok::<Step, DispatchError>(Step::Save(Answer::Workspace(w as usize)))
                &&& workspace_replaced(s, t, w, Workspace { pinned, ..s.workspaces@[w] })
                &&& changed(before, after)
            },
            sel => select_refused(sel, r) && after == before,
        },
        Request::MoveWorkspace { workspace, position } => match selection(s, Some(workspace@)) {
            Selection::At(w) => {
                &&& r == Ok::<Step, DispatchError>(
                    Step::Save(
                        Answer::Workspace(capped(position, s.workspaces@.len() - 1) as usize),
                    ),
                )
                &&& t.workspaces@ == moved(s.workspaces@, w, position)
                &&& t == Session { workspaces: t.workspaces, ..s }
                &&& changed(before, after)
            },
            sel => select_refused(sel, r) && after == before,
        },
        _ => false,
    }
}

/// Requests on workspaces and tabs that change the session.
pub open spec fn is_about_workspaces(request: Request) -> bool {
    match request {
        Request::Prune { .. } | Request::NewTab { .. } | Request::SwitchTab { .. }
        | Request::RenameTab { .. } | Request::CloseTab { .. } | Request::SwitchWorkspace { .. }
        | Request::RenameWorkspace { .. } | Request::CloseWorkspace { .. }
        | Request::SetWorkspacePinned { .. } | Request::MoveWorkspace { .. } => true,
        _ => false,
    }
}

/// `r` and `after` are what comes of a request to the daemon `before`.
pub open spec fn dispatched(
    before: Daemon,
    request: Request,
    now: u64,
    after: Daemon,
    r: Result<Step, DispatchError>,
) -> bool {
    if only_asks(request) {
        asks_or_plans(before, request, r) && after == before
    } else if is_about_workspaces(request) {
        changes_workspaces(before, request, now, after, r)
    } else {
        changes_panes(before, request, now, after, r)
    }
}

/// The id of the pane that a request names.
fn name_pane(session: &Session, pane: &Option<String>) -> (r: Result<String, DispatchError>)
    ensures
        match r {
            Ok(id) => naming(*session, opt_text(*pane)) == Naming::Pane(id@),
            Err(e) => e matches DispatchError::Pane(p) && is_pane_error(
                naming(*session, opt_text(*pane)),
                p,
            ),
        },
{
    match resolve_pane(session, as_str(pane)) {
        Ok(id) => Ok(id),
        Err(e) => Err(DispatchError::Pane(e)),
    }
}

/// The place of the workspace that a request names.
fn select(session: &Session, workspace: &Option<String>) -> (r: Result<usize, DispatchError>)
    ensures
        match r {
            Ok(w) => selection(*session, opt_text(*workspace)) == Selection::At(w as int) && w
                < session.workspaces@.len(),
            Err(e) => e matches DispatchError::Select(p) && is_select_error(
                selection(*session, opt_text(*workspace)),
                p,
            ),
        },
{
    match select_workspace(session, as_str(workspace)) {
        Ok(w) => Ok(w),
        Err(e) => Err(DispatchError::Select(e)),
    }
}

/// The place of the workspace with the selector.
fn select_named(session: &Session, workspace: &str) -> (r: Result<usize, DispatchError>)
    ensures
        match r {
            Ok(w) => selection(*session, Some(workspace@)) == Selection::At(w as int) && w
                < session.workspaces@.len(),
            Err(e) => e matches DispatchError::Select(p) && is_select_error(
                selection(*session, Some(workspace@)),
                p,
            ),
        },
{
    match select_workspace(session, Some(workspace)) {
        Ok(w) => Ok(w),
        Err(e) => Err(DispatchError::Select(e)),
    }
}

/// The plan of a pane for the workspace in a place.
fn plan_for(
    session: &Session,
    w: usize,
    direction: SplitDirection,
    command: String,
    title: Option<String>,
    surface_kind: Option<crate::model::SurfaceKind>,
) -> (r: PanePlan)
    requires
        w < session.workspaces@.len(),
    ensures
        r == plan_in(*session, w as int, direction, command, title, surface_kind),
{
    PanePlan {
        direction,
        command,
        title,
        surface_kind,
        workspace: session.workspaces[w].id.clone(),
        cwd: session.workspaces[w].cwd.clone(),
    }
}

/// Requests that only read, or whose work is all outside.
#[verifier::rlimit(40)]
fn ask(daemon: &Daemon, request: Request) -> (r: Result<Step, DispatchError>)
    requires
        only_asks(request),
    ensures
        asks_or_plans(*daemon, request, r),
{
    let s = &daemon.session;
    match request {
        Request::Ping => Ok(Step::Done(Answer::Pong)),
        Request::Snapshot { since, full, lean, scrollback_panes } => {
            let seen = match since {
                Some(generation) => generation == daemon.generation,
                None => false,
            };
            if seen {
                return Ok(Step::Done(Answer::Unchanged { generation: daemon.generation }));
            }
            let keep = if lean {
                Some(scrollback_panes)
            } else {
                None
            };
            Ok(Step::Collect(Collect::Snapshot { full, keep }))
        },
        Request::List => Ok(Step::Collect(Collect::List)),
        Request::Agents => Ok(Step::Collect(Collect::Agents)),
        Request::Identify { pane } => Ok(Step::Collect(Collect::Identify { pane })),
        Request::Notifications { limit } => Ok(Step::Collect(Collect::Notifications { limit })),
        Request::Events { limit } => Ok(Step::Collect(Collect::Events { limit })),
        Request::NewPane { direction, command, title, workspace, surface_kind } => {
            let w = match select(s, &workspace) {
                Ok(w) => w,
                Err(e) => {
                    return Err(e);
                },
            };
            Ok(Step::Start(plan_for(s, w, direction, command, title, surface_kind)))
        },
        Request::DuplicatePane { pane, direction } => {
            let id = match name_pane(s, &pane) {
                Ok(id) => id,
                Err(e) => {
                    return Err(e);
                },
            };
            match duplicate_plan(s, id.as_str(), direction) {
                Ok(plan) => Ok(Step::Start(plan)),
                Err(e) => Err(DispatchError::Duplicate(e)),
            }
        },
        Request::OpenUrlLink { url, index, direction, title, workspace } => {
            if index == 0 {
                Err(DispatchError::ZeroLink)
            } else {
                Ok(
                    Step::Browse(
                        Request::OpenUrlLink { url, index, direction, title, workspace },
                    ),
                )
            }
        },
        Request::SubmitForm { url, index, fields, direction, title, workspace } => {
            if index == 0 {
                Err(DispatchError::ZeroForm)
            } else {
                Ok(
                    Step::Browse(
                        Request::SubmitForm { url, index, fields, direction, title, workspace },
                    ),
                )
            }
        },
        Request::OpenUrl { url, direction, title, workspace } => Ok(
            Step::Browse(Request::OpenUrl { url, direction, title, workspace }),
        ),
        Request::UrlSnapshot { url } => Ok(Step::Browse(Request::UrlSnapshot { url })),
        Request::UrlLinks { url } => Ok(Step::Browse(Request::UrlLinks { url })),
        Request::UrlForms { url } => Ok(Step::Browse(Request::UrlForms { url })),
        Request::UrlEvaluate { url, expression } => Ok(
            Step::Browse(Request::UrlEvaluate { url, expression }),
        ),
        Request::UrlConsole { url } => Ok(Step::Browse(Request::UrlConsole { url })),
        Request::UrlNetwork { url } => Ok(Step::Browse(Request::UrlNetwork { url })),
        Request::CustomActions { workspace } => match select(s, &workspace) {
            Ok(w) => Ok(Step::Actions { workspace: w, run: None }),
            Err(e) => Err(e),
        },
        Request::RunCustomAction { name, workspace } => {
            if blank(name.as_str()) {
                return Err(DispatchError::EmptyActionName);
            }
            match select(s, &workspace) {
                Ok(w) => Ok(Step::Actions { workspace: w, run: Some(name) }),
                Err(e) => Err(e),
            }
        },
        Request::KillPane { pane } => match name_pane(s, &pane) {
            Ok(id) => Ok(Step::Kill { pane: id }),
            Err(e) => Err(e),
        },
        Request::RestartPane { pane, workspace, all, command } => {
            if restart_refused(workspace.is_some(), all, command.is_some()) {
                return Err(DispatchError::CommandForMany);
            }
            let t = find_targets(s, &pane, &workspace, all);
            assert(found_targets(*s, opt_text(pane), opt_text(workspace), all, t));
            match t {
                Ok(panes) => Ok(
                    Step::Restart { panes, command, scoped: all || workspace.is_some() },
                ),
                Err(e) => Err(e),
            }
        },
        Request::ListTabs { workspace } => match select(s, &workspace) {
            Ok(w) => Ok(Step::Done(Answer::Tabs(w))),
            Err(e) => Err(e),
        },
        Request::MovePaneInLayout { pane, direction } => match name_pane(s, &pane) {
            Ok(id) => Ok(Step::Layout(LayoutStep::Swap { pane: id, direction })),
            Err(e) => Err(e),
        },
        Request::PaneTabs => Err(DispatchError::NoPaneTabs),
        Request::WaitPane { pane, workspace, all, timeout_ms } => {
            let t = find_targets(s, &pane, &workspace, all);
            assert(found_targets(*s, opt_text(pane), opt_text(workspace), all, t));
            match t {
                Ok(panes) => Ok(
                    Step::Wait { panes, timeout_ms, scoped: all || workspace.is_some() },
                ),
                Err(e) => Err(e),
            }
        },
        Request::NewWorkspace { name, cwd } => Ok(
            Step::CheckCwd { cwd, purpose: CwdUse::New { name } },
        ),
        Request::SetWorkspaceCwd { workspace, cwd } => Ok(
            Step::CheckCwd { cwd: Some(cwd), purpose: CwdUse::Give { workspace } },
        ),
        Request::FocusDirection { direction } => Ok(Step::Layout(LayoutStep::Focus(direction))),
        Request::Resize { direction, amount } => Ok(
            Step::Layout(
                LayoutStep::Resize { direction, delta: resize_delta(direction, amount) },
            ),
        ),
        Request::Input { pane, data } => match name_pane(s, &pane) {
            Ok(id) => Ok(Step::Write { pane: id, data }),
            Err(e) => Err(e),
        },
        Request::SendKey { pane, keys } => {
            let data = match encode_key_specs(keys.as_slice()) {
                Ok(data) => data,
                Err(e) => {
                    return Err(DispatchError::Keys(e));
                },
            };
            match name_pane(s, &pane) {
                Ok(id) => Ok(Step::Write { pane: id, data }),
                Err(e) => Err(e),
            }
        },
        Request::Broadcast { scope, data } => Ok(
            Step::Broadcast { panes: broadcast_targets(s, scope), data },
        ),
        Request::Notify { pane, workspace, status, color, clear, message, title } => {
            if let Some(selector) = workspace {
                return match select_named(s, selector.as_str()) {
                    Ok(w) => Ok(
                        Step::Notify(
                            NotifyRequest {
                                pane,
                                workspace: Some(s.workspaces[w].id.clone()),
                                status,
                                color,
                                clear,
                                message,
                                title,
                            },
                        ),
                    ),
                    Err(e) => Err(e),
                };
            }
            match name_pane(s, &pane) {
                Ok(id) => Ok(
                    Step::Notify(
                        NotifyRequest {
                            pane: Some(id),
                            workspace: None,
                            status,
                            color,
                            clear,
                            message,
                            title,
                        },
                    ),
                ),
                Err(e) => Err(e),
            }
        },
        Request::ReadScreen { pane, scrollback, limit_bytes, ansi, history_lines } => {
            match name_pane(s, &pane) {
                Ok(id) => Ok(
                    Step::Read { pane: id, scrollback, limit_bytes, ansi, history_lines },
                ),
                Err(e) => Err(e),
            }
        },
        Request::Search { pane, query } => match name_pane(s, &pane) {
            Ok(id) => if query.as_str().unicode_len() == 0 {
                Err(DispatchError::EmptyQuery)
            } else {
                Ok(Step::Search { pane: id, query })
            },
            Err(e) => Err(e),
        },
        Request::ClearPane { pane } => match name_pane(s, &pane) {
            Ok(id) => Ok(Step::Clear { pane: id }),
            Err(e) => Err(e),
        },
        Request::CopyPane { pane, scrollback, limit_bytes } => match name_pane(s, &pane) {
            Ok(id) => Ok(Step::Copy { pane: id, scrollback, limit_bytes }),
            Err(e) => Err(e),
        },
        Request::Paste { pane, enter } => match paste_data(s, enter) {
            None => Err(DispatchError::NothingCopied),
            Some(data) => match name_pane(s, &pane) {
                Ok(id) => Ok(Step::Write { pane: id, data }),
                Err(e) => Err(e),
            },
        },
        Request::Clipboard => Ok(Step::Done(Answer::Clipboard)),
        _ => Err(DispatchError::NoPaneTabs),
    }
}

/// Requests on panes that change the session.
#[verifier::rlimit(60)]
fn change_panes(daemon: &mut Daemon, request: Request, now: u64) -> (r: Result<Step, DispatchError>)
    requires
        !only_asks(request),
        !is_about_workspaces(request),
        can_grow(*old(daemon)),
    ensures
        changes_panes(*old(daemon), request, now, *final(daemon), r),
{
    match request {
        Request::MovePane { pane, workspace, direction: _ } => {
            let id = match name_pane(&daemon.session, &pane) {
                Ok(id) => id,
                Err(e) => {
                    return Err(e);
                },
            };
            let w = match select_named(&daemon.session, workspace.as_str()) {
                Ok(w) => w,
                Err(e) => {
                    return Err(e);
                },
            };
            move_pane(&mut daemon.session, id.as_str(), w);
            touch(daemon);
            Ok(Step::Save(Answer::Workspace(w)))
        },
        Request::SwapPanes { first, second } => {
            let ghost before = daemon.session;
            let w = swap_panes(&mut daemon.session, first.as_str(), second.as_str());
            assert(panes_swapped(before, daemon.session, first@, second@, w));
            match w {
                Some(w) => {
                    touch(daemon);
                    Ok(Step::Save(Answer::Workspace(w)))
                },
                None => Err(DispatchError::NotTogether),
            }
        },
        Request::SetPaneTitle { pane, title } => {
            if blank(title.as_str()) {
                return Err(DispatchError::Title(TitleError::Empty));
            }
            let id = match name_pane(&daemon.session, &pane) {
                Ok(id) => id,
                Err(e) => {
                    return Err(e);
                },
            };
            match set_pane_title(&mut daemon.session, id.as_str(), title, now) {
                Ok(_) => {
                    touch(daemon);
                    Ok(Step::Save(Answer::Pane(id)))
                },
                Err(e) => Err(DispatchError::Title(e)),
            }
        },
        Request::SetPaneMetadata { pane, key, value } => {
            if let Err(e) = crate::daemon::panes::normalize_metadata_key(key.as_str()) {
                return Err(DispatchError::MetadataKey(e));
            }
            let id = match name_pane(&daemon.session, &pane) {
                Ok(id) => id,
                Err(e) => {
                    return Err(e);
                },
            };
            match set_pane_metadata(
                &mut daemon.session,
                id.as_str(),
                key.as_str(),
                as_str(&value),
                now,
            ) {
                Ok(_) => {
                    touch(daemon);
                    Ok(Step::Save(Answer::Metadata(id)))
                },
                Err(e) => Err(DispatchError::MetadataKey(e)),
            }
        },
        Request::Progress { pane, value } => {
            let id = match name_pane(&daemon.session, &pane) {
                Ok(id) => id,
                Err(e) => {
                    return Err(e);
                },
            };
            let _found = set_progress(&mut daemon.session, id.as_str(), value, now);
            touch(daemon);
            Ok(Step::Save(Answer::Pane(id)))
        },
        Request::FocusPane { pane } => {
            let ghost before = daemon.session;
            let f = focus_pane(&mut daemon.session, pane.as_str(), now);
            assert(focused(before, daemon.session, pane@, now, f));
            match f {
                Ok(_) => {
                    touch(daemon);
                    Ok(Step::Save(Answer::Empty))
                },
                Err(e) => Err(DispatchError::Focus(e)),
            }
        },
        Request::ToggleZoom { pane } => {
            let w = match select_workspace(&daemon.session, None) {
                Ok(w) => w,
                Err(e) => {
                    return Err(DispatchError::Select(e));
                },
            };
            let ghost before = daemon.session;
            let z = toggle_zoom(&mut daemon.session.workspaces[w], pane);
            proof {
                let i = w as int;
                assert(zoom_toggled(
                    before.workspaces@[i],
                    daemon.session.workspaces@[i],
                    opt_text(pane),
                    z,
                ));
                assert(workspace_replaced(
                    before,
                    daemon.session,
                    i,
                    daemon.session.workspaces@[i],
                ));
            }
            match z {
                Ok(zoom) => {
                    touch(daemon);
                    Ok(Step::Save(Answer::Zoomed { workspace: w, zoom }))
                },
                Err(e) => Err(DispatchError::Zoom(e)),
            }
        },
        Request::JumpNotification => {
            let ghost before = daemon.session;
            let j = jump_notification(&mut daemon.session, now);
            assert(jumped(before, daemon.session, now, j));
            match j {
                Ok(jump) => {
                    touch(daemon);
                    Ok(Step::Save(Answer::Jumped(jump)))
                },
                Err(e) => Err(DispatchError::Jump(e)),
            }
        },
        Request::ClearNotifications => {
            let count = clear_notifications(&mut daemon.session);
            touch(daemon);
            Ok(Step::Save(Answer::Cleared(count)))
        },
        Request::SetClipboard { text, source_pane, source } => {
            set_clipboard(&mut daemon.session, text, source_pane, source, now);
            touch(daemon);
            Ok(Step::Save(Answer::Copied))
        },
        Request::PaneSizes { panes, client_id, take_control } => {
            if claim_pane_sizes(&mut daemon.pane_size_owner, as_str(&client_id), take_control) {
                Ok(Step::Sizes { panes })
            } else {
                Ok(Step::Done(Answer::Empty))
            }
        },
        Request::SetPaneViewSize { pane, cols, rows, lease_ms } => {
            let id = match resolve_pane(&daemon.session, Some(pane.as_str())) {
                Ok(id) => id,
                Err(e) => {
                    return Err(DispatchError::Pane(e));
                },
            };
            let size = PaneSize { rows, cols };
            match mark_view(&mut daemon.session, id.as_str(), size) {
                Ok(_) => {
                    touch(daemon);
                    Ok(Step::ViewSize { pane: id, size, lease_ms })
                },
                Err(e) => Err(DispatchError::View(e)),
            }
        },
        Request::ClearPaneViewSize { pane } => {
            let id = match resolve_pane(&daemon.session, Some(pane.as_str())) {
                Ok(id) => id,
                Err(e) => {
                    return Err(DispatchError::Pane(e));
                },
            };
            let mut ids: Vec<String> = Vec::new();
            ids.push(id.clone());
            let ghost before = daemon.session.panes@;
            unmark_views(&mut daemon.session.panes, &ids);
            proof {
                assert forall|p: Pane| lists(ids@, p.id@) == (p.id@ == id@) by {
                    if p.id@ == id@ {
                        assert(ids@[0]@ == p.id@);
                    }
                }
                assert(daemon.session.panes@ =~= without_view(before, id@));
            }
            touch(daemon);
            Ok(Step::ClearView { pane: id })
        },
        Request::Shutdown => {
            daemon.shutting_down = true;
            touch(daemon);
            Ok(Step::ShutDown)
        },
        _ => Err(DispatchError::NoPaneTabs),
    }
}

/// The place of the tab that a selector names in a workspace.
fn place_of_tab(workspace: &Workspace, selector: &str) -> (r: Result<usize, DispatchError>)
    ensures
        match r {
            Ok(i) => tab_named(*workspace, selector@) matches Some(id) && workspace_tab_index(
                workspace.tabs@,
                id,
            ) == Some(i as int) && i < workspace.tabs@.len(),
            Err(e) => e matches DispatchError::Tab(t) && is_tab_error(
                t,
                selector@,
                hits(workspace_tab_labels(workspace.tabs@), selector@).len(),
            ) && tab_named(*workspace, selector@) is None,
        },
{
    match resolve_workspace_tab_id(workspace, selector) {
        Err(e) => Err(DispatchError::Tab(e)),
        Ok(id) => {
            proof {
                hits_are_places(workspace_tab_labels(workspace.tabs@), selector@);
                crate::daemon::navigate::workspace_tab_index_is_first(workspace.tabs@, id@);
            }
            match find_workspace_tab(&workspace.tabs, id.as_str()) {
                Some(i) => Ok(i),
                None => Err(DispatchError::LastTab),
            }
        },
    }
}

/// Hits lie within the list.
proof fn hits_are_places(labels: Seq<crate::daemon::panes::Label>, selector: Seq<char>)
    ensures
        forall|k: int|
            0 <= k < hits(labels, selector).len() ==> 0 <= #[trigger] hits(labels, selector)[k]
                < labels.len(),
    decreases labels.len(),
{
    if labels.len() > 0 {
        hits_are_places(labels.drop_last(), selector);
        let before = hits(labels.drop_last(), selector);
        let after = hits(labels, selector);
        assert forall|k: int| 0 <= k < after.len() implies 0 <= #[trigger] after[k]
            < labels.len() by {
            if k < before.len() {
                assert(after[k] == before[k]);
            }
        }
    }
}

/// Requests on workspaces and tabs that change the session.
#[verifier::rlimit(60)]
fn change_workspaces(daemon: &mut Daemon, request: Request, now: u64) -> (r: Result<
    Step,
    DispatchError,
>)
    requires
        is_about_workspaces(request),
    ensures
        changes_workspaces(*old(daemon), request, now, *final(daemon), r),
{
    match request {
        Request::Prune { workspace, all } => {
            let w = if all {
                None
            } else {
                match select(&daemon.session, &workspace) {
                    Ok(w) => Some(w),
                    Err(e) => {
                        return Err(e);
                    },
                }
            };
            let panes = prune_exited(&mut daemon.session, w);
            touch(daemon);
            Ok(Step::Remove { panes })
        },
        Request::NewTab { workspace, title, command } => {
            let w = match select(&daemon.session, &workspace) {
                Ok(w) => w,
                Err(e) => {
                    return Err(e);
                },
            };
            let name = match title {
                Some(title) => if blank(title.as_str()) {
                    "tab".to_string()
                } else {
                    trim_text(title.as_str())
                },
                None => "tab".to_string(),
            };
            let ghost before = daemon.session;
            let command = match command {
                Some(command) => command,
                None => "".to_string(),
            };
            let plan = plan_for(&daemon.session, w, SplitDirection::Right, command, None, None);
            match add_tab(&mut daemon.session.workspaces[w], name.as_str()) {
                None => {
                    assert(daemon.session.workspaces@ =~= before.workspaces@);
                    Err(DispatchError::NoNumbers)
                },
                Some(tab) => {
                    touch(daemon);
                    Ok(Step::StartInTab { tab, plan })
                },
            }
        },
        Request::SwitchTab { workspace, tab } => {
            let w = match select(&daemon.session, &workspace) {
                Ok(w) => w,
                Err(e) => {
                    return Err(e);
                },
            };
            let i = match place_of_tab(&daemon.session.workspaces[w], tab.as_str()) {
                Ok(i) => i,
                Err(e) => {
                    return Err(e);
                },
            };
            let ghost before = daemon.session;
            let id = daemon.session.workspaces[w].tabs[i].id.clone();
            proof {
                crate::daemon::navigate::workspace_tab_index_is_first(
                    before.workspaces@[w as int].tabs@,
                    tab_named(before.workspaces@[w as int], tab@)->0,
                );
            }
            let _found = switch_tab(&mut daemon.session.workspaces[w], id.as_str());
            daemon.session.active_workspace = daemon.session.workspaces[w].id.clone();
            let shown = crate::daemon::handlers::clone_texts(&daemon.session.workspaces[w].panes);
            acknowledge_panes(&mut daemon.session.panes, &shown, now);
            touch(daemon);
            Ok(Step::Save(Answer::Tabs(w)))
        },
        Request::RenameTab { workspace, tab, title } => {
            let title = match crate::daemon::panes::normalize_required_pane_title(title) {
                Ok(title) => title,
                Err(e) => {
                    return Err(DispatchError::Title(e));
                },
            };
            let w = match select(&daemon.session, &workspace) {
                Ok(w) => w,
                Err(e) => {
                    return Err(e);
                },
            };
            let i = match place_of_tab(&daemon.session.workspaces[w], tab.as_str()) {
                Ok(i) => i,
                Err(e) => {
                    return Err(e);
                },
            };
            rename_tab(&mut daemon.session.workspaces[w], i, title);
            touch(daemon);
            Ok(Step::Save(Answer::Tab { workspace: w, tab: i }))
        },
        Request::CloseTab { workspace, tab } => {
            let w = match select(&daemon.session, &workspace) {
                Ok(w) => w,
                Err(e) => {
                    return Err(e);
                },
            };
            let i = match place_of_tab(&daemon.session.workspaces[w], tab.as_str()) {
                Ok(i) => i,
                Err(e) => {
                    return Err(e);
                },
            };
            if daemon.session.workspaces[w].tabs.len() <= 1 {
                return Err(DispatchError::LastTab);
            }
            let panes = close_tab(&mut daemon.session.workspaces[w], i);
            drop_panes(&mut daemon.session.panes, &panes);
            touch(daemon);
            Ok(Step::Remove { panes })
        },
        Request::SwitchWorkspace { workspace } => {
            let w = match select_named(&daemon.session, workspace.as_str()) {
                Ok(w) => w,
                Err(e) => {
                    return Err(e);
                },
            };
            switch_workspace(&mut daemon.session, w, now);
            touch(daemon);
            Ok(Step::Save(Answer::Empty))
        },
        Request::RenameWorkspace { workspace, name } => {
            let w = match select_named(&daemon.session, workspace.as_str()) {
                Ok(w) => w,
                Err(e) => {
                    return Err(e);
                },
            };
            rename_workspace(&mut daemon.session, w, name);
            touch(daemon);
            Ok(Step::Save(Answer::Workspace(w)))
        },
        Request::CloseWorkspace { workspace } => {
            let w = match select(&daemon.session, &workspace) {
                Ok(w) => w,
                Err(e) => {
                    return Err(e);
                },
            };
            if daemon.session.workspaces.len() <= 1 {
                return Err(DispatchError::LastWorkspace);
            }
            let closed = close_workspace(&mut daemon.session, w);
            touch(daemon);
            Ok(Step::Remove { panes: closed.all_pane_ids() })
        },
        Request::SetWorkspacePinned { workspace, pinned } => {
            let w = match select_named(&daemon.session, workspace.as_str()) {
                Ok(w) => w,
                Err(e) => {
                    return Err(e);
                },
            };
            set_workspace_pinned(&mut daemon.session, w, pinned);
            touch(daemon);
            Ok(Step::Save(Answer::Workspace(w)))
        },
        Request::MoveWorkspace { workspace, position } => {
            let w = match select_named(&daemon.session, workspace.as_str()) {
                Ok(w) => w,
                Err(e) => {
                    return Err(e);
                },
            };
            let at = move_workspace(&mut daemon.session, w, position);
            touch(daemon);
            Ok(Step::Save(Answer::Workspace(at)))
        },
        _ => Err(DispatchError::NoPaneTabs),
    }
}

/// Whether a request leaves the daemon as it is.
fn leaves(request: &Request) -> (r: bool)
    ensures
        r == only_asks(*request),
{
    match request {
        Request::Prune { .. } | Request::MovePane { .. } | Request::SwapPanes { .. }
        | Request::SetPaneTitle { .. } | Request::SetPaneMetadata { .. } | Request::NewTab { .. }
        | Request::SwitchTab { .. } | Request::RenameTab { .. } | Request::CloseTab { .. }
        | Request::SwitchWorkspace { .. } | Request::RenameWorkspace { .. }
        | Request::CloseWorkspace { .. } | Request::SetWorkspacePinned { .. }
        | Request::MoveWorkspace { .. } | Request::FocusPane { .. } | Request::ToggleZoom { .. }
        | Request::ClearNotifications | Request::JumpNotification | Request::Progress { .. }
        | Request::SetClipboard { .. } | Request::PaneSizes { .. }
        | Request::SetPaneViewSize { .. } | Request::ClearPaneViewSize { .. }
        | Request::Shutdown => false,
        _ => true,
    }
}

/// Whether a request changes workspaces or tabs.
fn concerns_workspaces(request: &Request) -> (r: bool)
    ensures
        r == is_about_workspaces(*request),
{
    match request {
        Request::Prune { .. } | Request::NewTab { .. } | Request::SwitchTab { .. }
        | Request::RenameTab { .. } | Request::CloseTab { .. } | Request::SwitchWorkspace { .. }
        | Request::RenameWorkspace { .. } | Request::CloseWorkspace { .. }
        | Request::SetWorkspacePinned { .. } | Request::MoveWorkspace { .. } => true,
        _ => false,
    }
}

/// Takes a request: changes the session, and says what is left to do.
pub fn dispatch(daemon: &mut Daemon, request: Request, now: u64) -> (r: Result<Step, DispatchError>)
    requires
        can_grow(*old(daemon)),
    ensures
        dispatched(*old(daemon), request, now, *final(daemon), r),
{
    if leaves(&request) {
        ask(daemon, request)
    } else if concerns_workspaces(&request) {
        change_workspaces(daemon, request, now)
    } else {
        change_panes(daemon, request, now)
    }
}

/// Goes on with a request once its directory is known to be one.
pub fn use_cwd(daemon: &mut Daemon, purpose: CwdUse, cwd: String) -> (r: Result<Step, DispatchError>)
    requires
        can_grow(*old(daemon)),
    ensures
        match purpose {
            CwdUse::New { name } => {
                let s = old(daemon).session;
                &&& r == Ok::<Step, DispatchError>(
                    Step::Save(Answer::Workspace(s.workspaces@.len() as usize)),
                )
                &&& workspace_added(
                    s,
                    final(daemon).session,
                    old(daemon).next_workspace,
                    name@,
                    cwd@,
                )
                &&& *final(daemon) == (Daemon {
                    session: final(daemon).session,
                    next_workspace: (old(daemon).next_workspace + 1) as u64,
                    generation: bumped(old(daemon).generation),
                    ..*old(daemon)
                })
            },
            CwdUse::Give { workspace } => match selection(
                old(daemon).session,
                Some(workspace@),
            ) {
                Selection::At(w) => {
                    &&& r == Ok::<Step, DispatchError>(Step::Save(Answer::Workspace(w as usize)))
                    &&& workspace_replaced(
                        old(daemon).session,
                        final(daemon).session,
                        w,
                        Workspace {
                            cwd,
                            git_branch: None,
                            pull_request: None,
                            ..old(daemon).session.workspaces@[w]
                        },
                    )
                    &&& changed(*old(daemon), *final(daemon))
                },
                sel => select_refused(sel, r) && *final(daemon) == *old(daemon),
            },
        },
{
    match purpose {
        CwdUse::New { name } => {
            let place = daemon.session.workspaces.len();
            new_workspace(&mut daemon.session, &mut daemon.next_workspace, name, cwd);
            touch(daemon);
            Ok(Step::Save(Answer::Workspace(place)))
        },
        CwdUse::Give { workspace } => {
            let w = match select_named(&daemon.session, workspace.as_str()) {
                Ok(w) => w,
                Err(e) => {
                    return Err(e);
                },
            };
            set_workspace_cwd(&mut daemon.session, w, cwd);
            touch(daemon);
            Ok(Step::Save(Answer::Workspace(w)))
        },
    }
}

/// Goes on with a request to go to a side, once the layout has named the pane there.
pub fn focus_next(daemon: &mut Daemon, next: Option<String>, now: u64) -> (r: Result<
    Step,
    DispatchError,
>)
    ensures
        match selection(old(daemon).session, None) {
            Selection::At(w) => match next {
                None => r matches Err(DispatchError::NoPanes) && *final(daemon) == *old(daemon),
                Some(id) => {
                    let s = old(daemon).session;
                    let t = final(daemon).session;
                    &&& r == Ok::<Step, DispatchError>(Step::Save(Answer::Pane(id)))
                    &&& t.workspaces@ == s.workspaces@.update(
                        w,
                        Workspace { active_pane: Some(id), ..s.workspaces@[w] },
                    )
                    &&& t.panes@ == acknowledged(s.panes@, seq![id@], now)
                    &&& t == Session { workspaces: t.workspaces, panes: t.panes, ..s }
                    &&& changed(*old(daemon), *final(daemon))
                },
            },
            sel => select_refused(sel, r) && *final(daemon) == *old(daemon),
        },
{
    let w = match select_workspace(&daemon.session, None) {
        Ok(w) => w,
        Err(e) => {
            return Err(DispatchError::Select(e));
        },
    };
    let id = match next {
        Some(id) => id,
        None => {
            return Err(DispatchError::NoPanes);
        },
    };
    let space = &mut daemon.session.workspaces[w];
    space.active_pane = Some(id.clone());
    let mut seen: Vec<String> = Vec::new();
    seen.push(id.clone());
    assert(texts(seen@) =~= seq![id@]);
    acknowledge_panes(&mut daemon.session.panes, &seen, now);
    touch(daemon);
    Ok(Step::Save(Answer::Pane(id)))
}

/// A client that has seen a state of the session is told of every change: what is to be saved
/// has another number than what it has seen.
pub proof fn changes_are_noticed(
    before: Daemon,
    request: Request,
    now: u64,
    after: Daemon,
    r: Result<Step, DispatchError>,
)
    requires
        dispatched(before, request, now, after, r),
        r matches Ok(Step::Save(_)) || r matches Ok(Step::Remove { .. }),
    ensures
        after.generation != before.generation,
{
}

/// Whatever a request changes at once is counted: the session has another number then.
pub proof fn changes_are_counted(
    before: Daemon,
    request: Request,
    now: u64,
    after: Daemon,
    r: Result<Step, DispatchError>,
)
    requires
        dispatched(before, request, now, after, r),
        r is Ok,
        after.session != before.session,
    ensures
        after.generation != before.generation,
{
}

/// To ask changes nothing, and is not counted.
pub proof fn asking_is_not_counted(
    before: Daemon,
    request: Request,
    now: u64,
    after: Daemon,
    r: Result<Step, DispatchError>,
)
    requires
        dispatched(before, request, now, after, r),
        only_asks(request),
    ensures
        after == before,
{
}

/// A request that is refused changes nothing, but for one to show a pane that its workspace
/// does not show, which goes to that workspace.
pub proof fn refusals_change_nothing(
    before: Daemon,
    request: Request,
    now: u64,
    after: Daemon,
    r: Result<Step, DispatchError>,
)
    requires
        dispatched(before, request, now, after, r),
        r is Err,
        !(request is FocusPane),
    ensures
        after.session.workspaces@ == before.session.workspaces@,
        after == (Daemon {
            session: Session { workspaces: after.session.workspaces, ..before.session },
            ..before
        }),
{
    if let Request::ToggleZoom { pane } = request {
        crate::daemon::workspaces::selection_is_a_place(before.session, None);
        if let Selection::At(w) = selection(before.session, None) {
            assert(after.session.workspaces@ =~= before.session.workspaces@);
        }
    }
}

} // verus!

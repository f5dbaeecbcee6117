//! What a daemon does when it is asked for tabs, notes, views and pages.
use crate::daemon::dispatch::{dispatched, tab_named, Answer, Daemon, DispatchError, Step};
use crate::daemon::handlers::{broadcast_ids, is_zoomed, pane_ids};
use crate::daemon::navigate::workspace_tab_index;
use crate::daemon::panes::workspace_tab_labels;
use crate::daemon::runtime::sane;
use crate::daemon::workspaces::last_tab_number;
use crate::input::KeyError;
use crate::laws::requests::{has_the_id, named, names_the_pane};
use crate::laws::spaces::{
    going_to_a_tab, labels_name_tabs, pruning_takes_the_exited, selectors_name_workspaces,
};
use crate::model::{
    pane_index, pane_index_is_first, BroadcastScope, Pane, PaneSize, PaneStatus, SplitDirection,
    Workspace, WorkspaceTab,
};
use crate::protocol::Request;
use crate::text::chars::{is_blank, opt_text, texts, trimmed};
use vstd::prelude::*;

verus! {

/// The text is the id of the tab, and neither the id nor the title of another.
pub open spec fn names_the_tab(w: Workspace, tab: Seq<char>, t: int) -> bool {
    &&& 0 <= t < w.tabs@.len()
    &&& w.tabs@[t].id@ == tab
    &&& forall|j: int|
        0 <= j < w.tabs@.len() && j != t ==> (#[trigger] w.tabs@[j]).id@ != tab && w.tabs@[j].title@
            != tab
}

proof fn tab_is_named(w: Workspace, tab: Seq<char>, t: int)
    requires
        names_the_tab(w, tab, t),
    ensures
        tab_named(w, tab) == Some(tab),
        workspace_tab_index(w.tabs@, tab) == Some(t),
{
    let labels = workspace_tab_labels(w.tabs@);
    assert(labels[t].id == tab);
    assert forall|j: int| 0 <= j < labels.len() && j != t implies (#[trigger] labels[j]).id != tab
        && labels[j].title != tab by {
        assert(w.tabs@[j].id@ != tab && w.tabs@[j].title@ != tab);
    }
    labels_name_tabs(labels, tab, t);
    first_tab(w.tabs@, tab, t);
}

proof fn first_tab(tabs: Seq<WorkspaceTab>, tab: Seq<char>, t: int)
    requires
        0 <= t < tabs.len(),
        tabs[t].id@ == tab,
        forall|j: int| 0 <= j < t ==> (#[trigger] tabs[j]).id@ != tab,
    ensures
        workspace_tab_index(tabs, tab) == Some(t),
    decreases tabs.len(),
{
    if t > 0 {
        let rest = tabs.drop_first();
        assert forall|j: int| 0 <= j < t - 1 implies (#[trigger] rest[j]).id@ != tab by {
            assert(rest[j] == tabs[j + 1]);
        }
        assert(tabs[0].id@ != tab);
        first_tab(rest, tab, t - 1);
    }
}

/// A new tab comes behind the others and is shown, with the title that was given, or `tab`; a pane
/// is started in it, in the directory of the workspace.
pub proof fn new_tabs_are_shown(
    before: Daemon,
    now: u64,
    after: Daemon,
    r: Result<Step, DispatchError>,
    workspace: String,
    title: Option<String>,
    command: Option<String>,
    w: int,
)
    requires
        has_the_id(before.session, workspace@, w),
        last_tab_number(before.session.workspaces@[w]) < u64::MAX,
        dispatched(
            before,
            Request::NewTab { workspace: Some(workspace), title, command },
            now,
            after,
            r,
        ),
    ensures
        ({
            let space = after.session.workspaces@[w];
            &&& space.tabs@.len() == before.session.workspaces@[w].tabs@.len() + 1
            &&& opt_text(space.active_tab) == Some(space.tabs@.last().id@)
            &&& title is None ==> space.tabs@.last().title@ == "tab"@
            &&& title matches Some(t) ==> is_blank(t@) ==> space.tabs@.last().title@ == "tab"@
            &&& title matches Some(t) ==> !is_blank(t@) ==> space.tabs@.last().title@ == trimmed(t@)
            &&& r matches Ok(Step::StartInTab { tab, plan }) && tab@ == space.tabs@.last().id@
                && plan.workspace == before.session.workspaces@[w].id && plan.cwd
                == before.session.workspaces@[w].cwd && (command matches Some(c) ==> plan.command@
                == c@)
        }),
        after.generation != before.generation,
{
    selectors_name_workspaces(before.session, workspace@, w);
}

/// Going to a tab shows its panes, and its workspace.
pub proof fn tabs_are_gone_to(
    before: Daemon,
    now: u64,
    after: Daemon,
    r: Result<Step, DispatchError>,
    workspace: String,
    tab: String,
    w: int,
    from: int,
    to: int,
)
    requires
        has_the_id(before.session, workspace@, w),
        names_the_tab(before.session.workspaces@[w], tab@, to),
        0 <= from < before.session.workspaces@[w].tabs@.len(),
        from != to,
        opt_text(before.session.workspaces@[w].active_tab) == Some(
            before.session.workspaces@[w].tabs@[from].id@,
        ),
        forall|i: int, j: int|
            0 <= i < j < before.session.workspaces@[w].tabs@.len() ==> (
            #[trigger] before.session.workspaces@[w].tabs@[i]).id@ != (
            #[trigger] before.session.workspaces@[w].tabs@[j]).id@,
        dispatched(
            before,
            Request::SwitchTab { workspace: Some(workspace), tab },
            now,
            after,
            r,
        ),
    ensures
        after.session.active_workspace@ == workspace@,
        opt_text(after.session.workspaces@[w].active_tab) == Some(tab@),
        after.session.workspaces@[w].panes@ == before.session.workspaces@[w].tabs@[to].panes@,
        after.session.workspaces@[w].tabs@[from].panes@ == before.session.workspaces@[w].panes@,
        r matches Ok(Step::Save(Answer::Tabs(_))),
{
    selectors_name_workspaces(before.session, workspace@, w);
    tab_is_named(before.session.workspaces@[w], tab@, to);
    going_to_a_tab(
        before.session.workspaces@[w],
        after.session.workspaces@[w],
        tab@,
        from,
        to,
    );
}

/// A tab is renamed by its id; a blank title is refused.
pub proof fn tabs_are_renamed(
    before: Daemon,
    now: u64,
    after: Daemon,
    r: Result<Step, DispatchError>,
    workspace: String,
    tab: String,
    title: String,
    w: int,
    t: int,
)
    requires
        has_the_id(before.session, workspace@, w),
        names_the_tab(before.session.workspaces@[w], tab@, t),
        dispatched(
            before,
            Request::RenameTab { workspace: Some(workspace), tab, title },
            now,
            after,
            r,
        ),
    ensures
        is_blank(title@) ==> r is Err && after == before,
        !is_blank(title@) ==> after.session.workspaces@[w].tabs@[t].title@ == trimmed(title@)
            && after.session.workspaces@[w].tabs@[t].title_locked
            && after.session.workspaces@[w].tabs@[t].panes
            == before.session.workspaces@[w].tabs@[t].panes,
{
    selectors_name_workspaces(before.session, workspace@, w);
    tab_is_named(before.session.workspaces@[w], tab@, t);
}

/// The last tab of a workspace is not closed; what goes with another tab goes with its panes.
pub proof fn the_last_tab_stays(
    before: Daemon,
    now: u64,
    after: Daemon,
    r: Result<Step, DispatchError>,
    workspace: String,
    tab: String,
    w: int,
    t: int,
)
    requires
        has_the_id(before.session, workspace@, w),
        names_the_tab(before.session.workspaces@[w], tab@, t),
        dispatched(
            before,
            Request::CloseTab { workspace: Some(workspace), tab },
            now,
            after,
            r,
        ),
    ensures
        before.session.workspaces@[w].tabs@.len() == 1 ==> (r matches Err(DispatchError::LastTab))
            && after == before,
        before.session.workspaces@[w].tabs@.len() > 1 ==> r is Ok && r->Ok_0 is Remove
            && after.generation != before.generation,
{
    selectors_name_workspaces(before.session, workspace@, w);
    tab_is_named(before.session.workspaces@[w], tab@, t);
}

/// Pruning takes all panes that have exited out of the session.
pub proof fn exited_panes_are_pruned(
    before: Daemon,
    now: u64,
    after: Daemon,
    r: Result<Step, DispatchError>,
)
    requires
        dispatched(before, Request::Prune { workspace: None, all: true }, now, after, r),
    ensures
        r matches Ok(Step::Remove { panes }) && texts(panes@) == pane_ids(
            before.session.panes@.filter(|p: Pane| p.status == PaneStatus::Exited),
        ),
{
    pruning_takes_the_exited(before.session.panes@, None);
}

/// A note for a workspace is about it; its words are handed on as they are.
pub proof fn notes_for_workspaces(
    before: Daemon,
    now: u64,
    after: Daemon,
    r: Result<Step, DispatchError>,
    pane: Option<String>,
    workspace: String,
    status: Option<String>,
    color: Option<String>,
    clear: bool,
    message: String,
    title: Option<String>,
    w: int,
)
    requires
        has_the_id(before.session, workspace@, w),
        dispatched(
            before,
            Request::Notify {
                pane,
                workspace: Some(workspace),
                status,
                color,
                clear,
                message,
                title,
            },
            now,
            after,
            r,
        ),
    ensures
        r matches Ok(Step::Notify(n)) && n.pane == pane && n.workspace == Some(
            before.session.workspaces@[w].id,
        ) && n.status == status && n.color == color && n.clear == clear && n.message == message
            && n.title == title,
        after == before,
{
    selectors_name_workspaces(before.session, workspace@, w);
}

/// A broadcast hands its text to the panes of its scope.
pub proof fn broadcasts_hand_on_their_text(
    before: Daemon,
    now: u64,
    after: Daemon,
    r: Result<Step, DispatchError>,
    scope: BroadcastScope,
    data: String,
)
    requires
        dispatched(before, Request::Broadcast { scope, data }, now, after, r),
    ensures
        r matches Ok(Step::Broadcast { panes, data: d }) && d == data && texts(panes@)
            == broadcast_ids(before.session, scope),
        after == before,
{
}

/// Links and forms are counted from one, an action has a name, keys are some, and a command is for
/// one pane: what is not so is refused and changes nothing.
pub proof fn what_is_not_there_is_refused(
    before: Daemon,
    now: u64,
    after: Daemon,
    r: Result<Step, DispatchError>,
    url: String,
    text: String,
    direction: SplitDirection,
    title: Option<String>,
    workspace: Option<String>,
    pane: Option<String>,
    fields: Vec<(String, String)>,
    keys: Vec<String>,
)
    ensures
        dispatched(
            before,
            Request::OpenUrlLink { url, index: 0, direction, title, workspace },
            now,
            after,
            r,
        ) ==> (r matches Err(DispatchError::ZeroLink)) && after == before,
        dispatched(
            before,
            Request::SubmitForm { url, index: 0, fields, direction, title, workspace },
            now,
            after,
            r,
        ) ==> (r matches Err(DispatchError::ZeroForm)) && after == before,
        is_blank(text@) && dispatched(
            before,
            Request::RunCustomAction { name: text, workspace },
            now,
            after,
            r,
        ) ==> (r matches Err(DispatchError::EmptyActionName)) && after == before,
        keys@.len() == 0 && dispatched(before, Request::SendKey { pane, keys }, now, after, r) ==> (
        r matches Err(DispatchError::Keys(KeyError::NoKeys))) && after == before,
        dispatched(
            before,
            Request::RestartPane { pane, workspace, all: true, command: Some(text) },
            now,
            after,
            r,
        ) ==> (r matches Err(DispatchError::CommandForMany)) && after == before,
        before.session.clipboard is None && dispatched(
            before,
            Request::Paste { pane, enter: true },
            now,
            after,
            r,
        ) ==> (r matches Err(DispatchError::NothingCopied)) && after == before,
        dispatched(before, Request::PaneTabs, now, after, r) ==> (r matches Err(
            DispatchError::NoPaneTabs,
        )) && after == before,
{
}

/// A view of a pane is two rows and two columns at least; a zoomed pane has none, and giving it up
/// leaves the other panes alone.
pub proof fn views_are_held_and_given_up(
    before: Daemon,
    now: u64,
    after: Daemon,
    r: Result<Step, DispatchError>,
    pane: String,
    cols: u16,
    rows: u16,
    lease_ms: u64,
    i: int,
    j: int,
)
    requires
        names_the_pane(before.session, Some(pane), i),
        forall|k: int|
            0 <= k < i ==> (#[trigger] before.session.panes@[k]).id@ != before.session.panes@[i].id@,
        0 <= j < before.session.panes@.len(),
        before.session.panes@[j].id@ != before.session.panes@[i].id@,
    ensures
        dispatched(
            before,
            Request::SetPaneViewSize { pane, cols, rows, lease_ms },
            now,
            after,
            r,
        ) && is_zoomed(before.session.workspaces@, before.session.panes@[i].id@) ==> r is Err
            && after == before,
        dispatched(
            before,
            Request::SetPaneViewSize { pane, cols, rows, lease_ms },
            now,
            after,
            r,
        ) && !is_zoomed(before.session.workspaces@, before.session.panes@[i].id@) && rows >= 2
            && cols >= 2 ==> after.session.panes@[i].view_size == Some(PaneSize { rows, cols })
            && after.session.panes@[j] == before.session.panes@[j],
        dispatched(before, Request::ClearPaneViewSize { pane }, now, after, r)
            ==> after.session.panes@[i].view_size is None && after.session.panes@[j]
            == before.session.panes@[j],
{
    let s = before.session;
    let id = s.panes@[i].id@;
    pane_index_is_first(s.panes@, id);
    assert(pane_index(s.panes@, id) == Some(i));
    named(s, Some(pane), i);
    assert(sane(PaneSize { rows, cols }).rows >= 2);
}

} // verus!

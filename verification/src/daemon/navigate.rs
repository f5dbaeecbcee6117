//! Going to tabs and panes, and taking panes away.
use crate::daemon::handlers::{
    acknowledge_panes, acknowledged, all_pane_ids, clone_texts, find_pane_location, find_workspace,
    holder_index, is_pane_error, jump_index, jump_target, naming, pane_ids, resolve_pane,
    tab_of_pane, workspace_index, Naming, PaneError,
};
use crate::daemon::panes::{listed, lists};
use crate::model::{find_pane, notes, pane_index, Pane, Session, Workspace, WorkspaceTab};
use crate::text::chars::{clone_opt, is_opt_text, opt_str, opt_text, same, texts};
use vstd::prelude::*;

verus! {

/// The place of the first tab with the id.
pub open spec fn workspace_tab_index(tabs: Seq<WorkspaceTab>, id: Seq<char>) -> Option<int>
    decreases tabs.len(),
{
    if tabs.len() == 0 {
        None
    } else if tabs[0].id@ == id {
        Some(0)
    } else {
        match workspace_tab_index(tabs.drop_first(), id) {
            Some(i) => Some(i + 1),
            None => None,
        }
    }
}

/// The place found holds the id, and no earlier one does.
pub proof fn workspace_tab_index_is_first(tabs: Seq<WorkspaceTab>, id: Seq<char>)
    ensures
        workspace_tab_index(tabs, id) matches Some(i) ==> 0 <= i < tabs.len() && tabs[i].id@ == id
            && (forall|j: int| 0 <= j < i ==> (#[trigger] tabs[j]).id@ != id),
        workspace_tab_index(tabs, id) is None ==> (forall|j: int|
            0 <= j < tabs.len() ==> (#[trigger] tabs[j]).id@ != id),
    decreases tabs.len(),
{
    if tabs.len() > 0 && tabs[0].id@ != id {
        let rest = tabs.drop_first();
        workspace_tab_index_is_first(rest, id);
        assert forall|j: int| 0 < j < tabs.len() implies tabs[j] == rest[j - 1] by {}
    }
}

/// A tab that stands where another with its id stood is found there.
proof fn index_after_update(tabs: Seq<WorkspaceTab>, i: int, tab: WorkspaceTab, id: Seq<char>)
    requires
        0 <= i < tabs.len(),
        tab.id@ == tabs[i].id@,
    ensures
        workspace_tab_index(tabs.update(i, tab), id) == workspace_tab_index(tabs, id),
    decreases tabs.len(),
{
    if tabs.len() > 0 && i > 0 {
        index_after_update(tabs.drop_first(), i - 1, tab, id);
        assert(tabs.update(i, tab).drop_first() =~= tabs.drop_first().update(i - 1, tab));
    } else {
        assert(tabs.update(i, tab).drop_first() =~= tabs.drop_first());
    }
}

/// The place of the first tab with the id.
pub fn find_workspace_tab(tabs: &Vec<WorkspaceTab>, id: &str) -> (r: Option<usize>)
    ensures
        r matches Some(i) ==> workspace_tab_index(tabs@, id@) == Some(i as int) && i < tabs@.len()
            && tabs@[i as int].id@ == id@,
        r is None ==> workspace_tab_index(tabs@, id@) is None,
{
    let mut i: usize = 0;
    assert(tabs@.skip(0) =~= tabs@);
    while i < tabs.len()
        invariant
            i <= tabs.len(),
            workspace_tab_index(tabs@, id@) == match workspace_tab_index(
                tabs@.skip(i as int),
                id@,
            ) {
                Some(k) => Some(k + i),
                None => None,
            },
        decreases tabs.len() - i,
    {
        assert(tabs@.skip(i as int).drop_first() =~= tabs@.skip(i + 1));
        if same(tabs[i].id.as_str(), id) {
            return Some(i);
        }
        i += 1;
    }
    None
}

/// The tab of the workspace that is active, where it has a record.
pub open spec fn active_tab_index(w: Workspace) -> Option<int> {
    match opt_text(w.active_tab) {
        Some(id) => workspace_tab_index(w.tabs@, id),
        None => None,
    }
}

/// The tabs `after` are those of the workspace, with what it shows in the active one.
pub open spec fn flushed_tabs(w: Workspace, after: Seq<WorkspaceTab>) -> bool {
    match active_tab_index(w) {
        None => after == w.tabs@,
        Some(i) => {
            let tab = after[i];
            &&& after == w.tabs@.update(i, tab)
            &&& tab == WorkspaceTab {
                panes: tab.panes,
                active_pane: w.active_pane,
                zoomed_pane: w.zoomed_pane,
                ..w.tabs@[i]
            }
            &&& tab.panes@ == w.panes@
        },
    }
}

/// Writes what the workspace shows into the record of its active tab.
pub fn flush_active_tab(workspace: &mut Workspace)
    ensures
        *final(workspace) == (Workspace { tabs: final(workspace).tabs, ..*old(workspace) }),
        flushed_tabs(*old(workspace), final(workspace).tabs@),
{
    let found = match &workspace.active_tab {
        Some(id) => find_workspace_tab(&workspace.tabs, id.as_str()),
        None => None,
    };
    if let Some(i) = found {
        let panes = clone_texts(&workspace.panes);
        let active_pane = clone_opt(&workspace.active_pane);
        let zoomed_pane = clone_opt(&workspace.zoomed_pane);
        let tab = &mut workspace.tabs[i];
        tab.panes = panes;
        tab.active_pane = active_pane;
        tab.zoomed_pane = zoomed_pane;
    }
}

/// `after` is the workspace `before` once it shows the tab: what it showed is in the record
/// of the tab that was active, and what the record of the tab holds is shown.
pub open spec fn switched(before: Workspace, after: Workspace, id: Seq<char>) -> bool {
    let tab = after.tabs@[workspace_tab_index(before.tabs@, id)->0];
    &&& flushed_tabs(before, after.tabs@)
    &&& after == Workspace {
        tabs: after.tabs,
        panes: after.panes,
        active_tab: after.active_tab,
        active_pane: tab.active_pane,
        zoomed_pane: tab.zoomed_pane,
        ..before
    }
    &&& after.panes@ == tab.panes@
    &&& opt_text(after.active_tab) == Some(id)
}

/// Shows a tab of the workspace. Says whether there is such a tab.
pub fn switch_tab(workspace: &mut Workspace, id: &str) -> (found: bool)
    ensures
        found == (workspace_tab_index(old(workspace).tabs@, id@) is Some),
        !found ==> *final(workspace) == *old(workspace),
        found ==> switched(*old(workspace), *final(workspace), id@),
{
    let ghost before = *workspace;
    let i = match find_workspace_tab(&workspace.tabs, id) {
        Some(i) => i,
        None => {
            return false;
        },
    };
    flush_active_tab(workspace);
    proof {
        if let Some(k) = active_tab_index(before) {
            workspace_tab_index_is_first(before.tabs@, opt_text(before.active_tab)->0);
        }
    }
    let panes = clone_texts(&workspace.tabs[i].panes);
    let active_pane = clone_opt(&workspace.tabs[i].active_pane);
    let zoomed_pane = clone_opt(&workspace.tabs[i].zoomed_pane);
    workspace.panes = panes;
    workspace.active_pane = active_pane;
    workspace.zoomed_pane = zoomed_pane;
    workspace.active_tab = Some(id.to_string());
    true
}

/// Going to another tab and back shows what was shown before.
pub proof fn switching_back_restores(a: Workspace, b: Workspace, c: Workspace, id: Seq<char>)
    requires
        active_tab_index(a) is Some,
        workspace_tab_index(a.tabs@, id) is Some,
        switched(a, b, id),
        switched(b, c, opt_text(a.active_tab)->0),
    ensures
        c.panes@ == a.panes@,
        c.active_pane == a.active_pane,
        c.zoomed_pane == a.zoomed_pane,
        opt_text(c.active_tab) == opt_text(a.active_tab),
{
    let home = opt_text(a.active_tab)->0;
    let i = active_tab_index(a)->0;
    workspace_tab_index_is_first(a.tabs@, home);
    workspace_tab_index_is_first(a.tabs@, id);
    index_after_update(a.tabs@, i, b.tabs@[i], home);
    index_after_update(a.tabs@, i, b.tabs@[i], id);
    assert(b.tabs@ == a.tabs@.update(i, b.tabs@[i]));
}

/// Where a jump went.
pub struct Jump {
    pub workspace: String,
    pub tab: Option<String>,
    pub pane: Option<String>,
    /// The place of the notification in the feed.
    pub note: usize,
}

/// Why there was nowhere to go.
#[derive(Debug)]
pub enum JumpError {
    /// The feed holds no notification to go to.
    Empty,
    /// The pane is in no workspace any more.
    Detached(String),
    /// The notification names neither a pane nor a workspace.
    NoTarget,
    /// The workspace is gone.
    NoWorkspace(String),
    /// The tab is gone.
    NoTab(String),
}

/// `after` is the workspace `before` once it shows the tab, where that is another one.
pub open spec fn on_tab(before: Workspace, after: Workspace, tab: Option<Seq<char>>) -> bool {
    if tab is Some && tab != opt_text(before.active_tab) {
        switched(before, after, tab->0)
    } else {
        after == before
    }
}

/// `after` is the workspace `before` once the pane is the active one, in the record of the
/// active tab too.
pub open spec fn activated(before: Workspace, after: Workspace, pane: Seq<char>) -> bool {
    &&& opt_text(after.active_pane) == Some(pane)
    &&& after == Workspace { active_pane: after.active_pane, tabs: after.tabs, ..before }
    &&& flushed_tabs(
        Workspace { active_pane: after.active_pane, ..before },
        after.tabs@,
    )
}

/// `after` is the workspace `before` once it shows the pane, on the tab.
pub open spec fn shown_pane(
    before: Workspace,
    after: Workspace,
    tab: Option<Seq<char>>,
    pane: Seq<char>,
) -> bool {
    exists|mid: Workspace| #[trigger] on_tab(before, mid, tab) && activated(mid, after, pane)
}

fn show_pane(workspace: &mut Workspace, tab: &Option<String>, pane: &str) -> (shown: bool)
    ensures
        shown == !(tab is Some && opt_text(*tab) != opt_text(old(workspace).active_tab)
            && workspace_tab_index(old(workspace).tabs@, opt_text(*tab)->0) is None),
        !shown ==> *final(workspace) == *old(workspace),
        shown ==> shown_pane(*old(workspace), *final(workspace), opt_text(*tab), pane@),
{
    let ghost before = *workspace;
    if let Some(id) = tab {
        if !is_opt_text(&workspace.active_tab, id.as_str()) {
            if !switch_tab(workspace, id.as_str()) {
                return false;
            }
        }
    }
    let ghost mid = *workspace;
    workspace.active_pane = Some(pane.to_string());
    flush_active_tab(workspace);
    assert(on_tab(before, mid, opt_text(*tab)));
    assert(activated(mid, *workspace, pane@));
    true
}

/// `r` and `after` are what comes of going, in the session `before`, to what the feed says
/// needs its user.
pub open spec fn jumped(
    before: Session,
    after: Session,
    now: u64,
    r: Result<Jump, JumpError>,
) -> bool {
    &&& r is Err ==> after.workspaces@ == before.workspaces@ && after == (Session {
        workspaces: after.workspaces,
        ..before
    })
    &&& match jump_index(notes(before.notifications@)) {
        None => r matches Err(JumpError::Empty),
        Some(n) => {
            let note = notes(before.notifications@)[n];
            let spaces = before.workspaces@;
            match note.pane {
                Some(pane) => match holder_index(spaces, pane) {
                    None => r matches Err(JumpError::Detached(p)) && p@ == pane,
                    Some(w) => {
                        let tab = tab_of_pane(spaces[w], pane);
                        if tab is Some && tab != opt_text(spaces[w].active_tab)
                            && workspace_tab_index(spaces[w].tabs@, tab->0) is None {
                            r matches Err(JumpError::NoTab(t)) && t@ == tab->0
                        } else {
                            &&& r matches Ok(jump) && jump.note == n && jump.workspace@
                                == spaces[w].id@ && opt_text(jump.tab) == tab && opt_text(
                                jump.pane,
                            ) == Some(pane)
                            &&& after.active_workspace@ == spaces[w].id@
                            &&& after.workspaces@ == spaces.update(
                                w,
                                after.workspaces@[w],
                            )
                            &&& shown_pane(
                                spaces[w],
                                after.workspaces@[w],
                                tab,
                                pane,
                            )
                            &&& after.panes@ == acknowledged(before.panes@, seq![pane], now)
                            &&& after == (Session {
                                active_workspace: after.active_workspace,
                                workspaces: after.workspaces,
                                panes: after.panes,
                                ..before
                            })
                        }
                    },
                },
                None => match note.workspace {
                    None => r matches Err(JumpError::NoTarget),
                    Some(id) => if workspace_index(spaces, id) is None {
                        r matches Err(JumpError::NoWorkspace(got)) && got@ == id
                    } else {
                        &&& r matches Ok(jump) && jump.note == n && jump.workspace@ == id
                            && jump.tab is None && jump.pane is None
                        &&& after.active_workspace@ == id
                        &&& after == (Session {
                            active_workspace: after.active_workspace,
                            ..before
                        })
                    },
                },
            }
        },
    }
}

/// Goes to what the feed says needs its user: makes its workspace the active one, shows its
/// tab and its pane, and takes the finished turn of the pane as seen.
pub fn jump_notification(session: &mut Session, now: u64) -> (r: Result<Jump, JumpError>)
    ensures
        jumped(*old(session), *final(session), now, r),
{
    let n = match jump_target(&session.notifications) {
        Some(n) => n,
        None => {
            return Err(JumpError::Empty);
        },
    };
    let pane = clone_opt(&session.notifications[n].pane);
    let workspace = clone_opt(&session.notifications[n].workspace);
    assert(notes(session.notifications@)[n as int] == session.notifications@[n as int]@);
    match pane {
        Some(pane) => {
            let location = match find_pane_location(&session.workspaces, pane.as_str()) {
                Some(l) => l,
                None => {
                    return Err(JumpError::Detached(pane));
                },
            };
            let w = location.workspace;
            if !show_pane(&mut session.workspaces[w], &location.tab, pane.as_str()) {
                let tab = match location.tab {
                    Some(t) => t,
                    None => String::new(),
                };
                assert(session.workspaces@ =~= old(session).workspaces@);
                return Err(JumpError::NoTab(tab));
            }
            session.active_workspace = session.workspaces[w].id.clone();
            let mut seen: Vec<String> = Vec::new();
            seen.push(pane.clone());
            assert(texts(seen@) =~= seq![pane@]);
            acknowledge_panes(&mut session.panes, &seen, now);
            let id = session.active_workspace.clone();
            Ok(Jump { workspace: id, tab: location.tab, pane: Some(pane), note: n })
        },
        None => match workspace {
            None => Err(JumpError::NoTarget),
            Some(id) => {
                if find_workspace(&session.workspaces, id.as_str()).is_none() {
                    return Err(JumpError::NoWorkspace(id));
                }
                session.active_workspace = id.clone();
                Ok(Jump { workspace: id, tab: None, pane: None, note: n })
            },
        },
    }
}

/// Puts a title that an agent gave on the tab that shows the pane, unless the tab was named
/// by hand. Says whether a title changed.
pub fn auto_title_tab(session: &mut Session, pane: &str, title: &str) -> (renamed: bool)
    ensures
        *final(session) == (Session { workspaces: final(session).workspaces, ..*old(session) }),
        !renamed ==> final(session).workspaces@ == old(session).workspaces@,
        match titled_tab(old(session).workspaces@, pane@) {
            None => !renamed,
            Some((w, t)) => {
                let tab = old(session).workspaces@[w].tabs@[t];
                &&& renamed == (!tab.title_locked && tab.title@ != title@)
                &&& renamed ==> {
                    let space = final(session).workspaces@[w];
                    &&& final(session).workspaces@ == old(session).workspaces@.update(w, space)
                    &&& space == Workspace { tabs: space.tabs, ..old(session).workspaces@[w] }
                    &&& space.tabs@ == old(session).workspaces@[w].tabs@.update(t, space.tabs@[t])
                    &&& space.tabs@[t] == WorkspaceTab { title: space.tabs@[t].title, ..tab }
                    &&& space.tabs@[t].title@ == title@
                }
            },
        },
{
    let location = match find_pane_location(&session.workspaces, pane) {
        Some(l) => l,
        None => {
            return false;
        },
    };
    let w = location.workspace;
    let found = match &location.tab {
        Some(id) => find_workspace_tab(&session.workspaces[w].tabs, id.as_str()),
        None => None,
    };
    match found {
        None => false,
        Some(t) => {
            if session.workspaces[w].tabs[t].title_locked || same(
                session.workspaces[w].tabs[t].title.as_str(),
                title,
            ) {
                return false;
            }
            let space = &mut session.workspaces[w];
            let tab = &mut space.tabs[t];
            tab.title = title.to_string();
            true
        },
    }
}

/// The workspace and the tab that show the pane.
pub open spec fn titled_tab(workspaces: Seq<Workspace>, pane: Seq<char>) -> Option<(int, int)> {
    match holder_index(workspaces, pane) {
        None => None,
        Some(w) => match tab_of_pane(workspaces[w], pane) {
            None => None,
            Some(id) => match workspace_tab_index(workspaces[w].tabs@, id) {
                None => None,
                Some(t) => Some((w, t)),
            },
        },
    }
}

/// The list without the id.
pub open spec fn without_id(list: Seq<String>, id: Seq<char>) -> Seq<String>
    decreases list.len(),
{
    if list.len() == 0 {
        list
    } else if list.last()@ == id {
        without_id(list.drop_last(), id)
    } else {
        without_id(list.drop_last(), id).push(list.last())
    }
}

/// What stays is not the id.
pub proof fn without_id_lists_no_more(list: Seq<String>, id: Seq<char>)
    ensures
        !lists(without_id(list, id), id),
    decreases list.len(),
{
    if list.len() > 0 {
        without_id_lists_no_more(list.drop_last(), id);
        let before = without_id(list.drop_last(), id);
        let after = without_id(list, id);
        if list.last()@ != id {
            assert forall|i: int| 0 <= i < after.len() implies (#[trigger] after[i])@ != id by {
                if i < before.len() {
                    assert(after[i] == before[i]);
                    assert(before[i]@ != id);
                }
            }
        }
    }
}

fn remove_id(list: &mut Vec<String>, id: &str)
    ensures
        final(list)@ == without_id(old(list)@, id@),
{
    let ghost all = list@;
    let mut kept: Vec<String> = Vec::new();
    let mut i: usize = 0;
    while i < list.len()
        invariant
            i <= list.len(),
            list@ == all,
            kept@ == without_id(all.take(i as int), id@),
        decreases list.len() - i,
    {
        assert(all.take(i + 1).drop_last() =~= all.take(i as int));
        if !same(list[i].as_str(), id) {
            kept.push(list[i].clone());
        }
        i += 1;
    }
    assert(all.take(i as int) =~= all);
    *list = kept;
}

/// The pane that is active once one is gone from the list: the same, unless it is the one
/// that went, and then the last of those left.
pub open spec fn active_without(
    active: Option<String>,
    left: Seq<String>,
    id: Seq<char>,
) -> Option<String> {
    if opt_text(active) != Some(id) {
        active
    } else if left.len() == 0 {
        None
    } else {
        Some(left.last())
    }
}

/// What is zoomed once a pane is gone: no more the one that went.
pub open spec fn zoomed_without(zoomed: Option<String>, id: Seq<char>) -> Option<String> {
    if opt_text(zoomed) == Some(id) {
        None
    } else {
        zoomed
    }
}

fn next_active(active: &mut Option<String>, zoomed: &mut Option<String>, left: &Vec<String>, id: &str)
    ensures
        *final(active) == active_without(*old(active), left@, id@),
        *final(zoomed) == zoomed_without(*old(zoomed), id@),
{
    if is_opt_text(active, id) {
        *active = if left.len() == 0 {
            None
        } else {
            Some(left[left.len() - 1].clone())
        };
    }
    if is_opt_text(zoomed, id) {
        *zoomed = None;
    }
}

/// `after` is the tab `before` once the pane is gone from it.
pub open spec fn tab_detached(before: WorkspaceTab, after: WorkspaceTab, id: Seq<char>) -> bool {
    &&& after.panes@ == without_id(before.panes@, id)
    &&& after == WorkspaceTab {
        panes: after.panes,
        active_pane: active_without(before.active_pane, after.panes@, id),
        zoomed_pane: zoomed_without(before.zoomed_pane, id),
        ..before
    }
}

/// `after` is the workspace `before` once the pane is gone from every tab of it.
pub open spec fn detached(before: Workspace, after: Workspace, id: Seq<char>) -> bool {
    &&& after.panes@ == without_id(before.panes@, id)
    &&& after == Workspace {
        panes: after.panes,
        tabs: after.tabs,
        active_pane: active_without(before.active_pane, after.panes@, id),
        zoomed_pane: zoomed_without(before.zoomed_pane, id),
        ..before
    }
    &&& after.tabs@.len() == before.tabs@.len()
    &&& forall|i: int|
        0 <= i < before.tabs@.len() ==> tab_detached(
            before.tabs@[i],
            #[trigger] after.tabs@[i],
            id,
        )
}

/// Takes a pane away from a workspace and from all of its tabs.
pub fn remove_pane_anywhere(workspace: &mut Workspace, id: &str)
    ensures
        detached(*old(workspace), *final(workspace), id@),
{
    let ghost before = *workspace;
    remove_id(&mut workspace.panes, id);
    next_active(&mut workspace.active_pane, &mut workspace.zoomed_pane, &workspace.panes, id);
    let ghost mid = *workspace;
    let mut i: usize = 0;
    while i < workspace.tabs.len()
        invariant
            i <= workspace.tabs@.len(),
            workspace.tabs@.len() == before.tabs@.len(),
            *workspace == (Workspace { tabs: workspace.tabs, ..mid }),
            mid.tabs == before.tabs,
            forall|k: int|
                0 <= k < i ==> tab_detached(before.tabs@[k], #[trigger] workspace.tabs@[k], id@),
            forall|k: int|
                i <= k < before.tabs@.len() ==> #[trigger] workspace.tabs@[k] == before.tabs@[k],
        decreases workspace.tabs@.len() - i,
    {
        let tab = &mut workspace.tabs[i];
        remove_id(&mut tab.panes, id);
        next_active(&mut tab.active_pane, &mut tab.zoomed_pane, &tab.panes, id);
        i += 1;
    }
}

/// Takes a pane out of the session: out of every tab, and out of the list of panes. Returns
/// its record.
pub fn take_pane(session: &mut Session, id: &str) -> (r: Option<Pane>)
    ensures
        match pane_index(old(session).panes@, id@) {
            None => r is None && final(session).panes@ == old(session).panes@,
            Some(i) => r == Some(old(session).panes@[i]) && final(session).panes@ == old(
                session,
            ).panes@.remove(i),
        },
        final(session).workspaces@.len() == old(session).workspaces@.len(),
        forall|i: int|
            0 <= i < old(session).workspaces@.len() ==> detached(
                old(session).workspaces@[i],
                #[trigger] final(session).workspaces@[i],
                id@,
            ),
        *final(session) == (Session {
            panes: final(session).panes,
            workspaces: final(session).workspaces,
            ..*old(session)
        }),
{
    let ghost before = *session;
    let mut i: usize = 0;
    while i < session.workspaces.len()
        invariant
            i <= session.workspaces@.len(),
            session.workspaces@.len() == before.workspaces@.len(),
            *session == (Session { workspaces: session.workspaces, ..before }),
            forall|k: int|
                0 <= k < i ==> detached(
                    before.workspaces@[k],
                    #[trigger] session.workspaces@[k],
                    id@,
                ),
            forall|k: int|
                i <= k < before.workspaces@.len() ==> #[trigger] session.workspaces@[k]
                    == before.workspaces@[k],
        decreases session.workspaces@.len() - i,
    {
        remove_pane_anywhere(&mut session.workspaces[i], id);
        i += 1;
    }
    match find_pane(&session.panes, id) {
        Some(k) => Some(session.panes.remove(k)),
        None => None,
    }
}

/// A pane that was taken out of a workspace is nowhere in it.
pub proof fn detached_pane_is_nowhere(before: Workspace, after: Workspace, id: Seq<char>)
    requires
        detached(before, after, id),
    ensures
        !crate::daemon::panes::holds_pane(after, id),
        opt_text(after.zoomed_pane) != Some(id),
        opt_text(after.active_pane) != Some(id),
{
    without_id_lists_no_more(before.panes@, id);
    if after.panes@.len() > 0 {
        assert(after.panes@.last()@ != id);
    }
    assert forall|i: int| 0 <= i < after.tabs@.len() implies !lists(
        (#[trigger] after.tabs@[i]).panes@,
        id,
    ) by {
        without_id_lists_no_more(before.tabs@[i].panes@, id);
    }
}

/// The texts of `ids` that are not yet in `known`, behind those.
pub open spec fn joined_ids(known: Seq<Seq<char>>, ids: Seq<String>) -> Seq<Seq<char>>
    decreases ids.len(),
{
    if ids.len() == 0 {
        known
    } else {
        let before = joined_ids(known, ids.drop_last());
        if before.contains(ids.last()@) {
            before
        } else {
            before.push(ids.last()@)
        }
    }
}

/// The panes of the tabs, behind those already known, each once.
pub open spec fn tab_ids(known: Seq<Seq<char>>, tabs: Seq<WorkspaceTab>) -> Seq<Seq<char>>
    decreases tabs.len(),
{
    if tabs.len() == 0 {
        known
    } else {
        joined_ids(tab_ids(known, tabs.drop_last()), tabs.last().panes@)
    }
}

/// The panes of a workspace, on whatever tab, each once.
pub open spec fn workspace_pane_ids(w: Workspace) -> Seq<Seq<char>> {
    tab_ids(joined_ids(Seq::empty(), w.panes@), w.tabs@)
}

fn add_ids(known: &mut Vec<String>, ids: &Vec<String>)
    ensures
        texts(final(known)@) == joined_ids(texts(old(known)@), ids@),
{
    let ghost start = texts(known@);
    let mut i: usize = 0;
    assert(ids@.take(0).len() == 0);
    while i < ids.len()
        invariant
            i <= ids.len(),
            texts(known@) == joined_ids(start, ids@.take(i as int)),
        decreases ids.len() - i,
    {
        assert(ids@.take(i + 1).drop_last() =~= ids@.take(i as int));
        let id = ids[i].as_str();
        let ghost before = known@;
        let there = listed(known, id);
        proof {
            if lists(before, id@) {
                let k = choose|k: int| 0 <= k < before.len() && (#[trigger] before[k])@ == id@;
                assert(texts(before)[k] == id@);
            } else {
                assert forall|k: int| 0 <= k < texts(before).len() implies texts(before)[k]
                    != id@ by {
                    assert(before[k]@ != id@);
                }
            }
        }
        if !there {
            known.push(id.to_string());
            assert(texts(known@) =~= texts(before).push(id@));
        }
        i += 1;
    }
    assert(ids@.take(i as int) =~= ids@);
}

impl Workspace {
    /// The panes of the workspace, on whatever tab, each once.
    pub fn all_pane_ids(&self) -> (r: Vec<String>)
        ensures
            texts(r@) == workspace_pane_ids(*self),
    {
        let mut out: Vec<String> = Vec::new();
        assert(texts(out@) =~= Seq::empty());
        add_ids(&mut out, &self.panes);
        let ghost start = joined_ids(Seq::empty(), self.panes@);
        let mut i: usize = 0;
        assert(self.tabs@.take(0).len() == 0);
        while i < self.tabs.len()
            invariant
                i <= self.tabs.len(),
                texts(out@) == tab_ids(start, self.tabs@.take(i as int)),
            decreases self.tabs.len() - i,
        {
            assert(self.tabs@.take(i + 1).drop_last() =~= self.tabs@.take(i as int));
            add_ids(&mut out, &self.tabs[i].panes);
            i += 1;
        }
        assert(self.tabs@.take(i as int) =~= self.tabs@);
        out
    }
}

/// Why there is nothing to wait for.
#[derive(Debug)]
pub enum TargetError {
    /// The workspace has no panes.
    NoPanes,
    Pane(PaneError),
}

/// `r` are the panes that a request for one pane, for the workspace in a place or for all of
/// them names, or why there are none.
pub open spec fn targeted(
    session: Session,
    pane: Option<Seq<char>>,
    workspace: Option<usize>,
    all: bool,
    r: Result<Vec<String>, TargetError>,
) -> bool {
    if all {
        r matches Ok(ids) && texts(ids@) == pane_ids(session.panes@)
    } else {
        match workspace {
            Some(w) => {
                let ids = workspace_pane_ids(session.workspaces@[w as int]);
                if ids.len() == 0 {
                    r matches Err(TargetError::NoPanes)
                } else {
                    r matches Ok(got) && texts(got@) == ids
                }
            },
            None => match naming(session, pane) {
                Naming::Pane(id) => r matches Ok(got) && texts(got@) == seq![id],
                other => r matches Err(TargetError::Pane(e)) && is_pane_error(other, e),
            },
        }
    }
}

/// The panes that a request for one pane, for the workspace in a place or for all of them
/// names.
pub fn wait_targets(
    session: &Session,
    pane: Option<&str>,
    workspace: Option<usize>,
    all: bool,
) -> (r: Result<Vec<String>, TargetError>)
    requires
        workspace matches Some(w) ==> w < session.workspaces@.len(),
    ensures
        targeted(*session, opt_str(pane), workspace, all, r),
{
    if all {
        return Ok(all_pane_ids(&session.panes));
    }
    match workspace {
        Some(w) => {
            let ids = session.workspaces[w].all_pane_ids();
            assert(texts(ids@).len() == ids@.len());
            if ids.len() == 0 {
                Err(TargetError::NoPanes)
            } else {
                Ok(ids)
            }
        },
        None => match resolve_pane(session, pane) {
            Ok(id) => {
                let mut out: Vec<String> = Vec::new();
                out.push(id);
                assert(texts(out@) =~= seq![id@]);
                Ok(out)
            },
            Err(e) => Err(TargetError::Pane(e)),
        },
    }
}

} // verus!

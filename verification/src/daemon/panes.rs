//! Panes and their tabs: selecting, switching, naming and keeping their records alike.
use crate::model::{
    clone_tab, AgentStatus, Notification, Pane, PaneTab, Session, Workspace, WorkspaceTab,
};
use crate::text::chars::{
    blank, chars_of, clone_opt, is_blank, is_white, opt_text, same, string_of, trim, trim_text,
    trimmed, white,
};
use crate::text::order::before;
use vstd::prelude::*;

verus! {

/// Why a selector names no tab.
#[derive(Debug)]
pub enum TabError {
    /// No tab has it as its id or title.
    Unknown(String),
    /// More than one tab has it as its id or title.
    Ambiguous(String),
}

/// Why a metadata key is refused.
#[derive(Debug, Clone, Copy, PartialEq, Eq, Structural)]
pub enum KeyError {
    Empty,
    WhiteSpace,
}

/// Why a title is refused.
#[derive(Debug, Clone, Copy, PartialEq, Eq, Structural)]
pub enum TitleError {
    Empty,
}

/// The id and the title of a tab.
pub struct Label {
    pub id: Seq<char>,
    pub title: Seq<char>,
}

/// The places of the labels with the selector as id or title.
pub open spec fn hits(labels: Seq<Label>, selector: Seq<char>) -> Seq<int>
    decreases labels.len(),
{
    if labels.len() == 0 {
        Seq::empty()
    } else {
        let before = hits(labels.drop_last(), selector);
        if labels.last().id == selector || labels.last().title == selector {
            before.push(labels.len() - 1)
        } else {
            before
        }
    }
}

/// The labels of the tabs of a pane.
pub open spec fn pane_tab_labels(tabs: Seq<PaneTab>) -> Seq<Label> {
    Seq::new(tabs.len(), |i: int| Label { id: tabs[i].id@, title: tabs[i].title@ })
}

/// The labels of the tabs of a workspace.
pub open spec fn workspace_tab_labels(tabs: Seq<WorkspaceTab>) -> Seq<Label> {
    Seq::new(tabs.len(), |i: int| Label { id: tabs[i].id@, title: tabs[i].title@ })
}

/// The error says which selector named how many tabs.
pub open spec fn is_tab_error(e: TabError, selector: Seq<char>, count: nat) -> bool {
    match e {
        TabError::Unknown(s) => s@ == selector && count == 0,
        TabError::Ambiguous(s) => s@ == selector && count > 1,
    }
}

/// The place of the only tab of a pane with the selector as id or title.
pub fn find_pane_tab(tabs: &Vec<PaneTab>, selector: &str) -> (r: Result<usize, TabError>)
    ensures
        r matches Ok(i) ==> hits(pane_tab_labels(tabs@), selector@) == seq![i as int] && i
            < tabs@.len(),
        r matches Err(e) ==> is_tab_error(
            e,
            selector@,
            hits(pane_tab_labels(tabs@), selector@).len(),
        ),
{
    let ghost labels = pane_tab_labels(tabs@);
    let mut found: Option<usize> = None;
    let mut several = false;
    let mut i: usize = 0;
    while i < tabs.len()
        invariant
            i <= tabs.len(),
            labels == pane_tab_labels(tabs@),
            several == (hits(labels.take(i as int), selector@).len() > 1),
            found is None <==> hits(labels.take(i as int), selector@).len() == 0,
            found matches Some(f) ==> f < i && hits(labels.take(i as int), selector@)[0] == f,
        decreases tabs.len() - i,
    {
        assert(labels.take(i + 1).drop_last() =~= labels.take(i as int));
        if same(tabs[i].id.as_str(), selector) || same(tabs[i].title.as_str(), selector) {
            if found.is_none() {
                found = Some(i);
            } else {
                several = true;
            }
        }
        i += 1;
    }
    assert(labels.take(i as int) =~= labels);
    match found {
        None => Err(TabError::Unknown(selector.to_string())),
        Some(f) => if several {
            Err(TabError::Ambiguous(selector.to_string()))
        } else {
            assert(hits(labels, selector@) =~= seq![f as int]);
            Ok(f)
        },
    }
}

/// The only tab of a pane with the selector as id or title.
pub fn resolve_pane_tab<'a>(pane: &'a Pane, selector: &str) -> (r: Result<&'a PaneTab, TabError>)
    ensures
        r matches Ok(tab) ==> hits(pane_tab_labels(pane.tabs@), selector@).len() == 1 && *tab
            == pane.tabs@[hits(pane_tab_labels(pane.tabs@), selector@)[0]],
        r matches Err(e) ==> is_tab_error(
            e,
            selector@,
            hits(pane_tab_labels(pane.tabs@), selector@).len(),
        ),
{
    match find_pane_tab(&pane.tabs, selector) {
        Ok(i) => Ok(&pane.tabs[i]),
        Err(e) => Err(e),
    }
}

/// The id of the only tab of a workspace with the selector as id or title.
pub fn resolve_workspace_tab_id(workspace: &Workspace, selector: &str) -> (r: Result<
    String,
    TabError,
>)
    ensures
        r matches Ok(id) ==> hits(workspace_tab_labels(workspace.tabs@), selector@).len() == 1
            && id@ == workspace.tabs@[hits(workspace_tab_labels(workspace.tabs@), selector@)[0]].id@,
        r matches Err(e) ==> is_tab_error(
            e,
            selector@,
            hits(workspace_tab_labels(workspace.tabs@), selector@).len(),
        ),
{
    let tabs = &workspace.tabs;
    let ghost labels = workspace_tab_labels(tabs@);
    let mut found: Option<usize> = None;
    let mut several = false;
    let mut i: usize = 0;
    while i < tabs.len()
        invariant
            i <= tabs.len(),
            labels == workspace_tab_labels(tabs@),
            several == (hits(labels.take(i as int), selector@).len() > 1),
            found is None <==> hits(labels.take(i as int), selector@).len() == 0,
            found matches Some(f) ==> f < i && hits(labels.take(i as int), selector@)[0] == f,
        decreases tabs.len() - i,
    {
        assert(labels.take(i + 1).drop_last() =~= labels.take(i as int));
        if same(tabs[i].id.as_str(), selector) || same(tabs[i].title.as_str(), selector) {
            if found.is_none() {
                found = Some(i);
            } else {
                several = true;
            }
        }
        i += 1;
    }
    assert(labels.take(i as int) =~= labels);
    match found {
        None => Err(TabError::Unknown(selector.to_string())),
        Some(f) => if several {
            Err(TabError::Ambiguous(selector.to_string()))
        } else {
            Ok(tabs[f].id.clone())
        },
    }
}

/// The place of the first tab with the id.
pub open spec fn tab_index(tabs: Seq<PaneTab>, id: Seq<char>) -> Option<int>
    decreases tabs.len(),
{
    if tabs.len() == 0 {
        None
    } else if tabs[0].id@ == id {
        Some(0)
    } else {
        match tab_index(tabs.drop_first(), id) {
            Some(i) => Some(i + 1),
            None => None,
        }
    }
}

fn find_tab(tabs: &Vec<PaneTab>, id: &str) -> (r: Option<usize>)
    ensures
        r matches Some(i) ==> tab_index(tabs@, id@) == Some(i as int) && i < tabs@.len(),
        r is None ==> tab_index(tabs@, id@) is None,
{
    let mut i: usize = 0;
    assert(tabs@.skip(0) =~= tabs@);
    while i < tabs.len()
        invariant
            i <= tabs.len(),
            tab_index(tabs@, id@) == match tab_index(tabs@.skip(i as int), id@) {
                Some(k) => Some(k + i),
                None => None,
            },
        decreases tabs.len() - i,
    {
        assert(tabs@.skip(i as int).drop_first() =~= tabs@.skip(i + 1));
        if same(tabs[i].id.as_str(), id) {
            return Some(i);
        }
        i += 1;
    }
    None
}

/// The tab with what the pane shows.
pub open spec fn mirrored(tab: PaneTab, pane: Pane, at: u64) -> PaneTab {
    PaneTab {
        id: tab.id,
        title: pane.title,
        command: pane.command,
        surface_kind: pane.surface_kind,
        status: Some(pane.status),
        agent_status: Some(pane.agent_status),
        progress: pane.progress,
        notification_color: pane.notification_color,
        notification_message: pane.notification_message,
        exit_code: pane.exit_code,
        output: pane.output,
        output_formatted: pane.output_formatted,
        scrollback: pane.scrollback,
        scrollback_formatted: pane.scrollback_formatted,
        created_at: tab.created_at,
        updated_at: at,
    }
}

fn mirror(tab: &PaneTab, pane: &Pane, at: u64) -> (r: PaneTab)
    ensures
        r == mirrored(*tab, *pane, at),
{
    PaneTab {
        id: tab.id.clone(),
        title: pane.title.clone(),
        command: pane.command.clone(),
        surface_kind: pane.surface_kind,
        status: Some(pane.status),
        agent_status: Some(pane.agent_status),
        progress: pane.progress,
        notification_color: clone_opt(&pane.notification_color),
        notification_message: clone_opt(&pane.notification_message),
        exit_code: pane.exit_code,
        output: pane.output.clone(),
        output_formatted: pane.output_formatted.clone(),
        scrollback: pane.scrollback.clone(),
        scrollback_formatted: pane.scrollback_formatted.clone(),
        created_at: tab.created_at,
        updated_at: at,
    }
}

/// The tabs once the one with the id shows what the pane does.
pub open spec fn tabs_mirroring(
    tabs: Seq<PaneTab>,
    id: Seq<char>,
    pane: Pane,
    at: u64,
) -> Seq<PaneTab> {
    match tab_index(tabs, id) {
        Some(i) => tabs.update(i, mirrored(tabs[i], pane, at)),
        None => tabs,
    }
}

/// Gives the tab with the id what a running pane shows; the pane itself stays as it is.
pub fn sync_tab_from_runtime_pane(pane: &mut Pane, tab_id: &str, runtime_pane: &Pane)
    ensures
        final(pane).tabs@ == tabs_mirroring(
            old(pane).tabs@,
            tab_id@,
            *runtime_pane,
            runtime_pane.updated_at,
        ),
        *final(pane) == (Pane { tabs: final(pane).tabs, ..*old(pane) }),
{
    if let Some(i) = find_tab(&pane.tabs, tab_id) {
        let tab = mirror(&pane.tabs[i], runtime_pane, runtime_pane.updated_at);
        pane.tabs.set(i, tab);
    }
}

/// Gives the active tab what the pane shows.
pub fn sync_active_pane_tab(pane: &mut Pane, now: u64)
    ensures
        final(pane).tabs@ == match opt_text(old(pane).active_tab) {
            Some(id) => tabs_mirroring(old(pane).tabs@, id, *old(pane), now),
            None => old(pane).tabs@,
        },
        *final(pane) == (Pane { tabs: final(pane).tabs, ..*old(pane) }),
{
    let active = match &pane.active_tab {
        Some(id) => id.clone(),
        None => {
            return;
        },
    };
    if let Some(i) = find_tab(&pane.tabs, active.as_str()) {
        let tab = mirror(&pane.tabs[i], pane, now);
        pane.tabs.set(i, tab);
    }
}

/// The first tab of a pane that had none.
pub open spec fn is_base_tab(tab: PaneTab, pane: Pane, now: u64) -> bool {
    tab.id@ == "tab-1"@ && tab == mirrored(
        PaneTab { id: tab.id, created_at: now, ..tab },
        pane,
        now,
    )
}

/// Sees to it that the pane has a tab and that one of its tabs is the active one.
pub fn ensure_base_pane_tab(pane: &mut Pane, now: u64)
    ensures
        old(pane).tabs@.len() == 0 ==> final(pane).tabs@.len() == 1 && is_base_tab(
            final(pane).tabs@[0],
            *old(pane),
            now,
        ) && opt_text(final(pane).active_tab) == Some("tab-1"@),
        old(pane).tabs@.len() > 0 ==> final(pane).tabs@ == old(pane).tabs@ && opt_text(
            final(pane).active_tab,
        ) == if old(pane).active_tab is Some && tab_index(
            old(pane).tabs@,
            opt_text(old(pane).active_tab)->0,
        ) is Some {
            opt_text(old(pane).active_tab)
        } else {
            Some(old(pane).tabs@[0].id@)
        },
        *final(pane) == (Pane {
            tabs: final(pane).tabs,
            active_tab: final(pane).active_tab,
            ..*old(pane)
        }),
{
    if pane.tabs.len() == 0 {
        let shell = PaneTab {
            id: "tab-1".to_string(),
            title: String::new(),
            command: String::new(),
            surface_kind: pane.surface_kind,
            status: None,
            agent_status: None,
            progress: None,
            notification_color: None,
            notification_message: None,
            exit_code: None,
            output: String::new(),
            output_formatted: String::new(),
            scrollback: String::new(),
            scrollback_formatted: String::new(),
            created_at: now,
            updated_at: now,
        };
        let tab = mirror(&shell, pane, now);
        pane.active_tab = Some(tab.id.clone());
        pane.tabs.push(tab);
    } else {
        let known = match &pane.active_tab {
            Some(id) => find_tab(&pane.tabs, id.as_str()).is_some(),
            None => false,
        };
        if !known {
            pane.active_tab = Some(pane.tabs[0].id.clone());
        }
    }
}

/// The command of a tab; the shell where it has none.
pub fn normalize_tab_command(command: String, default_shell: &str) -> (r: String)
    ensures
        r@ == if is_blank(command@) {
            default_shell@
        } else {
            command@
        },
{
    if blank(command.as_str()) {
        default_shell.to_string()
    } else {
        command
    }
}

/// `after` is the pane `before` showing the tab.
pub open spec fn shows_tab(
    before: Pane,
    after: Pane,
    tab: PaneTab,
    inferred: AgentStatus,
    shell: Seq<char>,
    now: u64,
) -> bool {
    &&& after == Pane {
        active_tab: Some(tab.id),
        title: tab.title,
        command: after.command,
        surface_kind: tab.surface_kind,
        status: match tab.status {
            Some(s) => s,
            None => before.status,
        },
        agent_status: match tab.agent_status {
            Some(s) => s,
            None => inferred,
        },
        progress: tab.progress,
        notification_color: tab.notification_color,
        notification_message: tab.notification_message,
        exit_code: tab.exit_code,
        output: tab.output,
        output_formatted: tab.output_formatted,
        scrollback: tab.scrollback,
        scrollback_formatted: tab.scrollback_formatted,
        updated_at: now,
        ..before
    }
    &&& after.command@ == if is_blank(tab.command@) {
        shell
    } else {
        tab.command@
    }
}

/// Switches the pane to the tab with the selector as id or title. `inferred` is the status
/// of its agent where the tab does not know it.
pub fn apply_pane_tab(
    pane: &mut Pane,
    selector: &str,
    inferred: AgentStatus,
    default_shell: &str,
    now: u64,
) -> (r: Result<PaneTab, TabError>)
    ensures
        r matches Ok(tab) ==> hits(pane_tab_labels(old(pane).tabs@), selector@).len() == 1 && tab
            == old(pane).tabs@[hits(pane_tab_labels(old(pane).tabs@), selector@)[0]] && shows_tab(
            *old(pane),
            *final(pane),
            tab,
            inferred,
            default_shell@,
            now,
        ),
        r matches Err(e) ==> *final(pane) == *old(pane) && is_tab_error(
            e,
            selector@,
            hits(pane_tab_labels(old(pane).tabs@), selector@).len(),
        ),
{
    let tab = match resolve_pane_tab(pane, selector) {
        Ok(tab) => clone_tab(tab),
        Err(e) => {
            return Err(e);
        },
    };
    pane.active_tab = Some(tab.id.clone());
    pane.title = tab.title.clone();
    pane.command = normalize_tab_command(tab.command.clone(), default_shell);
    pane.surface_kind = tab.surface_kind;
    if let Some(status) = tab.status {
        pane.status = status;
    }
    pane.agent_status = match tab.agent_status {
        Some(status) => status,
        None => inferred,
    };
    pane.progress = tab.progress;
    pane.notification_color = clone_opt(&tab.notification_color);
    pane.notification_message = clone_opt(&tab.notification_message);
    pane.exit_code = tab.exit_code;
    pane.output = tab.output.clone();
    pane.output_formatted = tab.output_formatted.clone();
    pane.scrollback = tab.scrollback.clone();
    pane.scrollback_formatted = tab.scrollback_formatted.clone();
    pane.updated_at = now;
    Ok(tab)
}

/// There is white space within the text.
pub open spec fn has_white(s: Seq<char>) -> bool {
    exists|i: int| 0 <= i < s.len() && is_white(#[trigger] s[i])
}

/// A metadata key, trimmed. It may not be empty nor hold white space.
pub fn normalize_metadata_key(key: &str) -> (r: Result<String, KeyError>)
    ensures
        r matches Ok(k) ==> k@ == trimmed(key@) && k@.len() > 0 && !has_white(k@),
        r == Err::<String, KeyError>(KeyError::Empty) <==> trimmed(key@).len() == 0,
        r == Err::<String, KeyError>(KeyError::WhiteSpace) <==> has_white(trimmed(key@)),
{
    let chars = chars_of(key);
    let t = trim(chars.as_slice());
    if t.len() == 0 {
        return Err(KeyError::Empty);
    }
    let mut i: usize = 0;
    while i < t.len()
        invariant
            i <= t.len(),
            t@ == trimmed(key@),
            t@.len() > 0,
            forall|k: int| 0 <= k < i ==> !is_white(#[trigger] t@[k]),
        decreases t.len() - i,
    {
        if white(t[i]) {
            assert(is_white(t@[i as int]));
            return Err(KeyError::WhiteSpace);
        }
        i += 1;
    }
    Ok(string_of(t))
}

/// A title, trimmed. It may not be empty.
pub fn normalize_required_pane_title(title: String) -> (r: Result<String, TitleError>)
    ensures
        r matches Ok(t) ==> t@ == trimmed(title@),
        r is Err <==> trimmed(title@).len() == 0,
{
    let t = trim_text(title.as_str());
    if t.as_str().is_empty() {
        Err(TitleError::Empty)
    } else {
        Ok(t)
    }
}

/// A title, trimmed, where one is given. It may not be empty.
pub fn normalize_pane_title(title: Option<String>) -> (r: Result<Option<String>, TitleError>)
    ensures
        title is None ==> r == Ok::<Option<String>, TitleError>(None),
        title matches Some(t) ==> (r is Err <==> trimmed(t@).len() == 0),
        title matches Some(t) ==> (r matches Ok(n) ==> opt_text(n) == Some(trimmed(t@))),
{
    match title {
        None => Ok(None),
        Some(t) => match normalize_required_pane_title(t) {
            Ok(t) => Ok(Some(t)),
            Err(e) => Err(e),
        },
    }
}

/// The id is among the texts.
pub open spec fn lists(list: Seq<String>, id: Seq<char>) -> bool {
    exists|i: int| 0 <= i < list.len() && (#[trigger] list[i])@ == id
}

/// Whether the id is among the texts.
pub fn listed(list: &Vec<String>, id: &str) -> (r: bool)
    ensures
        r == lists(list@, id@),
{
    let mut i: usize = 0;
    while i < list.len()
        invariant
            i <= list.len(),
            forall|k: int| 0 <= k < i ==> (#[trigger] list@[k])@ != id@,
        decreases list.len() - i,
    {
        if same(list[i].as_str(), id) {
            assert(list@[i as int]@ == id@);
            return true;
        }
        i += 1;
    }
    false
}

/// The pane is on the active tab or on another tab of the workspace.
pub open spec fn holds_pane(workspace: Workspace, id: Seq<char>) -> bool {
    ||| lists(workspace.panes@, id)
    ||| exists|i: int|
        0 <= i < workspace.tabs@.len() && lists((#[trigger] workspace.tabs@[i]).panes@, id)
}

impl Workspace {
    /// Whether the pane is on a tab of the workspace.
    pub fn contains_pane(&self, id: &str) -> (r: bool)
        ensures
            r == holds_pane(*self, id@),
    {
        if listed(&self.panes, id) {
            return true;
        }
        let mut i: usize = 0;
        while i < self.tabs.len()
            invariant
                i <= self.tabs.len(),
                !lists(self.panes@, id@),
                forall|k: int| 0 <= k < i ==> !lists((#[trigger] self.tabs@[k]).panes@, id@),
            decreases self.tabs.len() - i,
        {
            if listed(&self.tabs[i].panes, id) {
                assert(lists(self.tabs@[i as int].panes@, id@));
                return true;
            }
            i += 1;
        }
        false
    }
}

/// The workspace that a notification is about: the one that it names, or else the one that
/// holds its pane.
pub open spec fn is_workspace_of(w: Workspace, note: Notification) -> bool {
    match opt_text(note.workspace) {
        Some(id) => w.id@ == id,
        None => match opt_text(note.pane) {
            Some(pane) => holds_pane(w, pane),
            None => false,
        },
    }
}

/// The first workspace that a notification is about.
pub fn notification_workspace<'a>(session: &'a Session, note: &Notification) -> (r: Option<
    &'a Workspace,
>)
    ensures
        r matches Some(w) ==> exists|i: int|
            0 <= i < session.workspaces@.len() && *w == #[trigger] session.workspaces@[i]
                && is_workspace_of(*w, *note) && (forall|k: int|
                0 <= k < i ==> !is_workspace_of(#[trigger] session.workspaces@[k], *note)),
        r is None ==> forall|k: int|
            0 <= k < session.workspaces@.len() ==> !is_workspace_of(
                #[trigger] session.workspaces@[k],
                *note,
            ),
{
    let mut i: usize = 0;
    while i < session.workspaces.len()
        invariant
            i <= session.workspaces.len(),
            forall|k: int| 0 <= k < i ==> !is_workspace_of(#[trigger] session.workspaces@[k], *note),
        decreases session.workspaces.len() - i,
    {
        let w = &session.workspaces[i];
        let hit = match &note.workspace {
            Some(id) => same(w.id.as_str(), id.as_str()),
            None => match &note.pane {
                Some(pane) => w.contains_pane(pane.as_str()),
                None => false,
            },
        };
        if hit {
            assert(*w == session.workspaces@[i as int]);
            return Some(w);
        }
        i += 1;
    }
    None
}

/// A working directory that an older daemon left behind.
pub open spec fn is_stale_cwd(cwd: Seq<char>) -> bool {
    cwd.len() == 0 || cwd == "/"@ || cwd == "."@
}

/// Gives workspaces without a proper working directory the one that the user started in.
pub fn repair_workspace_cwds(workspaces: &mut Vec<Workspace>, launch: &str)
    ensures
        final(workspaces)@.len() == old(workspaces)@.len(),
        forall|i: int|
            0 <= i < old(workspaces)@.len() ==> (#[trigger] final(workspaces)@[i]) == (Workspace {
                cwd: final(workspaces)@[i].cwd,
                ..old(workspaces)@[i]
            }) && final(workspaces)@[i].cwd@ == if launch@ != "/"@ && is_stale_cwd(
                old(workspaces)@[i].cwd@,
            ) {
                launch@
            } else {
                old(workspaces)@[i].cwd@
            },
{
    if same(launch, "/") {
        return;
    }
    let ghost all = workspaces@;
    let mut i: usize = 0;
    while i < workspaces.len()
        invariant
            i <= workspaces.len(),
            launch@ != "/"@,
            workspaces@.len() == all.len(),
            forall|k: int| i <= k < all.len() ==> #[trigger] workspaces@[k] == all[k],
            forall|k: int|
                0 <= k < i ==> (#[trigger] workspaces@[k]) == (Workspace {
                    cwd: workspaces@[k].cwd,
                    ..all[k]
                }) && workspaces@[k].cwd@ == if is_stale_cwd(all[k].cwd@) {
                    launch@
                } else {
                    all[k].cwd@
                },
        decreases workspaces.len() - i,
    {
        let stale = {
            let cwd = workspaces[i].cwd.as_str();
            cwd.is_empty() || same(cwd, "/") || same(cwd, ".")
        };
        if stale {
            let w = &mut workspaces[i];
            w.cwd = launch.to_string();
        }
        i += 1;
    }
}

} // verus!

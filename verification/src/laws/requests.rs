//! What a daemon does when it is asked for something.
use crate::daemon::capture::{blanked, cleared_text, is_key_of};
use crate::daemon::dispatch::{dispatched, Answer, Collect, Daemon, DispatchError, LayoutStep, Step};
use crate::daemon::handlers::{holder_index, naming, Naming};
use crate::daemon::live::{LlmTitleState, PaneRuntime};
use crate::daemon::plans::{command_or_shell, is_first_pane, PanePlan};
use crate::daemon::snapshot::{
    event_workspace_index, leaned, meta_index, overlaid, port_facts, saved, tab_stripped,
    WorkspaceMeta,
};
use crate::daemon::titles::{known_agent, summary_due, TitleSettings};
use crate::laws::restores::stands_on_a_tab;
use crate::laws::spaces::{first_holder_counts, first_workspace_counts, selectors_name_workspaces};
use crate::model::{
    event_views, pane_index, pane_index_is_first, AgentStatus, EventView, Pane, PaneSize, Session,
    SplitDirection, SurfaceKind, Workspace,
};
use crate::protocol::Request;
use crate::text::chars::{begins, is_blank, opt_text, texts, trimmed};
use crate::text::numbers::decimal;
use vstd::prelude::*;

verus! {

/// The session has the pane in a place, and the request names it, with or without white space
/// around the name.
pub open spec fn names_the_pane(session: Session, pane: Option<String>, i: int) -> bool {
    &&& 0 <= i < session.panes@.len()
    &&& pane is Some
    &&& !is_blank(pane->0@)
    &&& trimmed(pane->0@) == session.panes@[i].id@
}

/// The workspace in a place is the active one, and no earlier one has its id.
pub open spec fn is_active(session: Session, w: int) -> bool {
    &&& 0 <= w < session.workspaces@.len()
    &&& session.workspaces@[w].id@ == session.active_workspace@
    &&& forall|j: int|
        0 <= j < w ==> (#[trigger] session.workspaces@[j]).id@ != session.active_workspace@
}

/// The workspace in a place has the id, and no earlier one does.
pub open spec fn has_the_id(session: Session, id: Seq<char>, w: int) -> bool {
    &&& 0 <= w < session.workspaces@.len()
    &&& session.workspaces@[w].id@ == id
    &&& forall|j: int| 0 <= j < w ==> (#[trigger] session.workspaces@[j]).id@ != id
}

/// A pane that is named by its id is found.
pub proof fn named(session: Session, pane: Option<String>, i: int)
    requires
        names_the_pane(session, pane, i),
    ensures
        naming(session, opt_text(pane)) == Naming::Pane(session.panes@[i].id@),
{
    let id = session.panes@[i].id@;
    pane_index_is_first(session.panes@, id);
}

/// What is typed goes to the pane that is named, to the letter; so does what was copied, with a
/// line break behind it where that is asked for.
pub proof fn typing_goes_to_the_pane(
    before: Daemon,
    now: u64,
    after: Daemon,
    r: Result<Step, DispatchError>,
    pane: Option<String>,
    data: String,
    enter: bool,
    i: int,
)
    requires
        names_the_pane(before.session, pane, i),
    ensures
        dispatched(before, Request::Input { pane, data }, now, after, r) ==> (r matches Ok(
            Step::Write { pane: p, data: d },
        ) && p@ == before.session.panes@[i].id@ && d == data && after == before),
        dispatched(before, Request::Paste { pane, enter }, now, after, r)
            && before.session.clipboard is None ==> (r matches Err(DispatchError::NothingCopied)),
        dispatched(before, Request::Paste { pane, enter }, now, after, r)
            && before.session.clipboard is Some && enter ==> (r matches Ok(
            Step::Write { pane: p, data: d },
        ) && p@ == before.session.panes@[i].id@ && d@
            == before.session.clipboard->0.text@.push('\n')),
        dispatched(before, Request::Paste { pane, enter }, now, after, r)
            && before.session.clipboard is Some && !enter ==> (r matches Ok(
            Step::Write { pane: p, data: d },
        ) && p@ == before.session.panes@[i].id@ && d@ == before.session.clipboard->0.text@),
{
    named(before.session, pane, i);
}

/// The pane that is named is the one that is ended, cleared, read, searched or copied.
pub proof fn requests_reach_the_pane(
    before: Daemon,
    now: u64,
    after: Daemon,
    r: Result<Step, DispatchError>,
    pane: Option<String>,
    query: String,
    scrollback: bool,
    limit_bytes: Option<usize>,
    ansi: bool,
    history_lines: usize,
    i: int,
)
    requires
        names_the_pane(before.session, pane, i),
    ensures
        dispatched(before, Request::KillPane { pane }, now, after, r) ==> (r matches Ok(
            Step::Kill { pane: p },
        ) && p@ == before.session.panes@[i].id@),
        dispatched(before, Request::ClearPane { pane }, now, after, r) ==> (r matches Ok(
            Step::Clear { pane: p },
        ) && p@ == before.session.panes@[i].id@),
        dispatched(before, Request::Search { pane, query }, now, after, r) && query@.len() > 0 ==> (
        r matches Ok(Step::Search { pane: p, query: q }) && p@ == before.session.panes@[i].id@ && q
            == query),
        dispatched(before, Request::Search { pane, query }, now, after, r) && query@.len() == 0
            ==> (r matches Err(DispatchError::EmptyQuery)),
        dispatched(before, Request::CopyPane { pane, scrollback, limit_bytes }, now, after, r) ==> (
        r matches Ok(Step::Copy { pane: p, scrollback: b, limit_bytes: l }) && p@
            == before.session.panes@[i].id@ && b == scrollback && l == limit_bytes),
        dispatched(
            before,
            Request::ReadScreen { pane, scrollback, limit_bytes, ansi, history_lines },
            now,
            after,
            r,
        ) ==> (r matches Ok(
            Step::Read { pane: p, scrollback: b, limit_bytes: l, ansi: a, history_lines: h },
        ) && p@ == before.session.panes@[i].id@ && b == scrollback && l == limit_bytes && a == ansi
            && h == history_lines),
{
    named(before.session, pane, i);
}

/// A pane that is asked for starts in the workspace that is named, in its directory, with the
/// command, the title and the kind that are given, on the side that is given.
pub proof fn panes_start_where_they_are_asked_for(
    before: Daemon,
    now: u64,
    after: Daemon,
    r: Result<Step, DispatchError>,
    direction: SplitDirection,
    command: String,
    title: Option<String>,
    workspace: String,
    surface_kind: Option<SurfaceKind>,
    w: int,
)
    requires
        has_the_id(before.session, workspace@, w),
        dispatched(
            before,
            Request::NewPane {
                direction,
                command,
                title,
                workspace: Some(workspace),
                surface_kind,
            },
            now,
            after,
            r,
        ),
    ensures
        r matches Ok(Step::Start(plan)) && plan.direction == direction && plan.command == command
            && plan.title == title && plan.surface_kind == surface_kind && plan.workspace
            == before.session.workspaces@[w].id && plan.cwd == before.session.workspaces@[w].cwd,
        after == before,
{
    selectors_name_workspaces(before.session, workspace@, w);
}

/// Going to a workspace, naming it, pinning it and taking it to a position change that workspace
/// and no other, and are counted.
pub proof fn workspaces_are_changed_by_their_ids(
    before: Daemon,
    now: u64,
    after: Daemon,
    r: Result<Step, DispatchError>,
    workspace: String,
    name: String,
    pinned: bool,
    w: int,
)
    requires
        has_the_id(before.session, workspace@, w),
    ensures
        dispatched(before, Request::SwitchWorkspace { workspace }, now, after, r) ==> {
            &&& after.session.active_workspace@ == workspace@
            &&& after.session.workspaces == before.session.workspaces
            &&& r matches Ok(Step::Save(_))
            &&& after.generation != before.generation
        },
        dispatched(before, Request::RenameWorkspace { workspace, name }, now, after, r) ==> {
            &&& after.session.workspaces@ == before.session.workspaces@.update(
                w,
                Workspace { name, ..before.session.workspaces@[w] },
            )
            &&& after.session.panes == before.session.panes
            &&& after.generation != before.generation
        },
        dispatched(before, Request::SetWorkspacePinned { workspace, pinned }, now, after, r) ==> {
            &&& after.session.workspaces@ == before.session.workspaces@.update(
                w,
                Workspace { pinned, ..before.session.workspaces@[w] },
            )
            &&& after.session.panes == before.session.panes
            &&& after.generation != before.generation
        },
        dispatched(
            before,
            Request::CloseWorkspace { workspace: Some(workspace) },
            now,
            after,
            r,
        ) && before.session.workspaces@.len() == 1 ==> (r matches Err(DispatchError::LastWorkspace))
            && after == before,
        dispatched(
            before,
            Request::CloseWorkspace { workspace: Some(workspace) },
            now,
            after,
            r,
        ) && before.session.workspaces@.len() > 1 ==> after.session.workspaces@
            == before.session.workspaces@.remove(w),
{
    selectors_name_workspaces(before.session, workspace@, w);
}

/// A new title has no white space around it and an empty one is refused; progress is a hundred at
/// most; and the pane that is named gets them, no other.
pub proof fn panes_are_changed_by_their_ids(
    before: Daemon,
    now: u64,
    after: Daemon,
    r: Result<Step, DispatchError>,
    pane: Option<String>,
    title: String,
    value: Option<u8>,
    i: int,
)
    requires
        names_the_pane(before.session, pane, i),
        forall|j: int|
            0 <= j < i ==> (#[trigger] before.session.panes@[j]).id@ != before.session.panes@[i].id@,
    ensures
        dispatched(before, Request::SetPaneTitle { pane, title }, now, after, r) && is_blank(title@)
            ==> r is Err && after == before,
        dispatched(before, Request::SetPaneTitle { pane, title }, now, after, r) && !is_blank(
            title@,
        ) ==> {
            &&& after.session.panes@.len() == before.session.panes@.len()
            &&& after.session.panes@[i].title@ == trimmed(title@)
            &&& after.session.panes@[i].command == before.session.panes@[i].command
            &&& forall|j: int|
                0 <= j < before.session.panes@.len() && j != i ==> #[trigger] after.session.panes@[j]
                    == before.session.panes@[j]
        },
        dispatched(before, Request::Progress { pane, value }, now, after, r) ==> {
            &&& value is None ==> after.session.panes@[i].progress is None
            &&& value matches Some(v) ==> v <= 100 ==> after.session.panes@[i].progress == Some(v)
            &&& value matches Some(v) ==> v > 100 ==> after.session.panes@[i].progress == Some(
                100u8,
            )
            &&& event_views(after.session.events@).last().kind == "progress"@
            &&& event_views(after.session.events@).last().pane == Some(
                before.session.panes@[i].id@,
            )
            &&& forall|j: int|
                0 <= j < before.session.panes@.len() && j != i ==> #[trigger] after.session.panes@[j]
                    == before.session.panes@[j]
        },
{
    named(before.session, pane, i);
    let id = before.session.panes@[i].id@;
    pane_index_is_first(before.session.panes@, id);
    assert(pane_index(before.session.panes@, id) == Some(i));
}

/// What needs no pane and no workspace: the answer to a ping, an empty feed, what is copied, a
/// resize, and the end.
pub proof fn plain_requests(
    before: Daemon,
    now: u64,
    after: Daemon,
    r: Result<Step, DispatchError>,
    text: String,
    source_pane: Option<String>,
    source: String,
    amount: u16,
)
    ensures
        dispatched(before, Request::Ping, now, after, r) ==> (r matches Ok(
            Step::Done(Answer::Pong),
        )) && after == before,
        dispatched(before, Request::ClearNotifications, now, after, r) ==> {
            &&& after.session.notifications@.len() == 0
            &&& after.session.events == before.session.events
            &&& r matches Ok(Step::Save(Answer::Cleared(n))) && n
                == before.session.notifications@.len() as usize
        },
        dispatched(before, Request::SetClipboard { text, source_pane, source }, now, after, r) ==> (
        after.session.clipboard matches Some(item) && item.text == text && item.source == source
            && item.source_pane == source_pane && item.copied_at == now),
        dispatched(
            before,
            Request::Resize { direction: SplitDirection::Right, amount },
            now,
            after,
            r,
        ) && amount <= 50 ==> (r matches Ok(Step::Layout(LayoutStep::Resize { direction: _, delta }))
            && delta == amount),
        dispatched(
            before,
            Request::Resize { direction: SplitDirection::Left, amount },
            now,
            after,
            r,
        ) && amount <= 50 ==> (r matches Ok(Step::Layout(LayoutStep::Resize { direction: _, delta }))
            && delta == -amount),
        dispatched(before, Request::Shutdown, now, after, r) ==> after.shutting_down && (r matches Ok(
            Step::ShutDown,
        )) && after.session == before.session,
        dispatched(before, Request::Clipboard, now, after, r) ==> (r matches Ok(
            Step::Done(Answer::Clipboard),
        )),
{
}

/// A client that has seen the state of the session is told so, and any other gets a snapshot.
pub proof fn snapshots_are_made_for_news(
    before: Daemon,
    now: u64,
    after: Daemon,
    r: Result<Step, DispatchError>,
    since: Option<u64>,
    full: bool,
    lean: bool,
    scrollback_panes: Vec<String>,
)
    requires
        dispatched(
            before,
            Request::Snapshot { since, full, lean, scrollback_panes },
            now,
            after,
            r,
        ),
    ensures
        since == Some(before.generation) ==> (r matches Ok(
            Step::Done(Answer::Unchanged { generation }),
        ) && generation == before.generation),
        since != Some(before.generation) && lean ==> (r matches Ok(
            Step::Collect(Collect::Snapshot { full: f, keep }),
        ) && f == full && keep == Some(scrollback_panes)),
        since != Some(before.generation) && !lean ==> (r matches Ok(
            Step::Collect(Collect::Snapshot { full: f, keep }),
        ) && f == full && keep is None),
{
}

/// The first client that sets the sizes of panes owns them, and keeps them until another one takes
/// control; a client that does not own them sets none.
pub proof fn sizes_have_one_owner(
    before: Daemon,
    now: u64,
    after: Daemon,
    r: Result<Step, DispatchError>,
    panes: Vec<(String, PaneSize)>,
    client: String,
    take_control: bool,
)
    requires
        dispatched(
            before,
            Request::PaneSizes { panes, client_id: Some(client), take_control },
            now,
            after,
            r,
        ),
    ensures
        take_control || before.pane_size_owner is None ==> opt_text(after.pane_size_owner) == Some(
            client@,
        ) && (r matches Ok(Step::Sizes { panes: p }) && p == panes),
        !take_control && before.pane_size_owner is Some && opt_text(before.pane_size_owner) != Some(
            client@,
        ) ==> opt_text(after.pane_size_owner) == opt_text(before.pane_size_owner) && (r matches Ok(
            Step::Done(Answer::Empty),
        )),
        after.session == before.session,
{
}

/// An empty workspace that is the active one gets a first pane with the shell; one with panes gets
/// none.
pub proof fn the_first_pane_is_a_shell(session: Session, shell: Seq<char>, r: Option<PanePlan>, w: int)
    requires
        is_first_pane(session, shell, r),
        is_active(session, w),
    ensures
        session.workspaces@[w].panes@.len() > 0 ==> r is None,
        session.workspaces@[w].panes@.len() == 0 ==> (r matches Some(plan) && plan.command@ == shell
            && plan.direction == SplitDirection::Right && plan.title is None && plan.workspace@
            == session.workspaces@[w].id@ && plan.cwd@ == session.workspaces@[w].cwd@),
{
    first_workspace_counts(session.workspaces@, session.active_workspace@);
}

/// A command that is blank stands for the shell.
pub proof fn blank_commands_are_the_shell(command: Seq<char>, shell: Seq<char>)
    ensures
        is_blank(command) ==> command_or_shell(command, shell) == shell,
        !is_blank(command) ==> command_or_shell(command, shell) == command,
{
}

/// In a lean snapshot a pane that is kept has its history, and any other has only the number of its
/// lines; what is on the screen stays, and no tab has texts.
pub proof fn lean_panes_keep_their_screens(before: Pane, after: Pane, keep: Seq<String>)
    requires
        leaned(before, after, keep),
    ensures
        (exists|k: int| 0 <= k < keep.len() && (#[trigger] keep[k])@ == before.id@)
            ==> after.scrollback == before.scrollback && after.scrollback_formatted
            == before.scrollback_formatted,
        (forall|k: int| 0 <= k < keep.len() ==> (#[trigger] keep[k])@ != before.id@)
            ==> after.scrollback@.len() == 0 && after.scrollback_formatted@.len() == 0,
        after.output == before.output,
        after.output_formatted == before.output_formatted,
        after.scrollback_lines is Some,
        before.scrollback_lines is Some ==> after.scrollback_lines == before.scrollback_lines,
        after.agent_status == before.agent_status,
        after.id == before.id,
        after.tabs@.len() == before.tabs@.len(),
        forall|t: int|
            0 <= t < before.tabs@.len() ==> (#[trigger] after.tabs@[t]).output@.len() == 0
                && after.tabs@[t].scrollback@.len() == 0 && after.tabs@[t].id == before.tabs@[t].id
                && after.tabs@[t].title == before.tabs@[t].title,
{
    assert forall|t: int| 0 <= t < before.tabs@.len() implies (
    #[trigger] after.tabs@[t]).output@.len() == 0 && after.tabs@[t].scrollback@.len() == 0
        && after.tabs@[t].id == before.tabs@[t].id && after.tabs@[t].title
        == before.tabs@[t].title by {
        assert(tab_stripped(before.tabs@[t], after.tabs@[t]));
    }
}

/// What is saved of a pane is all but what a viewer holds it to and its scrolling mode.
pub proof fn panes_are_saved(pane: Pane)
    ensures
        saved(pane).view_size is None,
        !saved(pane).alternate_scroll_mode,
        saved(pane).output == pane.output,
        saved(pane).scrollback == pane.scrollback,
        saved(pane).status == pane.status,
        saved(pane).agent_status == pane.agent_status,
        saved(pane).title == pane.title,
        saved(pane).metadata == pane.metadata,
        saved(pane).tabs == pane.tabs,
{
}

/// What is known of a workspace from outside is shown with it: its branch, its ports and where its
/// shell is; of one that nothing is known of nothing changes.
pub proof fn workspaces_show_what_is_known(
    before: Workspace,
    after: Workspace,
    metas: Seq<WorkspaceMeta>,
    i: int,
)
    requires
        overlaid(before, after, metas),
    ensures
        (forall|j: int| 0 <= j < metas.len() ==> (#[trigger] metas[j]).workspace@ != before.id@)
            ==> after == before,
        0 <= i < metas.len() && metas[i].workspace@ == before.id@ && (forall|j: int|
            0 <= j < i ==> (#[trigger] metas[j]).workspace@ != before.id@) ==> {
            &&& after.git_branch == metas[i].git_branch
            &&& after.pull_request is None
            &&& metas[i].cwd is Some ==> Some(after.cwd) == metas[i].cwd
            &&& metas[i].cwd is None ==> after.cwd == before.cwd
            &&& after.ports@.len() == metas[i].ports@.len()
            &&& after.panes == before.panes
            &&& after.tabs == before.tabs
            &&& after.name == before.name
        },
{
    first_meta(metas, before.id@);
    if 0 <= i < metas.len() && metas[i].workspace@ == before.id@ && (forall|j: int|
        0 <= j < i ==> (#[trigger] metas[j]).workspace@ != before.id@) {
        let k = meta_index(metas, before.id@)->0;
        assert(k == i);
        assert(port_facts(after.ports@).len()
            == port_facts(metas[i].ports@).len());
    }
}

proof fn first_meta(metas: Seq<WorkspaceMeta>, id: Seq<char>)
    ensures
        meta_index(metas, id) matches Some(i) ==> 0 <= i < metas.len()
            && metas[i].workspace@ == id && (forall|j: int|
            0 <= j < i ==> (#[trigger] metas[j]).workspace@ != id),
        meta_index(metas, id) is None ==> (forall|j: int|
            0 <= j < metas.len() ==> (#[trigger] metas[j]).workspace@ != id),
    decreases metas.len(),
{
    if metas.len() > 0 && metas[0].workspace@ != id {
        let rest = metas.drop_first();
        first_meta(rest, id);
        assert forall|j: int| 0 < j < metas.len() implies metas[j] == rest[j - 1] by {}
    }
}

/// An event is about the workspace that it names, or else about the first that holds its pane.
pub proof fn events_are_about_workspaces(spaces: Seq<Workspace>, e: EventView, i: int)
    requires
        0 <= i < spaces.len(),
    ensures
        e.workspace == Some(spaces[i].id@) && (forall|j: int|
            0 <= j < i ==> (#[trigger] spaces[j]).id@ != spaces[i].id@) ==> event_workspace_index(
            spaces,
            e,
        ) == Some(i),
        e.workspace is None && e.pane is Some && stands_on_a_tab(spaces[i], e.pane->0) && (forall|
            j: int,
        |
            0 <= j < i ==> !stands_on_a_tab(#[trigger] spaces[j], e.pane->0))
            ==> event_workspace_index(spaces, e) == Some(i),
        e.workspace is None && e.pane is None ==> event_workspace_index(spaces, e) is None,
{
    first_workspace_counts(spaces, spaces[i].id@);
    if e.pane is Some {
        first_holder_counts(spaces, e.pane->0);
        match holder_index(spaces, e.pane->0) {
            Some(k) => {
                if stands_on_a_tab(spaces[i], e.pane->0) && k > i {
                    assert(!stands_on_a_tab(spaces[i], e.pane->0));
                }
            },
            None => {},
        }
    }
}

/// A summarizer is asked once, where that is allowed, while the agent is on a task and after the
/// wait is over.
pub proof fn summaries_are_asked_for_once(r: PaneRuntime, settings: TitleSettings, now: u64)
    ensures
        r.llm_title_state == LlmTitleState::Done ==> !summary_due(r, settings, now),
        !settings.llm_fallback ==> !summary_due(r, settings, now),
        r.pane.agent_status == AgentStatus::Idle || r.pane.agent_status == AgentStatus::Done
            || r.pane.agent_status == AgentStatus::Error || r.pane.agent_status
            == AgentStatus::Unknown ==> !summary_due(r, settings, now),
        now < r.started_at && settings.llm_delay_ms > 0 ==> !summary_due(r, settings, now),
        r.llm_title_state == LlmTitleState::Pending && settings.llm_fallback && (
        r.pane.agent_status == AgentStatus::Busy || r.pane.agent_status == AgentStatus::Attention)
            && r.started_at <= now && (now - r.started_at) * 1000 >= settings.llm_delay_ms
            ==> summary_due(r, settings, now),
        r.llm_title_state == LlmTitleState::Pending && r.started_at <= now && (now - r.started_at)
            * 1000 < settings.llm_delay_ms ==> !summary_due(r, settings, now),
{
}

/// Whether an agent runs in a pane is known where its command is one, where it has no process, and
/// within five seconds of a look.
pub proof fn looks_are_good_for_seconds(r: PaneRuntime, now: u64)
    ensures
        known_agent(r, true, now) == Some(true),
        r.pane.pid is None ==> known_agent(r, false, now) == Some(false),
        r.pane.pid is Some && 0 < r.agent_inside_at <= now && now - r.agent_inside_at < 5
            ==> known_agent(r, false, now) == Some(r.agent_inside),
        r.pane.pid is Some && 0 < r.agent_inside_at && now >= r.agent_inside_at + 5 ==> known_agent(
            r,
            false,
            now,
        ) is None,
        r.pane.pid is Some && r.agent_inside_at == 0 ==> known_agent(r, false, now) is None,
{
}

/// A pane that is cleared shows nothing and keeps who it is.
pub proof fn cleared_panes_show_nothing(before: Pane, after: Pane, alternate_scroll: bool)
    requires
        blanked(before, after, alternate_scroll),
    ensures
        after.output@.len() == 0,
        after.output_formatted@.len() == 0,
        after.scrollback@.len() == 0,
        after.scrollback_formatted@.len() == 0,
        after.alternate_scroll_mode == alternate_scroll,
        after.id == before.id,
        after.title == before.title,
        after.status == before.status,
        after.agent_status == before.agent_status,
        after.tabs == before.tabs,
        after.notification_message == before.notification_message,
{
}

/// The keys of a pane's runs are its id, and its id with two colons and a tab behind them.
pub proof fn runs_of_a_pane(pane: Seq<char>, tab: Seq<char>, other: Seq<char>)
    ensures
        is_key_of(pane, pane),
        is_key_of(pane + "::"@ + tab, pane),
        other.len() < pane.len() ==> !is_key_of(other, pane),
        other.len() > 0 && pane.len() > 0 && other[0] != pane[0] ==> !is_key_of(other, pane),
{
    let head = pane + "::"@;
    let key = pane + "::"@ + tab;
    assert(key.subrange(0, head.len() as int) =~= head);
    if other.len() > 0 && pane.len() > 0 && other[0] != pane[0] {
        if begins(other, head) {
            assert(other.subrange(0, head.len() as int)[0] == other[0]);
            assert(head[0] == pane[0]);
        }
    }
}

/// What a cleared pane says names its rows and its columns.
pub proof fn cleared_panes_say_their_size(size: PaneSize)
    ensures
        cleared_text(size) == "cleared capture at "@ + decimal(size.rows as nat) + "x"@ + decimal(
            size.cols as nat,
        ),
{
}

} // verus!

//! The end of requests that work outside the session stands in the middle of: what the session
//! takes in of that work. Each counts the change.
use crate::daemon::capture::{
    blanked, clear_record, mark_view, unmark_views, view_marked, ViewError,
};
use crate::daemon::dispatch::{changed, touch, Daemon};
use crate::daemon::handlers::{
    copy_source, find_workspace, is_zoomed, killed, set_clipboard, workspace_index,
};
use crate::daemon::lifecycle::{publish_pane, published};
use crate::daemon::panes::{lists, tabs_mirroring};
use crate::daemon::session::{noted, notify, Notified, NotifyRequest};
use crate::daemon::status::mark_busy_by_input;
use crate::daemon::workspaces::{
    kill_pane, link_pane, linked, panes_swapped, swap_panes, taken,
};
use crate::model::{
    find_pane, pane_index, AgentStatus, Pane, PaneSize, Session, SurfaceKind,
};
use crate::text::chars::opt_text;
use vstd::prelude::*;

verus! {

/// Takes a pane whose process was started into the session.
pub fn publish_started(daemon: &mut Daemon, pane: &Pane)
    requires
        old(daemon).session.panes@.len() < usize::MAX,
    ensures
        published(old(daemon).session.panes@, final(daemon).session.panes@, *pane),
        final(daemon).session == (Session {
            panes: final(daemon).session.panes,
            ..old(daemon).session
        }),
        changed(*old(daemon), *final(daemon)),
{
    publish_pane(&mut daemon.session, pane);
    touch(daemon);
}

/// Shows a pane that was started in its workspace. Says whether there is that workspace.
pub fn link_started(daemon: &mut Daemon, workspace: &str, pane: &str) -> (found: bool)
    ensures
        found == workspace_index(old(daemon).session.workspaces@, workspace@) is Some,
        !found ==> *final(daemon) == *old(daemon),
        found ==> ({
            let before = old(daemon).session.workspaces@;
            let after = final(daemon).session.workspaces@;
            let w = workspace_index(before, workspace@)->0;
            &&& after == before.update(w, after[w])
            &&& linked(before[w], after[w], pane@)
            &&& final(daemon).session == Session {
                workspaces: final(daemon).session.workspaces,
                ..old(daemon).session
            }
            &&& changed(*old(daemon), *final(daemon))
        }),
{
    match find_workspace(&daemon.session.workspaces, workspace) {
        None => false,
        Some(w) => {
            link_pane(&mut daemon.session.workspaces[w], pane);
            touch(daemon);
            true
        },
    }
}

/// Takes a pane whose process was ended out of the session; none where there is no such pane.
/// `output` is what it had written.
pub fn take_killed(daemon: &mut Daemon, id: &str, output: Option<String>, now: u64) -> (r: Option<
    Pane,
>)
    ensures
        match pane_index(old(daemon).session.panes@, id@) {
            None => r is None && *final(daemon) == *old(daemon),
            Some(i) => {
                &&& r matches Some(pane) && killed(
                    old(daemon).session.panes@[i],
                    pane,
                    opt_text(output),
                    now,
                )
                &&& taken(old(daemon).session, final(daemon).session, id@)
                &&& changed(*old(daemon), *final(daemon))
            },
        },
{
    if find_pane(&daemon.session.panes, id).is_none() {
        return None;
    }
    let r = kill_pane(&mut daemon.session, id, output, now);
    touch(daemon);
    r
}

/// Changes the places of two panes, once the layout has named the second. Says whether a
/// workspace shows both.
pub fn swap_beside(daemon: &mut Daemon, first: &str, second: &str) -> (swapped: bool)
    ensures
        exists|w: Option<usize>| #[trigger]
            panes_swapped(
                old(daemon).session,
                final(daemon).session,
                first@,
                second@,
                w,
            ) && swapped == w is Some,
        swapped ==> changed(*old(daemon), *final(daemon)),
        !swapped ==> *final(daemon) == *old(daemon),
{
    let w = swap_panes(&mut daemon.session, first, second);
    if w.is_some() {
        touch(daemon);
    }
    w.is_some()
}

/// Notes what is reported of a pane.
pub fn note_report(
    daemon: &mut Daemon,
    request: NotifyRequest,
    titles_enabled: bool,
    condensed: Option<String>,
    from_message: Option<String>,
    now: u64,
) -> (r: Notified)
    ensures
        noted(
            old(daemon).session,
            final(daemon).session,
            request,
            titles_enabled,
            condensed,
            from_message,
            now,
            r,
        ),
        changed(*old(daemon), *final(daemon)),
{
    let r = notify(&mut daemon.session, request, titles_enabled, condensed, from_message, now);
    touch(daemon);
    r
}

/// `after` is the pane `before` once what it showed is forgotten.
pub open spec fn record_cleared(before: Pane, after: Pane, alternate_scroll: bool, now: u64) -> bool {
    exists|mid: Pane| #[trigger]
        blanked(before, mid, alternate_scroll) && after == Pane {
            updated_at: now,
            tabs: after.tabs,
            ..mid
        } && after.tabs@ == match opt_text(before.active_tab) {
            Some(id) => tabs_mirroring(before.tabs@, id, Pane { updated_at: now, ..mid }, now),
            None => before.tabs@,
        }
}

/// Forgets what a pane showed. Says whether there is that pane.
pub fn forget_shown(daemon: &mut Daemon, id: &str, alternate_scroll: bool, now: u64) -> (found: bool)
    ensures
        match pane_index(old(daemon).session.panes@, id@) {
            None => !found && *final(daemon) == *old(daemon),
            Some(i) => {
                let before = old(daemon).session.panes@;
                let after = final(daemon).session.panes@;
                &&& found
                &&& after == before.update(i, after[i])
                &&& record_cleared(before[i], after[i], alternate_scroll, now)
                &&& final(daemon).session == Session {
                    panes: final(daemon).session.panes,
                    ..old(daemon).session
                }
                &&& changed(*old(daemon), *final(daemon))
            },
        },
{
    match find_pane(&daemon.session.panes, id) {
        None => false,
        Some(i) => {
            clear_record(&mut daemon.session.panes[i], alternate_scroll, now);
            touch(daemon);
            true
        },
    }
}

/// Keeps what was copied of a pane.
pub fn keep_copied(daemon: &mut Daemon, id: &str, text: String, scrollback: bool, now: u64)
    ensures
        final(daemon).session.clipboard matches Some(item) && item.text == text && opt_text(
            item.source_pane,
        ) == Some(id@) && item.source@ == (if scrollback {
            "scrollback"@
        } else {
            "screen"@
        }) && item.copied_at == now,
        final(daemon).session == (Session {
            clipboard: final(daemon).session.clipboard,
            ..old(daemon).session
        }),
        changed(*old(daemon), *final(daemon)),
{
    set_clipboard(
        &mut daemon.session,
        text,
        Some(id.to_string()),
        copy_source(scrollback),
        now,
    );
    touch(daemon);
}

/// Notes that a viewer holds a pane to a size.
pub fn hold_view(daemon: &mut Daemon, pane: &str, view: PaneSize) -> (r: Result<(), ViewError>)
    ensures
        if is_zoomed(old(daemon).session.workspaces@, pane@) {
            r matches Err(ViewError::Zoomed(id)) && id@ == pane@
        } else if pane_index(old(daemon).session.panes@, pane@) is None {
            r matches Err(ViewError::Unknown(id)) && id@ == pane@
        } else {
            r is Ok
        },
        r is Err ==> *final(daemon) == *old(daemon),
        r is Ok ==> view_marked(old(daemon).session, final(daemon).session, pane@, view) && changed(
            *old(daemon),
            *final(daemon),
        ),
{
    let r = mark_view(&mut daemon.session, pane, view);
    if r.is_ok() {
        touch(daemon);
    }
    r
}

/// Notes that no viewer holds the panes to a size any more.
pub fn free_views(daemon: &mut Daemon, ids: &Vec<String>)
    ensures
        final(daemon).session.panes@ == old(daemon).session.panes@.map_values(
            |p: Pane|
                if lists(ids@, p.id@) {
                    Pane { view_size: None, ..p }
                } else {
                    p
                },
        ),
        final(daemon).session == (Session {
            panes: final(daemon).session.panes,
            ..old(daemon).session
        }),
        changed(*old(daemon), *final(daemon)),
{
    unmark_views(&mut daemon.session.panes, ids);
    touch(daemon);
}

/// Notes that the user gave the agent of a pane something to do.
pub fn note_input(daemon: &mut Daemon, id: &str, is_agent_command: bool, now: u64)
    ensures
        final(daemon).session.panes@ == match pane_index(old(daemon).session.panes@, id@) {
            None => old(daemon).session.panes@,
            Some(i) => {
                let pane = old(daemon).session.panes@[i];
                old(daemon).session.panes@.update(
                    i,
                    if is_agent_command || pane.surface_kind == SurfaceKind::Agent {
                        Pane {
                            notification_message: None,
                            notification_color: None,
                            updated_at: now,
                            ..pane.touched(AgentStatus::Busy, true, now)
                        }
                    } else {
                        pane
                    },
                )
            },
        },
        final(daemon).session == (Session {
            panes: final(daemon).session.panes,
            ..old(daemon).session
        }),
        changed(*old(daemon), *final(daemon)),
{
    if let Some(i) = find_pane(&daemon.session.panes, id) {
        mark_busy_by_input(&mut daemon.session.panes[i], is_agent_command, now);
    }
    touch(daemon);
}

/// A client that has seen a state of the session is told of every change that is counted.
pub proof fn counted_changes_are_told(before: Daemon, after: Daemon)
    requires
        changed(before, after),
    ensures
        after.generation != before.generation,
{
}

} // verus!

//! What is left of a pane when its process ends.
use crate::daemon::emulator::shown;
use crate::daemon::lifecycle::{end_noted, exit_runtime, exited};
use crate::daemon::live::PaneRuntime;
use crate::daemon::runtime::active_key;
use crate::daemon::screen::screen_text;
use crate::model::{event_views, pane_index_is_first, AgentStatus, Pane, PaneStatus, Session};
use crate::text::numbers::signed_decimal;
use vstd::prelude::*;

verus! {

/// A run that ended with code 0 is done; one that ended with another code, or without one, is an
/// error. Either way the pane has exited: its code is kept, no process, notice or scrolling mode is
/// left, its progress is full and its status stays until it is set again.
pub proof fn a_clean_end_is_done(
    before: PaneRuntime,
    after: PaneRuntime,
    exit_code: Option<i32>,
    cap: usize,
    now: u64,
)
    requires
        exited(before, after, exit_code, cap, now),
    ensures
        exit_code == Some(0i32) ==> after.pane.agent_status == AgentStatus::Done,
        exit_code != Some(0i32) ==> after.pane.agent_status == AgentStatus::Error,
        after.pane.agent_status_pinned,
        after.pane.agent_status_at == now,
        after.pane.updated_at == now,
        after.pane.status == PaneStatus::Exited,
        after.pane.exit_code == exit_code,
        after.pane.pid is None,
        after.pane.progress == Some(100u8),
        after.pane.notification_message is None,
        after.pane.notification_color is None,
        !after.pane.alternate_scroll_mode,
        after.pane.id == before.pane.id,
        after.pane.command == before.pane.command,
        after.pane.title == before.pane.title,
        after.pane.tabs == before.pane.tabs,
        after.pane.metadata == before.pane.metadata,
        after.pane.output@ == screen_text(shown(before.terminal)),
        after.generation == before.generation,
{
}

/// The end of a run is the newest event in the log: "done" where it ended with code 0 and "error"
/// where not, with the code as the value. The pane with the id takes the run over where it shows
/// it, and no other pane changes.
pub proof fn an_end_is_logged(
    before: Session,
    after: Session,
    key: Seq<char>,
    id: Seq<char>,
    run: Pane,
    exit_code: Option<i32>,
    now: u64,
)
    requires
        end_noted(before, after, key, id, run, exit_code, now),
    ensures
        ({
            let log = event_views(after.events@);
            &&& 0 < log.len() <= 500
            &&& log.last().kind == "pane-exit"@
            &&& log.last().time == now
            &&& log.last().pane == Some(id)
            &&& log.last().workspace is None
            &&& log.last().key is None
            &&& exit_code == Some(0i32) ==> log.last().status == Some("done"@)
            &&& exit_code != Some(0i32) ==> log.last().status == Some("error"@)
            &&& match exit_code {
                Some(code) => log.last().value == Some(signed_decimal(code as int)),
                None => log.last().value is None,
            }
            &&& before.next_event_id < u64::MAX ==> log.last().id == before.next_event_id + 1
                && after.next_event_id == log.last().id
        }),
        after.panes@.len() == before.panes@.len(),
        forall|i: int|
            0 <= i < before.panes@.len() && (#[trigger] before.panes@[i]).id@ != id
                ==> after.panes@[i] == before.panes@[i],
        forall|i: int|
            0 <= i < before.panes@.len() && (#[trigger] before.panes@[i]).id@ == id && (forall|
                j: int,
            |
                0 <= j < i ==> (#[trigger] before.panes@[j]).id@ != id) && active_key(
                before.panes@[i],
            ) == key ==> after.panes@[i].agent_status == run.agent_status
                && after.panes@[i].status == run.status && after.panes@[i].exit_code
                == run.exit_code && after.panes@[i].output == run.output
                && after.panes@[i].metadata == before.panes@[i].metadata
                && after.panes@[i].active_tab == before.panes@[i].active_tab,
        after.workspaces == before.workspaces,
        after.active_workspace == before.active_workspace,
        after.notifications == before.notifications,
{
    pane_index_is_first(before.panes@, id);
    let log = event_views(after.events@);
    assert(log.len() > 0);
}

/// A run is told of its own end only, and takes from it whether it went well.
pub proof fn runs_are_told_of_their_ends(
    runtime: &mut PaneRuntime,
    generation: u64,
    exit_code: Option<i32>,
    cap: usize,
    now: u64,
    ended: bool,
)
    requires
        call_ensures(exit_runtime, (runtime, generation, exit_code, cap, now), ended),
    ensures
        ended <==> old(runtime).generation == generation,
        !ended ==> *final(runtime) == *old(runtime),
        ended && exit_code == Some(0i32) ==> final(runtime).pane.agent_status == AgentStatus::Done,
        ended && exit_code != Some(0i32) ==> final(runtime).pane.agent_status == AgentStatus::Error,
        ended ==> final(runtime).pane.status == PaneStatus::Exited && final(runtime).pane.exit_code
            == exit_code,
{
}

} // verus!

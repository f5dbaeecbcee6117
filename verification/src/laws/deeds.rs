//! What calls change, and what they leave as it was.
use crate::cli::commands::{browser_request, field_pairs, is_field, BrowserCommand, FieldError};
use crate::cli::doctor::{integration_ok, InstallState};
use crate::cli::remote::WorkspacePlan;
use crate::cli::smoke::{smoke_look, SmokeSight, SmokeStage};
use crate::cli::texts::{builtin_skill, builtin_skills, BuiltinSkill, UnknownSkill};
use crate::daemon::capture::{
    is_key_of, keys_of_pane, runtime_key_for, runtime_keys_of, unmark_views, ViewError,
};
use crate::daemon::dispatch::{touch, Daemon};
use crate::daemon::emulator::made;
use crate::daemon::finish::{forget_shown, hold_view, keep_copied, link_started, note_input};
use crate::daemon::handlers::{holder_index, is_zoomed, workspace_index};
use crate::daemon::live::{light_copy, new_runtime, take_output, PaneRuntime, Taken};
use crate::daemon::navigate::{
    auto_title_tab, jump_notification, titled_tab, wait_targets, Jump, JumpError, TargetError,
};
use crate::daemon::panes::{ensure_base_pane_tab, tab_index};
use crate::daemon::portmap::is_key_list;
use crate::daemon::ports::{
    lists_only_in, lists_values, to_listening_ports, DetectedPort, PortDiff, PortRegistry,
};
use crate::daemon::screen::{
    alternate_scroll_active, mode_replay_of, row_cells, screen_alternate, screen_contents_ansi,
    screen_hides_cursor, screen_input_modes, screen_size, styled_row, styled_rows,
};
use crate::daemon::session::{push_event, record_note};
use crate::daemon::terminal::{enter_alternate_screen, hide_cursor_bytes, TerminalModeTracker};
use crate::daemon::workspaces::{drop_panes, link_pane, new_workspace, panes_without, rename_tab};
use crate::laws::pairs::the_first_bad_field_is_told;
use crate::laws::restores::{all_tabs_are_read, stands_on_a_tab};
use crate::model::{
    event_views, notes, pane_index, pane_index_is_first, AgentStatus, EventRecord, ListeningPort,
    Notification, Pane, PaneSize, PaneStatus, Session, SplitDirection, SurfaceKind, Workspace,
};
use crate::protocol::Request;
use crate::text::chars::{begins, joined, opt_text, texts};
use crate::text::numbers::decimal;
use vstd::prelude::*;

verus! {

/// A new workspace comes behind the others, under the next number, and is the active one.
pub proof fn new_workspaces_are_active(
    session: &mut Session,
    next: &mut u64,
    name: String,
    cwd: String,
    i: int,
)
    requires
        call_ensures(new_workspace, (session, next, name, cwd), ()),
    ensures
        final(session).workspaces@.len() == old(session).workspaces@.len() + 1,
        0 <= i < old(session).workspaces@.len() ==> final(session).workspaces@[i]
            == old(session).workspaces@[i],
        final(session).workspaces@.last().id@ == "ws-"@ + decimal(*old(next) as nat),
        final(session).workspaces@.last().name@ == name@,
        final(session).workspaces@.last().cwd@ == cwd@,
        final(session).workspaces@.last().panes@.len() == 0,
        final(session).active_workspace@ == final(session).workspaces@.last().id@,
        *final(next) == *old(next) + 1,
        final(session).panes == old(session).panes,
{
    let w = final(session).workspaces@.last();
    assert(final(session).workspaces@ == old(session).workspaces@.push(w));
}

/// A pane that is linked comes behind the others of the workspace and is its active one.
pub proof fn linked_panes_come_last(w: &mut Workspace, id: &str, i: int)
    requires
        call_ensures(link_pane, (w, id), ()),
    ensures
        final(w).panes@.len() == old(w).panes@.len() + 1,
        final(w).panes@.last()@ == id@,
        opt_text(final(w).active_pane) == Some(id@),
        0 <= i < old(w).panes@.len() ==> final(w).panes@[i] == old(w).panes@[i],
        final(w).id == old(w).id && final(w).tabs == old(w).tabs && final(w).name == old(w).name,
{
    if 0 <= i < old(w).panes@.len() {
        assert(final(w).panes@.drop_last()[i] == final(w).panes@[i]);
    }
}

/// A tab that is renamed keeps its panes and is not titled after an agent any more.
pub proof fn renamed_tabs_are_locked(w: &mut Workspace, i: usize, title: String, j: int)
    requires
        call_ensures(rename_tab, (w, i, title), ()),
        i < old(w).tabs@.len(),
        0 <= j < old(w).tabs@.len(),
        j != i,
    ensures
        final(w).tabs@[i as int].title@ == title@,
        final(w).tabs@[i as int].title_locked,
        final(w).tabs@[i as int].id == old(w).tabs@[i as int].id,
        final(w).tabs@[i as int].panes == old(w).tabs@[i as int].panes,
        final(w).tabs@[j] == old(w).tabs@[j],
{
    assert(final(w).tabs@[j] == old(w).tabs@.update(i as int, final(w).tabs@[i as int])[j]);
}

/// Panes that are dropped are gone, and the others stay in their order.
pub proof fn dropped_panes_are_gone(panes: &mut Vec<Pane>, ids: &Vec<String>)
    requires
        call_ensures(drop_panes, (panes, ids), ()),
    ensures
        final(panes)@ == old(panes)@.filter(|p: Pane| !texts(ids@).contains(p.id@)),
{
    without_is_filter(old(panes)@, texts(ids@));
}

proof fn without_is_filter(panes: Seq<Pane>, ids: Seq<Seq<char>>)
    ensures
        panes_without(panes, ids) == panes.filter(
            |p: Pane| !ids.contains(p.id@),
        ),
    decreases panes.len(),
{
    reveal(Seq::filter);
    if panes.len() > 0 {
        without_is_filter(panes.drop_last(), ids);
    }
}

/// A wait for all panes is for every pane of the session; one for a workspace is for the panes on
/// all of its tabs, of which there must be some.
pub proof fn waits_are_for_all_tabs(
    session: &Session,
    pane: Option<&str>,
    w: usize,
    all: Result<Vec<String>, TargetError>,
    r: Result<Vec<String>, TargetError>,
    id: Seq<char>,
    i: int,
)
    requires
        w < session.workspaces@.len(),
        call_ensures(wait_targets, (session, pane, None::<usize>, true), all),
        call_ensures(wait_targets, (session, pane, Some(w), false), r),
    ensures
        all matches Ok(ids) && ids@.len() == session.panes@.len(),
        0 <= i < session.panes@.len() ==> (all matches Ok(ids) && ids@[i]@ == session.panes@[i].id@),
        r matches Ok(ids) ==> ids@.len() > 0 && (texts(ids@).contains(id) <==> stands_on_a_tab(
            session.workspaces@[w as int],
            id,
        )),
        r is Err ==> !stands_on_a_tab(session.workspaces@[w as int], id),
{
    let space = session.workspaces@[w as int];
    all_tabs_are_read(space, id);
    if 0 <= i < session.panes@.len() {
        assert(texts(all->Ok_0@)[i] == session.panes@[i].id@);
    }
    assert(all matches Ok(ids) && texts(ids@).len() == session.panes@.len());
    if let Ok(ids) = r {
        assert(texts(ids@).len() == ids@.len());
    }
}

/// A tab takes the title of its agent unless it was titled by hand, or has the title already.
pub proof fn tabs_take_titles(
    session: &mut Session,
    pane: &str,
    title: &str,
    renamed: bool,
    w: int,
    t: int,
)
    requires
        call_ensures(auto_title_tab, (session, pane, title), renamed),
        titled_tab(old(session).workspaces@, pane@) == Some((w, t)),
        0 <= w < old(session).workspaces@.len(),
        0 <= t < old(session).workspaces@[w].tabs@.len(),
    ensures
        ({
            let before = old(session).workspaces@[w].tabs@[t];
            let after = final(session).workspaces@[w].tabs@[t];
            &&& before.title_locked ==> !renamed && after == before
            &&& !before.title_locked ==> after.title@ == title@
            &&& renamed <==> !before.title_locked && before.title@ != title@
            &&& after.panes == before.panes && after.id == before.id
            &&& !after.title_locked || before.title_locked
        }),
        final(session).panes == old(session).panes,
{
}

/// A pane on no workspace titles no tab.
pub proof fn loose_panes_title_nothing(
    session: &mut Session,
    pane: &str,
    title: &str,
    renamed: bool,
)
    requires
        call_ensures(auto_title_tab, (session, pane, title), renamed),
        forall|w: int|
            0 <= w < old(session).workspaces@.len() ==> !stands_on_a_tab(
                #[trigger] old(session).workspaces@[w],
                pane@,
            ),
    ensures
        !renamed,
        final(session).workspaces@ == old(session).workspaces@,
{
    no_holder(old(session).workspaces@, pane@);
}

proof fn no_holder(spaces: Seq<Workspace>, pane: Seq<char>)
    requires
        forall|w: int| 0 <= w < spaces.len() ==> !stands_on_a_tab(#[trigger] spaces[w], pane),
    ensures
        holder_index(spaces, pane) is None,
    decreases spaces.len(),
{
    if spaces.len() > 0 {
        all_tabs_are_read(spaces[0], pane);
        let rest = spaces.drop_first();
        assert forall|w: int| 0 <= w < rest.len() implies !stands_on_a_tab(
            #[trigger] rest[w],
            pane,
        ) by {
            assert(rest[w] == spaces[w + 1]);
        }
        no_holder(rest, pane);
    }
}

/// A jump without anything to jump to changes nothing.
pub proof fn failed_jumps_change_nothing(
    session: &mut Session,
    now: u64,
    r: Result<Jump, JumpError>,
)
    requires
        call_ensures(jump_notification, (session, now), r),
    ensures
        r is Err ==> final(session).workspaces@ == old(session).workspaces@
            && final(session).panes == old(session).panes && final(session).active_workspace
            == old(session).active_workspace,
        r matches Ok(jump) ==> final(session).active_workspace@ == jump.workspace@,
{
}

/// A pane without tabs gets one, `tab-1`, that keeps what it shows; one with tabs keeps them, and
/// the first is the active one where none is.
pub proof fn panes_have_a_tab(pane: &mut Pane, now: u64)
    requires
        call_ensures(ensure_base_pane_tab, (pane, now), ()),
    ensures
        old(pane).tabs@.len() == 0 ==> final(pane).tabs@.len() == 1 && final(pane).tabs@[0].id@
            == "tab-1"@ && final(pane).tabs@[0].title == old(pane).title
            && final(pane).tabs@[0].command == old(pane).command && final(pane).tabs@[0].output
            == old(pane).output && final(pane).tabs@[0].created_at == now && opt_text(
            final(pane).active_tab,
        ) == Some("tab-1"@),
        old(pane).tabs@.len() > 0 ==> final(pane).tabs@ == old(pane).tabs@,
        old(pane).tabs@.len() > 0 && old(pane).active_tab is None ==> opt_text(
            final(pane).active_tab,
        ) == Some(old(pane).tabs@[0].id@),
        old(pane).tabs@.len() > 0 && (old(pane).active_tab matches Some(t) && tab_index(
            old(pane).tabs@,
            t@,
        ) is Some) ==> opt_text(final(pane).active_tab) == opt_text(old(pane).active_tab),
        old(pane).tabs@.len() > 0 && (old(pane).active_tab matches Some(t) && tab_index(
            old(pane).tabs@,
            t@,
        ) is None) ==> opt_text(final(pane).active_tab) == Some(old(pane).tabs@[0].id@),
        final(pane).title == old(pane).title && final(pane).status == old(pane).status,
{
}

/// A request for a pane goes to the run of its active tab.
pub proof fn requests_go_to_the_active_tab(panes: &Vec<Pane>, pane: &str, r: String, i: int)
    requires
        call_ensures(runtime_key_for, (panes, pane), r),
    ensures
        pane_index(panes@, pane@) is None ==> r@ == pane@,
        pane_index(panes@, pane@) == Some(i) && panes@[i].active_tab is None ==> r@ == pane@,
        pane_index(panes@, pane@) == Some(i) ==> (panes@[i].active_tab matches Some(t) ==> r@
            == pane@ + "::"@ + t@),
{
    pane_index_is_first(panes@, pane@);
}

/// The runs that go with a pane are its own and those of its tabs.
pub proof fn runs_go_with_their_pane(keys: &Vec<String>, pane: &str, r: Vec<String>)
    requires
        call_ensures(runtime_keys_of, (keys, pane), r),
    ensures
        texts(r@) == texts(keys@).filter(
            |key: Seq<char>| key == pane@ || begins(key, pane@ + "::"@),
        ),
{
    assert(texts(keys@).filter(|key: Seq<char>| key == pane@ || begins(key, pane@ + "::"@))
        == keys_of_pane(texts(keys@), pane@)) by {
        let f = |key: Seq<char>| key == pane@ || begins(key, pane@ + "::"@);
        let g = |key: Seq<char>| is_key_of(key, pane@);
        assert(f =~= g);
    }
}

/// Views that are given up are those of the panes that are named.
pub proof fn views_of_named_panes_are_given_up(panes: &mut Vec<Pane>, ids: &Vec<String>, i: int)
    requires
        call_ensures(unmark_views, (panes, ids), ()),
        0 <= i < old(panes)@.len(),
    ensures
        final(panes)@.len() == old(panes)@.len(),
        (exists|k: int| 0 <= k < ids@.len() && (#[trigger] ids@[k])@ == old(panes)@[i].id@)
            ==> final(panes)@[i] == (Pane { view_size: None, ..old(panes)@[i] }),
        !(exists|k: int| 0 <= k < ids@.len() && (#[trigger] ids@[k])@ == old(panes)@[i].id@)
            ==> final(panes)@[i] == old(panes)@[i],
{
}

/// What a look at the ports finds takes the place of what was found before: the ports that are new
/// are told as opened, and those that are gone as closed.
pub proof fn changes_of_ports_are_told(
    ports: &mut PortRegistry,
    next: std::collections::BTreeMap<u16, DetectedPort>,
    r: PortDiff,
    port: u16,
)
    requires
        call_ensures(PortRegistry::replace_detected, (ports, next), r),
    ensures
        final(ports).ports@ == next@,
        final(ports).forwards == old(ports).forwards,
        next@.contains_key(port) && !old(ports).ports@.contains_key(port) ==> r.opened@.contains(
            next@[port],
        ),
        old(ports).ports@.contains_key(port) && !next@.contains_key(port) ==> r.closed@.contains(
            old(ports).ports@[port],
        ),
        (forall|k: u16| next@.contains_key(k) ==> old(ports).ports@.contains_key(k))
            ==> r.opened@.len() == 0,
        (forall|k: u16| old(ports).ports@.contains_key(k) ==> next@.contains_key(k))
            ==> r.closed@.len() == 0,
{
    only_in(r.opened@, next@, old(ports).ports@, port);
    only_in(r.closed@, old(ports).ports@, next@, port);
}

proof fn only_in(
    list: Seq<DetectedPort>,
    a: Map<u16, DetectedPort>,
    b: Map<u16, DetectedPort>,
    port: u16,
)
    requires
        lists_only_in(list, a, b),
    ensures
        a.contains_key(port) && !b.contains_key(port) ==> list.contains(a[port]),
        (forall|k: u16| a.contains_key(k) ==> b.contains_key(k)) ==> list.len() == 0,
{
    let m = a.remove_keys(b.dom());
    let keys = choose|keys: Seq<u16>|
        #![trigger lists_values(list, keys, a)]
        is_key_list(keys, m) && lists_values(list, keys, a);
    if a.contains_key(port) && !b.contains_key(port) {
        assert(m.contains_key(port));
        assert(keys.contains(port));
        let i = choose|i: int| 0 <= i < keys.len() && keys[i] == port;
        assert(list[i] == a[port]);
    }
    if forall|k: u16| a.contains_key(k) ==> b.contains_key(k) {
        if list.len() > 0 {
            assert(keys.contains(keys[0]));
            assert(m.contains_key(keys[0]));
        }
    }
}

/// The ports of a workspace are shown one for one, with the process of each.
pub proof fn ports_are_shown_one_for_one(found: &[DetectedPort], r: Vec<ListeningPort>, i: int)
    requires
        call_ensures(to_listening_ports, (found,), r),
        0 <= i < found@.len(),
    ensures
        r@.len() == found@.len(),
        r@[i].port == found@[i].port && r@[i].host == found@[i].host,
        r@[i].process == found@[i].process && r@[i].pane == found@[i].pane,
        found@[i].pid is None ==> r@[i].pids@.len() == 0,
        found@[i].pid matches Some(pid) ==> r@[i].pids@ == seq![pid],
{
}

/// A terminal is brought to the modes of another by what enters its own screen, then the modes of
/// its input, then what hides the cursor.
pub proof fn modes_are_sent_in_order(screen: &vt100::Screen, r: Vec<u8>)
    requires
        call_ensures(mode_replay_of, (screen,), r),
    ensures
        !screen_alternate(*screen) && !screen_hides_cursor(*screen) ==> r@ == screen_input_modes(
            *screen,
        ),
        screen_alternate(*screen) && !screen_hides_cursor(*screen) ==> r@
            == enter_alternate_screen() + screen_input_modes(*screen),
        !screen_alternate(*screen) && screen_hides_cursor(*screen) ==> r@ == screen_input_modes(
            *screen,
        ) + hide_cursor_bytes(),
{
    let none = Seq::<u8>::empty();
    let modes = screen_input_modes(*screen);
    assert(none + modes =~= modes);
    assert(modes + none =~= modes);
    let enter = enter_alternate_screen();
    assert(enter + modes + none =~= enter + modes);
    assert(none + modes + hide_cursor_bytes() =~= modes
        + hide_cursor_bytes());
}

/// A screen with colours is its rows from the top, with line feeds between them.
pub proof fn screens_are_their_rows(screen: &vt100::Screen, r: String, i: int)
    requires
        call_ensures(screen_contents_ansi, (screen,), r),
        0 <= i < screen_size(*screen).0,
    ensures
        r@ == joined(styled_rows(*screen, screen_size(*screen).0 as int), "\n"@),
        styled_rows(*screen, screen_size(*screen).0 as int)[i] == styled_row(
            row_cells(*screen, i as u16),
        ),
        styled_rows(*screen, screen_size(*screen).0 as int).len() == screen_size(*screen).0,
{
}

/// The wheel sends arrow keys to a running program on its own screen that has asked for it.
pub proof fn wheels_send_arrows_on_own_screens(
    status: &PaneStatus,
    modes: &TerminalModeTracker,
    screen: &vt100::Screen,
    r: bool,
)
    requires
        call_ensures(alternate_scroll_active, (status, modes, screen), r),
    ensures
        r <==> *status == PaneStatus::Running && modes.alternate_scroll && screen_alternate(
            *screen,
        ),
{
}

/// A new run has a terminal of twenty-four rows and eighty columns, and nothing in it.
pub proof fn runs_begin_empty(generation: u64, pane: Pane, cap: usize, now: u64, r: PaneRuntime)
    requires
        call_ensures(new_runtime, (generation, pane, cap, now), r),
    ensures
        r.generation == generation && r.pane == pane && r.scrollback_cap == cap && r.started_at
            == now,
        r.size.rows == 24 && r.size.cols == 80,
        r.terminal == made(24, 80, 2_000),
        r.layout_size == r.size && r.view_override is None,
        r.output@.len() == 0 && r.pending@.len() == 0 && r.osc_tail@.len() == 0,
        r.output_generation == 0,
{
}

/// What is read of an earlier run of the pane changes nothing.
pub proof fn earlier_runs_are_not_heard(
    runtime: &mut PaneRuntime,
    generation: u64,
    bytes: &[u8],
    r: Option<Taken>,
)
    requires
        call_ensures(take_output, (runtime, generation, bytes), r),
    ensures
        old(runtime).generation != generation ==> r is None && *final(runtime) == *old(runtime),
        old(runtime).generation == generation ==> r is Some && final(runtime).output_generation
            != old(runtime).output_generation,
        r matches Some(taken) ==> (taken.events.progress is None ==> final(runtime).pane
            == old(runtime).pane),
        r matches Some(taken) ==> (taken.events.progress matches Some(p) ==> final(
            runtime).pane.progress == p),
{
}

/// A light copy of a pane has none of its texts, and all else.
pub proof fn light_copies_have_no_texts(pane: &Pane, r: Pane)
    requires
        call_ensures(light_copy, (pane,), r),
    ensures
        r.output@.len() == 0 && r.output_formatted@.len() == 0 && r.scrollback@.len() == 0
            && r.scrollback_formatted@.len() == 0,
        r.id == pane.id && r.title == pane.title && r.command == pane.command && r.status
            == pane.status && r.agent_status == pane.agent_status && r.exit_code == pane.exit_code,
        r.progress == pane.progress && r.notification_message == pane.notification_message
            && r.updated_at == pane.updated_at,
        r.tabs@ == pane.tabs@ && r.metadata@ == pane.metadata@,
{
}

/// Each change of the session has another number.
pub proof fn changes_are_numbered(daemon: &mut Daemon)
    requires
        call_ensures(touch, (daemon,), ()),
    ensures
        final(daemon).generation != old(daemon).generation,
        old(daemon).generation < u64::MAX ==> final(daemon).generation == old(daemon).generation
            + 1,
        final(daemon).session == old(daemon).session,
{
}

/// An event is the newest of the log, under the number behind the last one, and its message is
/// shortened. The log keeps five hundred events.
pub proof fn events_are_numbered(session: &mut Session, event: EventRecord)
    requires
        call_ensures(push_event, (session, event), ()),
    ensures
        ({
            let log = event_views(final(session).events@);
            &&& 0 < log.len() <= 500
            &&& log.last().kind == event.kind@ && log.last().pane == opt_text(event.pane)
            &&& old(session).next_event_id < u64::MAX ==> log.last().id
                == old(session).next_event_id + 1
            &&& event_views(old(session).events@).len() < 500 ==> log.drop_last() == event_views(
                old(session).events@,
            )
        }),
        final(session).panes == old(session).panes,
{
    let before = event_views(old(session).events@);
    let log = event_views(final(session).events@);
    if before.len() < 500 {
        assert(log.drop_last() =~= before);
    }
}

/// A note that is no news changes nothing; news are the newest of the feed, which keeps a hundred.
pub proof fn news_come_last(session: &mut Session, note: &Notification, recorded: bool)
    requires
        call_ensures(record_note, (session, note), recorded),
    ensures
        !recorded ==> *final(session) == *old(session),
        recorded ==> notes(final(session).notifications@).len() > 0 && notes(
            final(session).notifications@,
        ).last() == note@ && notes(final(session).notifications@).len() <= 100,
        recorded && notes(old(session).notifications@).len() < 100 ==> notes(
            final(session).notifications@,
        ).drop_last() == notes(old(session).notifications@),
        note.clear ==> !recorded,
        note.message@.len() == 0 ==> !recorded,
{
    let before = notes(old(session).notifications@);
    let after = notes(final(session).notifications@);
    if recorded && before.len() < 100 {
        assert(after.drop_last() =~= before);
    }
}

/// A pane that started is linked to the workspace that asked for it, if it is still there.
pub proof fn started_panes_are_linked(
    daemon: &mut Daemon,
    workspace: &str,
    pane: &str,
    found: bool,
    w: int,
)
    requires
        call_ensures(link_started, (daemon, workspace, pane), found),
    ensures
        !found ==> *final(daemon) == *old(daemon),
        found && workspace_index(
            old(daemon).session.workspaces@,
            workspace@,
        ) == Some(w) && 0 <= w < old(daemon).session.workspaces@.len() ==> final(
            daemon).session.workspaces@[w].panes@.last()@ == pane@ && opt_text(
            final(daemon).session.workspaces@[w].active_pane,
        ) == Some(pane@),
{
}

/// What was copied is kept with the pane that it comes from, and with whether it is from the
/// screen or the history.
pub proof fn copies_are_kept(
    daemon: &mut Daemon,
    id: &str,
    text: String,
    scrollback: bool,
    now: u64,
)
    requires
        call_ensures(keep_copied, (daemon, id, text, scrollback, now), ()),
    ensures
        final(daemon).session.clipboard matches Some(item) && item.text == text && opt_text(
            item.source_pane,
        ) == Some(id@) && item.copied_at == now && (scrollback ==> item.source@ == "scrollback"@)
            && (!scrollback ==> item.source@ == "screen"@),
        final(daemon).session.panes == old(daemon).session.panes,
{
}

/// A pane that is zoomed, or not there, has no view of its own.
pub proof fn zoomed_panes_have_no_view(
    daemon: &mut Daemon,
    pane: &str,
    view: PaneSize,
    r: Result<(), ViewError>,
)
    requires
        call_ensures(hold_view, (daemon, pane, view), r),
    ensures
        is_zoomed(old(daemon).session.workspaces@, pane@) ==> (r matches Err(ViewError::Zoomed(id))
            && id@ == pane@),
        !is_zoomed(old(daemon).session.workspaces@, pane@) && pane_index(
            old(daemon).session.panes@,
            pane@,
        ) is None ==> (r matches Err(ViewError::Unknown(id)) && id@ == pane@),
        r is Err ==> *final(daemon) == *old(daemon),
{
}

/// A pane that is cleared shows nothing any more; the others are left alone.
pub proof fn cleared_panes_are_forgotten(
    daemon: &mut Daemon,
    id: &str,
    wheel: bool,
    now: u64,
    found: bool,
    i: int,
    j: int,
)
    requires
        call_ensures(forget_shown, (daemon, id, wheel, now), found),
        pane_index(old(daemon).session.panes@, id@) == Some(i),
        0 <= j < old(daemon).session.panes@.len(),
        j != i,
    ensures
        found,
        final(daemon).session.panes@[i].output@.len() == 0,
        final(daemon).session.panes@[i].scrollback@.len() == 0,
        final(daemon).session.panes@[i].updated_at == now,
        final(daemon).session.panes@[i].title == old(daemon).session.panes@[i].title,
        final(daemon).session.panes@[j] == old(daemon).session.panes@[j],
{
    pane_index_is_first(old(daemon).session.panes@, id@);
    let after = final(daemon).session.panes@;
    assert(after[j] == old(daemon).session.panes@.update(i, after[i])[j]);
}

/// What is typed into a pane moves the status of its agent, and of no other.
pub proof fn typing_moves_one_pane(
    daemon: &mut Daemon,
    id: &str,
    agent: bool,
    now: u64,
    i: int,
    j: int,
)
    requires
        call_ensures(note_input, (daemon, id, agent, now), ()),
        pane_index(old(daemon).session.panes@, id@) == Some(i),
        0 <= j < old(daemon).session.panes@.len(),
        j != i,
    ensures
        agent || old(daemon).session.panes@[i].surface_kind == SurfaceKind::Agent ==> final(
            daemon).session.panes@[i].agent_status == AgentStatus::Busy && final(
            daemon).session.panes@[i].notification_message is None,
        !agent && old(daemon).session.panes@[i].surface_kind != SurfaceKind::Agent ==> final(
            daemon).session.panes@[i] == old(daemon).session.panes@[i],
        final(daemon).session.panes@[j] == old(daemon).session.panes@[j],
{
    pane_index_is_first(old(daemon).session.panes@, id@);
}

/// A plan for a workspace asks for it and then for a pane in it.
pub proof fn plans_ask_for_workspace_and_pane(
    plan: &WorkspacePlan,
    first: Request,
    id: String,
    second: Request,
)
    requires
        call_ensures(WorkspacePlan::workspace_request, (plan,), first),
        call_ensures(WorkspacePlan::pane_request, (*plan, id), second),
    ensures
        first == (Request::NewWorkspace { name: plan.name, cwd: plan.cwd }),
        second matches Request::NewPane { direction, command, title, workspace, surface_kind }
            && direction == plan.direction && command == plan.command && title == plan.title
            && workspace == Some(id) && surface_kind == plan.surface_kind,
{
}

/// Hooks are in order where they are installed, or where their agent is not there.
pub proof fn hooks_are_in_order(state: InstallState, r: bool)
    requires
        call_ensures(integration_ok, (state,), r),
    ensures
        state is Installed ==> r,
        state is NotDetected ==> r,
        !(state is Installed) && !(state is NotDetected) ==> !r,
{
}

/// There is one skill, and it is found by its name alone.
pub proof fn skills_are_found_by_name(
    name: &str,
    all: Vec<BuiltinSkill>,
    r: Result<BuiltinSkill, UnknownSkill>,
)
    requires
        call_ensures(builtin_skills, (), all),
        call_ensures(builtin_skill, (name,), r),
    ensures
        all@.len() == 1 && all@[0].name@ == "vmux-control"@,
        name@ == "vmux-control"@ ==> (r matches Ok(skill) && skill.name@ == name@
            && skill.description@ == all@[0].description@ && skill.markdown@ == all@[0].markdown@),
        name@ != "vmux-control"@ ==> (r matches Err(e) && e.name@ == name@),
{
}

/// A command for a page asks for what it names.
pub proof fn commands_on_pages_ask(
    url: String,
    text: String,
    n: usize,
    links: Result<Request, FieldError>,
    forms: Result<Request, FieldError>,
    snapshot: Result<Request, FieldError>,
    screenshot: Result<Request, FieldError>,
    evaluate: Result<Request, FieldError>,
    console: Result<Request, FieldError>,
    network: Result<Request, FieldError>,
)
    requires
        call_ensures(browser_request, (BrowserCommand::Links { url },), links),
        call_ensures(browser_request, (BrowserCommand::Forms { url },), forms),
        call_ensures(browser_request, (BrowserCommand::Snapshot { url },), snapshot),
        call_ensures(browser_request, (BrowserCommand::Screenshot { url },), screenshot),
        call_ensures(
            browser_request,
            (BrowserCommand::Evaluate { url, expression: text },),
            evaluate,
        ),
        call_ensures(browser_request, (BrowserCommand::Console { url },), console),
        call_ensures(browser_request, (BrowserCommand::Network { url },), network),
    ensures
        links == Ok::<Request, FieldError>(Request::UrlLinks { url }),
        forms == Ok::<Request, FieldError>(Request::UrlForms { url }),
        snapshot == Ok::<Request, FieldError>(Request::UrlSnapshot { url }),
        screenshot == snapshot,
        evaluate == Ok::<Request, FieldError>(Request::UrlEvaluate { url, expression: text }),
        console == Ok::<Request, FieldError>(Request::UrlConsole { url }),
        network == Ok::<Request, FieldError>(Request::UrlNetwork { url }),
{
}

/// A form is submitted with the fields that are named, all of which must be fields; filling in and
/// typing do the same, and clicking is opening a link.
pub proof fn forms_are_filled_in_and_submitted(
    url: String,
    index: usize,
    fields: Vec<String>,
    direction: SplitDirection,
    title: Option<String>,
    workspace: Option<String>,
    r: Result<Request, FieldError>,
    click: Result<Request, FieldError>,
)
    requires
        call_ensures(
            browser_request,
            (BrowserCommand::Submit { url, index, fields, direction, title, workspace },),
            r,
        ) || call_ensures(
            browser_request,
            (BrowserCommand::Fill { url, index, fields, direction, title, workspace },),
            r,
        ) || call_ensures(
            browser_request,
            (BrowserCommand::Type { url, index, fields, direction, title, workspace },),
            r,
        ),
        call_ensures(
            browser_request,
            (BrowserCommand::Click { url, index, direction, title, workspace },),
            click,
        ),
    ensures
        click == Ok::<Request, FieldError>(
            Request::OpenUrlLink { url, index, direction, title, workspace },
        ),
        (forall|i: int|
            0 <= i < fields@.len() ==> is_field((#[trigger] fields@[i])@)) ==> (
        r matches Ok(Request::SubmitForm { url: u, index: n, fields: f, direction: d, title: t, workspace: w })
            && u == url && n == index && d == direction && t == title && w == workspace
            && field_pairs(fields@, f@)),
        (exists|i: int|
            0 <= i < fields@.len() && !is_field((#[trigger] fields@[i])@))
            ==> r is Err,
{
    the_first_bad_field_is_told(fields@);
}

/// What is looked for in the answers of a run of checks.
pub proof fn checks_look_for_texts(stage: SmokeStage, sight: &SmokeSight, r: (bool, bool), i: int)
    requires
        call_ensures(smoke_look, (stage, sight), r),
    ensures
        stage is Snapshot && 0 <= i < sight.messages@.len() && sight.messages@[i]@
            == "smoke notification"@ ==> r.0,
        stage is Snapshot && sight.messages@.len() == 0 ==> !r.0,
        stage is Identify ==> (r.0 <==> opt_text(sight.task) == Some("smoke-agent"@)),
        stage is ReadScreen && sight.screen is None ==> !r.0,
        stage is Events && 0 <= i < sight.events@.len() && sight.events@[i].kind@
            == "notification"@ && sight.events@[i].message@ == "smoke notification"@ ==> r.0,
        stage is Events && sight.events@.len() == 0 ==> !r.0 && !r.1,
        !(stage is Events) ==> !r.1,
{
}

} // verus!

//! Starting, restoring and ending panes.
use crate::daemon::dispatch::{bumped, touch, Daemon};
use crate::daemon::emulator::{fed, feed, screen_of, shown};
use crate::daemon::live::PaneRuntime;
use crate::daemon::output::{flat, joined_output, push_bounded_output, trim_output, within_budget};
use crate::daemon::panes::{
    lists, listed, sync_active_pane_tab, sync_tab_from_runtime_pane, tabs_mirroring,
};
use crate::daemon::runtime::{active_key, key_tab, runtime_key_is_active_for_pane, runtime_key_tab};
use crate::daemon::screen::screen_text;
use crate::daemon::session::{logged, next_id, push_event};
use crate::daemon::status::{agent_status_name, status_name};
use crate::daemon::terminal::{ModeModel, TerminalModeScanState, TerminalModeTracker};
use crate::model::{
    clone_pane, event_views, find_pane, insert_pane, pane_index, same_pane, touch_agent_status,
    with_pane, AgentStatus, EventRecord, EventView, Pane, PaneStatus, Session,
};
use crate::text::chars::{opt_text, string_of, texts};
use crate::text::numbers::{signed_chars, signed_decimal};
use crate::text::utf8::{byte_len, tail_within};
use crate::shell::{shell_words_of, split_shell_words};
use vstd::prelude::*;
use vstd::utf8::encode_utf8;

verus! {

/// The status of the agent when its process has ended.
pub open spec fn exit_status(exit_code: Option<i32>) -> AgentStatus {
    if exit_code == Some(0i32) {
        AgentStatus::Done
    } else {
        AgentStatus::Error
    }
}

/// `after` is the running pane `before` once its process has ended. What its screen shows then
/// is kept.
pub open spec fn exited(
    before: PaneRuntime,
    after: PaneRuntime,
    exit_code: Option<i32>,
    cap: usize,
    now: u64,
) -> bool {
    &&& after == PaneRuntime {
        pane: after.pane,
        terminal_modes: after.terminal_modes,
        ..before
    }
    &&& after.terminal_modes@ == ModeModel {
        alternate_scroll: false,
        state: TerminalModeScanState::Ground,
        csi: Seq::empty(),
    }
    &&& after.pane == Pane {
        status: PaneStatus::Exited,
        exit_code,
        pid: None,
        progress: Some(100u8),
        notification_message: None,
        notification_color: None,
        alternate_scroll_mode: false,
        updated_at: now,
        output: after.pane.output,
        scrollback: after.pane.scrollback,
        ..before.pane.touched(exit_status(exit_code), true, now)
    }
    &&& after.pane.output@ == screen_text(shown(before.terminal))
    &&& after.pane.scrollback@ == tail_within(flat(texts(before.output@)), cap as int)
}

/// Notes that the process of a running pane has ended. Says whether it was this run's, which
/// `generation` tells; else nothing changes.
pub fn exit_runtime(
    runtime: &mut PaneRuntime,
    generation: u64,
    exit_code: Option<i32>,
    cap: usize,
    now: u64,
) -> (ended: bool)
    ensures
        ended == (old(runtime).generation == generation),
        !ended ==> *final(runtime) == *old(runtime),
        ended ==> exited(*old(runtime), *final(runtime), exit_code, cap, now),
        old(runtime).wf() ==> final(runtime).wf(),
{
    if runtime.generation != generation {
        return false;
    }
    let contents = screen_of(&runtime.terminal).contents();
    let status = if exit_code == Some(0) {
        AgentStatus::Done
    } else {
        AgentStatus::Error
    };
    let raw = joined_output(&runtime.output);
    runtime.pane.status = PaneStatus::Exited;
    runtime.pane.exit_code = exit_code;
    runtime.pane.pid = None;
    touch_agent_status(&mut runtime.pane, status, true, now);
    runtime.pane.progress = Some(100);
    runtime.pane.notification_message = None;
    runtime.pane.notification_color = None;
    runtime.terminal_modes = TerminalModeTracker::default();
    runtime.pane.alternate_scroll_mode = false;
    runtime.pane.updated_at = now;
    runtime.pane.output = contents;
    runtime.pane.scrollback = trim_output(raw, cap);
    true
}

/// `after` is what the session keeps of `pane` in the place of `before`: its tabs and
/// metadata stay those of `before`.
pub open spec fn replaces(before: Pane, after: Pane, pane: Pane) -> bool {
    &&& after == Pane {
        tabs: after.tabs,
        active_tab: before.active_tab,
        metadata: before.metadata,
        ..pane
    }
}

/// `after` is the pane `before` once the running pane with the key is taken in whole: the
/// pane itself where that is its active tab, or else the tab that the key names.
pub open spec fn run_taken(before: Pane, after: Pane, key: Seq<char>, run: Pane, now: u64) -> bool {
    if active_key(before) == key {
        &&& replaces(before, after, run)
        &&& after.tabs@ == match opt_text(before.active_tab) {
            Some(id) => tabs_mirroring(before.tabs@, id, run, now),
            None => before.tabs@,
        }
    } else {
        &&& after == Pane { tabs: after.tabs, ..before }
        &&& after.tabs@ == match key_tab(before.id@, key) {
            Some(tab) => tabs_mirroring(before.tabs@, tab, run, run.updated_at),
            None => before.tabs@,
        }
    }
}

/// Mirroring looks at nothing that the tabs themselves hold.
proof fn mirroring_ignores_tabs(
    tabs: Seq<crate::model::PaneTab>,
    id: Seq<char>,
    a: Pane,
    b: Pane,
    at: u64,
)
    requires
        a == (Pane { tabs: a.tabs, active_tab: a.active_tab, metadata: a.metadata, ..b }),
    ensures
        tabs_mirroring(tabs, id, a, at) == tabs_mirroring(tabs, id, b, at),
{
}

/// Takes a running pane whole into the pane of the session.
pub fn take_run(pane: &mut Pane, runtime_key: &str, run: &Pane, now: u64)
    ensures
        run_taken(*old(pane), *final(pane), runtime_key@, *run, now),
{
    if runtime_key_is_active_for_pane(pane, runtime_key) {
        let ghost before = *pane;
        let mut next = clone_pane(run);
        core::mem::swap(&mut next.tabs, &mut pane.tabs);
        core::mem::swap(&mut next.active_tab, &mut pane.active_tab);
        core::mem::swap(&mut next.metadata, &mut pane.metadata);
        proof {
            match opt_text(before.active_tab) {
                Some(id) => {
                    mirroring_ignores_tabs(before.tabs@, id, next, *run, now);
                },
                None => {},
            }
        }
        sync_active_pane_tab(&mut next, now);
        *pane = next;
    } else if let Some(tab) = runtime_key_tab(pane.id.as_str(), runtime_key) {
        let tab = tab.to_string();
        sync_tab_from_runtime_pane(pane, tab.as_str(), run);
    }
}

/// The event that the end of a pane leaves in the log.
pub open spec fn exit_event(pane: Seq<char>, exit_code: Option<i32>, now: u64) -> EventView {
    EventView {
        id: 0,
        time: now,
        kind: "pane-exit"@,
        pane: Some(pane),
        workspace: None,
        status: Some(status_name(exit_status(exit_code))),
        key: None,
        value: match exit_code {
            Some(code) => Some(signed_decimal(code as int)),
            None => None,
        },
        message: ""@,
    }
}

/// The panes once a running pane is taken in whole.
pub open spec fn panes_taken(
    before: Seq<Pane>,
    after: Seq<Pane>,
    id: Seq<char>,
    key: Seq<char>,
    run: Pane,
    now: u64,
) -> bool {
    match pane_index(before, id) {
        None => after == before,
        Some(i) => after.len() == before.len() && after == before.update(i, after[i]) && run_taken(
            before[i],
            after[i],
            key,
            run,
            now,
        ),
    }
}

/// `after` is the session `before` once the end of a running pane is taken in.
pub open spec fn end_noted(
    before: Session,
    after: Session,
    key: Seq<char>,
    id: Seq<char>,
    run: Pane,
    exit_code: Option<i32>,
    now: u64,
) -> bool {
    &&& panes_taken(before.panes@, after.panes@, id, key, run, now)
    &&& event_views(after.events@) == logged(
        event_views(before.events@),
        before.next_event_id,
        exit_event(id, exit_code, now),
    )
    &&& after == Session {
        panes: after.panes,
        events: after.events,
        next_event_id: next_id(before.next_event_id),
        ..before
    }
}

fn note_end(
    session: &mut Session,
    runtime_key: &str,
    pane_id: &str,
    run: &Pane,
    exit_code: Option<i32>,
    now: u64,
)
    ensures
        end_noted(
            *old(session),
            *final(session),
            runtime_key@,
            pane_id@,
            *run,
            exit_code,
            now,
        ),
{
    if let Some(i) = find_pane(&session.panes, pane_id) {
        take_run(&mut session.panes[i], runtime_key, run, now);
    }
    let status = if exit_code == Some(0) {
        AgentStatus::Done
    } else {
        AgentStatus::Error
    };
    let value = match exit_code {
        Some(code) => {
            let digits = signed_chars(code as i64);
            Some(string_of(digits.as_slice()))
        },
        None => None,
    };
    let event = EventRecord {
        id: 0,
        time: now,
        kind: "pane-exit".to_string(),
        pane: Some(pane_id.to_string()),
        workspace: None,
        status: Some(agent_status_name(&status).to_string()),
        key: None,
        value,
        message: "".to_string(),
    };
    push_event(session, event);
}

/// Takes the end of a running pane into the session, and counts the change. `run` is the pane
/// as it ended: none where the process was not that of a run that is left, and then nothing
/// changes. Says whether there is something to save.
pub fn mark_exited(
    daemon: &mut Daemon,
    runtime_key: &str,
    pane_id: &str,
    run: Option<&Pane>,
    exit_code: Option<i32>,
    now: u64,
) -> (should_save: bool)
    ensures
        should_save == run is Some,
        run is None ==> *final(daemon) == *old(daemon),
        run matches Some(pane) ==> end_noted(
            old(daemon).session,
            final(daemon).session,
            runtime_key@,
            pane_id@,
            *pane,
            exit_code,
            now,
        ) && *final(daemon) == (Daemon {
            session: final(daemon).session,
            generation: bumped(old(daemon).generation),
            ..*old(daemon)
        }),
{
    match run {
        None => false,
        Some(pane) => {
            note_end(&mut daemon.session, runtime_key, pane_id, pane, exit_code, now);
            touch(daemon);
            true
        },
    }
}

/// The words that a process is started with: those of the command, the whole command where
/// it cannot be split, the shell where there are none.
pub open spec fn start_words(
    words: Option<Seq<Seq<char>>>,
    command: Seq<char>,
    shell: Seq<char>,
) -> Seq<Seq<char>> {
    match words {
        None => seq![command],
        Some(w) => if w.len() == 0 {
            seq![shell]
        } else {
            w
        },
    }
}

/// The words that a process is started with, where the command comes apart into `words`.
pub fn argv_from(words: Option<Vec<String>>, command: &str, default_shell: &str) -> (r: Vec<String>)
    ensures
        texts(r@) == start_words(
            match words {
                Some(w) => Some(texts(w@)),
                None => None,
            },
            command@,
            default_shell@,
        ),
        r@.len() > 0,
{
    match words {
        None => {
            let mut r: Vec<String> = Vec::new();
            r.push(command.to_string());
            assert(texts(r@) =~= seq![command@]);
            r
        },
        Some(w) => {
            if w.len() == 0 {
                let mut r: Vec<String> = Vec::new();
                r.push(default_shell.to_string());
                assert(texts(r@) =~= seq![default_shell@]);
                r
            } else {
                w
            }
        },
    }
}

/// The words that a pane's process is started with.
pub fn pane_argv(command: &str, default_shell: &str) -> (r: Vec<String>)
    ensures
        texts(r@) == start_words(shell_words_of(command@), command@, default_shell@),
        r@.len() > 0,
{
    let words = split_shell_words(command);
    argv_from(words, command, default_shell)
}

/// Where a daemon keeps its files.
pub struct DaemonPaths {
    pub socket: String,
    pub pid: String,
    pub log: String,
    pub state: String,
}

/// The names and values that a pane's process finds in its environment.
pub open spec fn pane_env_pairs(
    session: Seq<char>,
    workspace: Seq<char>,
    pane: Seq<char>,
    paths: DaemonPaths,
) -> Seq<(Seq<char>, Seq<char>)> {
    seq![
        ("VMUX_SESSION"@, session),
        ("VMUX_WORKSPACE_ID"@, workspace),
        ("VMUX_PANE_ID"@, pane),
        ("VMUX_SURFACE_ID"@, pane),
        ("VMUX_SOCKET_PATH"@, paths.socket@),
        ("VMUX_PID_PATH"@, paths.pid@),
        ("VMUX_LOG_PATH"@, paths.log@),
        ("VMUX_STATE_PATH"@, paths.state@),
        ("LMUX_SESSION"@, session),
        ("LMUX_WORKSPACE_ID"@, workspace),
        ("LMUX_PANE_ID"@, pane),
        ("LMUX_SURFACE_ID"@, pane),
        ("LMUX_SOCKET_PATH"@, paths.socket@),
    ]
}

/// What a list of pairs says.
pub open spec fn pair_texts(v: Seq<(String, String)>) -> Seq<(Seq<char>, Seq<char>)> {
    Seq::new(v.len(), |i: int| (v[i].0@, v[i].1@))
}

fn push_pair(out: &mut Vec<(String, String)>, name: &str, value: &str)
    ensures
        pair_texts(final(out)@) == pair_texts(old(out)@).push((name@, value@)),
{
    let ghost before = out@;
    out.push((name.to_string(), value.to_string()));
    assert(pair_texts(out@) =~= pair_texts(before).push((name@, value@)));
}

/// The names and values that a pane's process finds in its environment.
pub fn pane_env(session: &str, workspace: &str, pane: &str, paths: &DaemonPaths) -> (r: Vec<
    (String, String),
>)
    ensures
        pair_texts(r@) == pane_env_pairs(session@, workspace@, pane@, *paths),
{
    let mut out: Vec<(String, String)> = Vec::new();
    push_pair(&mut out, "VMUX_SESSION", session);
    push_pair(&mut out, "VMUX_WORKSPACE_ID", workspace);
    push_pair(&mut out, "VMUX_PANE_ID", pane);
    push_pair(&mut out, "VMUX_SURFACE_ID", pane);
    push_pair(&mut out, "VMUX_SOCKET_PATH", paths.socket.as_str());
    push_pair(&mut out, "VMUX_PID_PATH", paths.pid.as_str());
    push_pair(&mut out, "VMUX_LOG_PATH", paths.log.as_str());
    push_pair(&mut out, "VMUX_STATE_PATH", paths.state.as_str());
    push_pair(&mut out, "LMUX_SESSION", session);
    push_pair(&mut out, "LMUX_WORKSPACE_ID", workspace);
    push_pair(&mut out, "LMUX_PANE_ID", pane);
    push_pair(&mut out, "LMUX_SURFACE_ID", pane);
    push_pair(&mut out, "LMUX_SOCKET_PATH", paths.socket.as_str());
    assert(pair_texts(out@) =~= pane_env_pairs(session@, workspace@, pane@, *paths));
    out
}

/// `after` is the pane `before` as its process starts.
pub open spec fn started(
    before: Pane,
    after: Pane,
    pid: Option<u32>,
    inferred: AgentStatus,
    now: u64,
) -> bool {
    &&& after == Pane {
        status: PaneStatus::Running,
        exit_code: None,
        pid,
        progress: None,
        output: after.output,
        scrollback: after.scrollback,
        scrollback_formatted: after.scrollback_formatted,
        alternate_scroll_mode: false,
        updated_at: now,
        ..before.touched(inferred, false, now)
    }
    &&& after.output@.len() == 0
    &&& after.scrollback@.len() == 0
    &&& after.scrollback_formatted@.len() == 0
}

/// Readies a pane whose process has started. `inferred` is the status of its agent before
/// it has said anything.
pub fn reset_for_start(pane: &mut Pane, pid: Option<u32>, inferred: AgentStatus, now: u64)
    ensures
        started(*old(pane), *final(pane), pid, inferred, now),
{
    pane.status = PaneStatus::Running;
    touch_agent_status(pane, inferred, false, now);
    pane.exit_code = None;
    pane.pid = pid;
    pane.progress = None;
    pane.output = String::new();
    pane.scrollback = String::new();
    pane.scrollback_formatted = String::new();
    pane.alternate_scroll_mode = false;
    pane.updated_at = now;
}

/// The panes once the record of a started pane is among them: where there was one before, its
/// tabs and metadata stay.
pub open spec fn published(before: Seq<Pane>, after: Seq<Pane>, pane: Pane) -> bool {
    match pane_index(before, pane.id@) {
        Some(i) => {
            &&& after.len() == before.len()
            &&& after == before.update(i, after[i])
            &&& replaces(before[i], after[i], pane)
            &&& after[i].tabs == before[i].tabs
        },
        None => exists|copy: Pane| same_pane(copy, pane) && after == #[trigger] with_pane(before, copy),
    }
}

/// Puts the record of a started pane into the session.
pub fn publish_pane(session: &mut Session, pane: &Pane)
    requires
        old(session).panes@.len() < usize::MAX,
    ensures
        published(old(session).panes@, final(session).panes@, *pane),
        *final(session) == (Session { panes: final(session).panes, ..*old(session) }),
{
    let mut next = clone_pane(pane);
    match find_pane(&session.panes, pane.id.as_str()) {
        Some(i) => {
            let existing = &mut session.panes[i];
            core::mem::swap(&mut next.tabs, &mut existing.tabs);
            core::mem::swap(&mut next.active_tab, &mut existing.active_tab);
            core::mem::swap(&mut next.metadata, &mut existing.metadata);
            *existing = next;
        },
        None => {
            insert_pane(&mut session.panes, next);
        },
    }
}

/// A pane as it is when a session has been read back: its process is gone.
pub open spec fn read_back(pane: Pane) -> Pane {
    Pane {
        status: if pane.status == PaneStatus::Exited {
            PaneStatus::Exited
        } else {
            PaneStatus::Restored
        },
        pid: if pane.status == PaneStatus::Exited {
            pane.pid
        } else {
            None
        },
        view_size: None,
        alternate_scroll_mode: false,
        ..pane
    }
}

/// Brings the panes of a session that has been read back to the state of a session without
/// processes.
pub fn mark_restored(panes: &mut Vec<Pane>)
    ensures
        final(panes)@ == old(panes)@.map_values(|p: Pane| read_back(p)),
{
    let ghost all = panes@;
    let mut i: usize = 0;
    while i < panes.len()
        invariant
            i <= panes.len(),
            panes@.len() == all.len(),
            forall|k: int| 0 <= k < i ==> #[trigger] panes@[k] == read_back(all[k]),
            forall|k: int| i <= k < all.len() ==> #[trigger] panes@[k] == all[k],
        decreases panes.len() - i,
    {
        let pane = &mut panes[i];
        if pane.status != PaneStatus::Exited {
            pane.status = PaneStatus::Restored;
            pane.pid = None;
        }
        pane.view_size = None;
        pane.alternate_scroll_mode = false;
        i += 1;
    }
    assert(panes@ =~= all.map_values(|p: Pane| read_back(p)));
}

/// Reading a session back twice is reading it back once.
pub proof fn read_back_twice_is_once(pane: Pane)
    ensures
        read_back(read_back(pane)) == read_back(pane),
{
}

/// The panes whose ids are listed.
pub open spec fn listed_panes(panes: Seq<Pane>, ids: Seq<String>) -> Seq<Pane>
    decreases panes.len(),
{
    if panes.len() == 0 {
        Seq::empty()
    } else if lists(ids, panes.last().id@) {
        listed_panes(panes.drop_last(), ids).push(panes.last())
    } else {
        listed_panes(panes.drop_last(), ids)
    }
}

/// The ids of the panes that are not listed.
pub open spec fn unlisted_ids(panes: Seq<Pane>, ids: Seq<String>) -> Seq<Seq<char>>
    decreases panes.len(),
{
    if panes.len() == 0 {
        Seq::empty()
    } else if lists(ids, panes.last().id@) {
        unlisted_ids(panes.drop_last(), ids)
    } else {
        unlisted_ids(panes.drop_last(), ids).push(panes.last().id@)
    }
}

/// Drops the panes that no tab shows. `referenced` lists the panes of all tabs. Returns the
/// ids of those that went.
pub fn reap_orphan_panes(session: &mut Session, referenced: &Vec<String>) -> (removed: Vec<String>)
    ensures
        final(session).panes@ == listed_panes(old(session).panes@, referenced@),
        texts(removed@) == unlisted_ids(old(session).panes@, referenced@),
        *final(session) == (Session { panes: final(session).panes, ..*old(session) }),
{
    let ghost all = session.panes@;
    let ghost mut seen: int = 0;
    let mut removed: Vec<String> = Vec::new();
    let mut i: usize = 0;
    let ghost base = *session;
    assert(all.skip(0) =~= all);
    assert(texts(removed@) =~= Seq::empty());
    while i < session.panes.len()
        invariant
            i <= session.panes.len(),
            0 <= seen <= all.len(),
            i == listed_panes(all.take(seen), referenced@).len(),
            session.panes@ == listed_panes(all.take(seen), referenced@) + all.skip(seen),
            texts(removed@) == unlisted_ids(all.take(seen), referenced@),
            *session == (Session { panes: session.panes, ..base }),
        decreases all.len() - seen,
    {
        let ghost kept = listed_panes(all.take(seen), referenced@);
        assert(session.panes@[i as int] == all.skip(seen)[0]);
        assert(all.take(seen + 1).drop_last() =~= all.take(seen));
        if listed(referenced, session.panes[i].id.as_str()) {
            i += 1;
            assert(session.panes@ =~= kept.push(all[seen]) + all.skip(seen + 1));
        } else {
            let gone = session.panes.remove(i);
            let ghost before = removed@;
            removed.push(gone.id);
            assert(texts(removed@) =~= texts(before).push(all[seen].id@));
            assert(session.panes@ =~= kept + all.skip(seen + 1));
        }
        proof {
            seen = seen + 1;
        }
    }
    assert(all.take(seen) =~= all);
    assert(session.panes@ =~= listed_panes(all, referenced@));
    removed
}

/// After orphans are gone, every pane is on a tab.
pub proof fn no_orphans_left(panes: Seq<Pane>, ids: Seq<String>)
    ensures
        forall|i: int|
            0 <= i < listed_panes(panes, ids).len() ==> lists(
                ids,
                (#[trigger] listed_panes(panes, ids)[i]).id@,
            ),
    decreases panes.len(),
{
    if panes.len() > 0 {
        no_orphans_left(panes.drop_last(), ids);
    }
}

/// What the history of a restored pane is seeded with: its scrollback, or else what it
/// showed.
pub fn restore_seed(pane: &Pane) -> (r: String)
    ensures
        r@ == if pane.scrollback@.len() > 0 {
            pane.scrollback@
        } else {
            pane.output@
        },
{
    if !pane.scrollback.as_str().is_empty() {
        pane.scrollback.clone()
    } else {
        pane.output.clone()
    }
}

/// Gives a running pane the history it had before its session was restored, and shows it on
/// its terminal.
pub fn seed_runtime(runtime: &mut PaneRuntime, seed: String, scrollback_formatted: String)
    requires
        old(runtime).wf(),
        old(runtime).output@.len() < usize::MAX,
        old(runtime).output_bytes + byte_len(seed@) <= usize::MAX,
    ensures
        final(runtime).wf(),
        seed@.len() == 0 ==> *final(runtime) == *old(runtime),
        seed@.len() > 0 ==> {
            &&& texts(final(runtime).output@) == within_budget(
                texts(old(runtime).output@).push(seed@),
                old(runtime).scrollback_cap as int,
            )
            &&& final(runtime).terminal == fed(old(runtime).terminal, encode_utf8(seed@))
            &&& final(runtime).pane == (Pane {
                output: seed,
                scrollback: seed,
                scrollback_formatted,
                ..old(runtime).pane
            })
            &&& *final(runtime) == (PaneRuntime {
                output: final(runtime).output,
                output_bytes: final(runtime).output_bytes,
                terminal: final(runtime).terminal,
                pane: final(runtime).pane,
                ..*old(runtime)
            })
        },
{
    if seed.as_str().is_empty() {
        return;
    }
    push_bounded_output(
        &mut runtime.output,
        &mut runtime.output_bytes,
        seed.clone(),
        runtime.scrollback_cap,
    );
    feed(&mut runtime.terminal, seed.as_str().as_bytes());
    runtime.pane.output = seed.clone();
    runtime.pane.scrollback = seed;
    runtime.pane.scrollback_formatted = scrollback_formatted;
}

/// Puts the record of a restored pane into the session, unless its process has ended in the
/// meantime.
pub fn record_restored(session: &mut Session, pane: Pane)
    ensures
        final(session).panes@ == match pane_index(old(session).panes@, pane.id@) {
            Some(i) => if old(session).panes@[i].status == PaneStatus::Running {
                old(session).panes@.update(i, pane)
            } else {
                old(session).panes@
            },
            None => old(session).panes@,
        },
        *final(session) == (Session { panes: final(session).panes, ..*old(session) }),
{
    if let Some(i) = find_pane(&session.panes, pane.id.as_str()) {
        if session.panes[i].status == PaneStatus::Running {
            session.panes.set(i, pane);
        }
    }
}

} // verus!

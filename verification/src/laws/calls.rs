//! What single calls give for what they are given.
use crate::browser::network::{fetched_body, FetchError};
use crate::browser::url::terminal_browsers;
use crate::cli::commands::{
    metadata_command, surface_kind_arg, tab_command, view_size_request, MetadataCommand,
    SurfaceKindArg, TabCommand, TabPlan, ViewSizeError,
};
use crate::cli::hooks::{hook_source_line, json_text_field, workspace_id_from_value, NoWorkspaceId};
use crate::cli::remote::WorkspacePlan;
use crate::cli::run::{follow_interval, image_name, run_request, verdict};
use crate::cli::select::{
    team_plan, validate_move_pane_workspace_args, MoveArgsError, MovePaneWorkspaceTarget,
};
use crate::cli::smoke::{attach_rendered, judged, smoke_start, SmokeRun, SmokeStage, SmokeVerdict};
use crate::cli::texts::next_tail_start;
use crate::daemon::capture::{
    copy_stored, read_stored, restart_command, restart_refused, search_pane, ScreenReading,
    SearchResult,
};
use crate::daemon::handlers::{
    claim_pane_sizes, clear_view_size, copy_source, expire_view, paste_data, set_clipboard,
    wait_step, WaitState,
};
use crate::daemon::lifecycle::{argv_from, restore_seed};
use crate::daemon::live::PaneRuntime;
use crate::daemon::panes::{
    normalize_metadata_key, normalize_pane_title, normalize_required_pane_title,
    normalize_tab_command, KeyError, TitleError,
};
use crate::daemon::places::{normalize_cwd, CwdError};
use crate::daemon::plans::{branch_name, meta_target, over_limit, pid_of, MetaTarget};
use crate::daemon::runtime::legacy_runtime_key;
use crate::daemon::snapshot::{depth_for, Depth};
use crate::daemon::sockets::process_name;
use crate::daemon::startup::{
    is_running, serve_foreground, stale_files, start_outcome, stop_plan, ServeStep, StaleFiles,
    StartOutcome, StopPlan,
};
use crate::daemon::status::mark_busy_by_input;
use crate::daemon::terminal::{alternate_scroll_on, TerminalModeTracker};
use crate::daemon::view_size::{clamp_lease_ms, lease_index, upsert_override, ViewOverride};
use crate::daemon::workspaces::{rename_workspace, set_workspace_cwd, set_workspace_pinned};
use crate::model::{
    AgentStatus, Pane, PaneSize, PaneStatus, Session, SplitDirection, SurfaceKind, Workspace,
};
use crate::protocol::Request;
use crate::shell::shell_word;
use crate::text::chars::{is_blank, is_white, opt_text, texts, trimmed};
use crate::text::numbers::decimal;
use crate::text::utf8::tail_within;
use vstd::prelude::*;

verus! {

/// Git names a branch unless it prints nothing, or only `HEAD`.
pub proof fn branches_have_names(stdout: &str, r: Option<String>)
    requires
        call_ensures(branch_name, (stdout,), r),
    ensures
        trimmed(stdout@).len() == 0 || trimmed(stdout@) == seq!['H', 'E', 'A', 'D'] ==> r is None,
        trimmed(stdout@).len() > 0 && trimmed(stdout@) != seq!['H', 'E', 'A', 'D'] ==> (
        r matches Some(name) && name@ == trimmed(stdout@)),
{
    reveal_strlit("HEAD");
    assert("HEAD"@ =~= seq!['H', 'E', 'A', 'D']);
}

/// A request is cut off where its bytes are used up before its line ends.
pub proof fn requests_are_cut_off(left: u64, line: &str, r: bool)
    requires
        call_ensures(over_limit, (left, line), r),
    ensures
        left > 0 ==> !r,
        line@.len() > 0 && line@.last() == '\n' ==> !r,
        left == 0 && line@.len() == 0 ==> r,
        left == 0 && line@.len() > 0 && line@.last() != '\n' ==> r,
{
}

/// What is copied of a pane that does not run is what it showed last, or what is kept of its
/// history.
pub proof fn stored_panes_are_copied(pane: &Pane, r: String, s: String)
    requires
        call_ensures(copy_stored, (pane, false, None::<usize>), r),
        call_ensures(copy_stored, (pane, true, None::<usize>), s),
    ensures
        r@ == pane.output@,
        s@ == tail_within(pane.scrollback@, 16_000),
{
}

/// What is read of a pane that does not run is the end of what it showed: sixteen thousand bytes
/// of it, and as many more as are asked for. It has no size and no rows above.
pub proof fn stored_panes_are_read(pane: &Pane, more: bool, limit: usize, r: ScreenReading)
    requires
        call_ensures(read_stored, (pane, more, Some(limit)), r),
        limit <= 1_000_000,
    ensures
        r.screen@ == tail_within(pane.output@, 16_000),
        r.live is None && r.history is None,
        !more ==> r.scrollback is None,
        more ==> (r.scrollback matches Some(text) && text@ == tail_within(
            pane.output@,
            limit as int,
        )),
{
}

/// An empty search is none.
pub proof fn empty_searches_are_none(
    screen: &str,
    history: &str,
    query: &str,
    r: Option<SearchResult>,
)
    requires
        call_ensures(search_pane, (screen, history, query), r),
    ensures
        query@.len() == 0 ==> r is None,
        query@.len() > 0 ==> r is Some,
{
}

/// A pane that is started again starts what is asked for, the shell where that is blank, and what
/// it ran before where nothing is asked for.
pub proof fn panes_start_again(asked: Option<String>, before: &str, shell: &str, r: String)
    requires
        call_ensures(restart_command, (asked, before, shell), r),
    ensures
        asked is None ==> r@ == before@,
        asked matches Some(c) ==> !is_blank(c@) ==> r@ == c@,
        asked matches Some(c) ==> is_blank(c@) ==> r@ == shell@,
{
}

/// A command can be given for one pane only.
pub proof fn one_pane_takes_a_command(space: bool, all: bool, command: bool, r: bool)
    requires
        call_ensures(restart_refused, (space, all, command), r),
    ensures
        !command ==> !r,
        !space && !all ==> !r,
        command && space ==> r,
        command && all ==> r,
{
}

/// What is copied says from where.
pub proof fn copies_say_from_where(r: String, s: String)
    requires
        call_ensures(copy_source, (true,), r),
        call_ensures(copy_source, (false,), s),
    ensures
        r@ == "scrollback"@,
        s@ == "screen"@,
{
}

/// What was copied last is what is pasted, with a line feed where the line is to be entered.
pub proof fn copied_text_is_pasted(
    session: &mut Session,
    text: String,
    from: Option<String>,
    source: String,
    now: u64,
    after: &Session,
    plain: Option<String>,
    entered: Option<String>,
)
    requires
        call_ensures(set_clipboard, (session, text, from, source, now), ()),
        *after == *final(session),
        call_ensures(paste_data, (after, false), plain),
        call_ensures(paste_data, (after, true), entered),
    ensures
        opt_text(plain) == Some(text@),
        opt_text(entered) == Some(text@.push('\n')),
        after.clipboard matches Some(item) && item.source_pane == from && item.source == source
            && item.copied_at == now,
        after.panes == old(session).panes && after.workspaces == old(session).workspaces,
{
}

/// Where nothing was copied nothing is pasted.
pub proof fn nothing_copied_nothing_pasted(session: &Session, enter: bool, r: Option<String>)
    requires
        call_ensures(paste_data, (session, enter), r),
    ensures
        session.clipboard is None ==> r is None,
        session.clipboard is Some ==> r is Some,
{
}

/// The sizes of panes follow one client: the first that names itself, until another takes control.
/// A client that does not name itself may set them at any time.
pub proof fn sizes_follow_one_client(
    owner: &mut Option<String>,
    client: Option<&str>,
    take: bool,
    r: bool,
)
    requires
        call_ensures(claim_pane_sizes, (owner, client, take), r),
    ensures
        client is None ==> r && opt_text(*final(owner)) == opt_text(*old(owner)),
        client matches Some(c) ==> take || *old(owner) is None ==> r && opt_text(*final(owner))
            == Some(c@),
        client matches Some(c) ==> !take && *old(owner) is Some ==> opt_text(*final(owner))
            == opt_text(*old(owner)) && (r <==> opt_text(*old(owner)) == Some(c@)),
{
}

/// A size that a viewer asked for lasts as long as its lease; after it the pane has the size of
/// the layout again.
pub proof fn leases_end(runtime: &mut PaneRuntime, now: u64, r: Option<PaneSize>)
    requires
        call_ensures(expire_view, (runtime, now), r),
    ensures
        old(runtime).view_override is None ==> r is None,
        old(runtime).view_override matches Some(v) ==> now < v.expires_at ==> r is None
            && final(runtime).view_override == old(runtime).view_override,
        old(runtime).view_override matches Some(v) ==> now >= v.expires_at ==> r == Some(
            old(runtime).layout_size,
        ) && final(runtime).view_override is None && final(runtime).pane.view_size is None,
{
}

/// A size that is given up is that of the layout again.
pub proof fn sizes_are_given_up(runtime: &mut PaneRuntime, next: PaneSize)
    requires
        call_ensures(clear_view_size, (runtime,), next),
    ensures
        next == old(runtime).layout_size,
        final(runtime).view_override is None,
        final(runtime).pane.view_size is None,
        final(runtime).pane.title == old(runtime).pane.title,
{
}

/// A lease lasts half a second at least and a minute at most.
pub proof fn leases_are_bounded(ms: u64, r: u64)
    requires
        call_ensures(clamp_lease_ms, (ms,), r),
    ensures
        500 <= r <= 60_000,
        500 <= ms <= 60_000 ==> r == ms,
        ms < 500 ==> r == 500,
        ms > 60_000 ==> r == 60_000,
{
}

/// A viewer has one lease: a new one takes the place of the old, and those of other viewers stay.
/// A viewer without a name puts its own in place of all.
pub proof fn viewers_have_one_lease(
    overrides: &mut Vec<ViewOverride>,
    viewer: String,
    size: PaneSize,
    lease: u64,
    now: u64,
    j: int,
)
    requires
        call_ensures(upsert_override, (overrides, viewer, size, lease, now), ()),
    ensures
        exists|i: int|
            0 <= i < final(overrides)@.len() && (#[trigger] final(overrides)@[i]).viewer_id@
                == viewer@ && final(overrides)@[i].size == size && final(overrides)@[i].expires_at
                == now + lease,
        viewer@.len() == 0 ==> final(overrides)@.len() == 1,
        viewer@.len() > 0 && 0 <= j < old(overrides)@.len() && old(overrides)@[j].viewer_id@
            != viewer@ ==> final(overrides)@[j] == old(overrides)@[j],
{
    lease_place(old(overrides)@, viewer@);
    let after = final(overrides)@;
    if viewer@.len() == 0 {
        assert(after[0].viewer_id@ == viewer@);
    } else {
        match lease_index(old(overrides)@, viewer@) {
            Some(i) => {
                assert(after[i].viewer_id@ == viewer@);
            },
            None => {
                assert(after[after.len() - 1].viewer_id@ == viewer@);
                if 0 <= j < old(overrides)@.len() {
                    assert(after.drop_last()[j] == after[j]);
                }
            },
        }
    }
}

proof fn lease_place(overrides: Seq<ViewOverride>, viewer: Seq<char>)
    ensures
        lease_index(overrides, viewer) matches Some(i) ==> 0 <= i
            < overrides.len() && overrides[i].viewer_id@ == viewer,
    decreases overrides.len(),
{
    if overrides.len() > 0 && overrides[0].viewer_id@ != viewer {
        lease_place(overrides.drop_first(), viewer);
    }
}

/// A wait is over once all panes have exited, whatever the time; else it looks again within a
/// fifth of a second, or when its time is up if that is sooner.
pub proof fn waits_end(statuses: &Vec<PaneStatus>, limit: Option<u64>, elapsed: u64, r: WaitState)
    requires
        call_ensures(wait_step, (statuses, limit, elapsed), r),
    ensures
        (forall|i: int|
            0 <= i < statuses@.len() ==> #[trigger] statuses@[i] == PaneStatus::Exited) <==> r
            == WaitState::Over,
        r == WaitState::TimedOut ==> (limit matches Some(t) && elapsed >= t),
        r != WaitState::Over && (limit matches Some(t) && elapsed >= t) ==> r
            == WaitState::TimedOut,
        r matches WaitState::Again(ms) ==> ms <= 200 && (limit matches Some(t) ==> elapsed + ms
            <= t) && (limit is None ==> ms == 200) && (limit matches Some(t) ==> t - elapsed >= 200
            ==> ms == 200) && (limit matches Some(t) ==> t - elapsed < 200 ==> elapsed + ms == t),
{
}

/// A pane starts the words of its command; the command itself where it cannot be split, and the
/// shell where it has no words.
pub proof fn panes_start_words(
    words: Option<Vec<String>>,
    command: &str,
    shell: &str,
    r: Vec<String>,
)
    requires
        call_ensures(argv_from, (words, command, shell), r),
    ensures
        words is None ==> texts(r@) == seq![command@],
        words matches Some(w) ==> w@.len() == 0 ==> texts(r@) == seq![shell@],
        words matches Some(w) ==> w@.len() > 0 ==> texts(r@) == texts(w@),
{
}

/// A pane that runs again begins with its history, or else with what it showed.
pub proof fn panes_begin_with_their_history(pane: &Pane, r: String)
    requires
        call_ensures(restore_seed, (pane,), r),
    ensures
        pane.scrollback@.len() > 0 ==> r@ == pane.scrollback@,
        pane.scrollback@.len() == 0 ==> r@ == pane.output@,
{
}

/// A command that is blank is the shell.
pub proof fn blank_commands_start_the_shell(command: String, shell: &str, r: String)
    requires
        call_ensures(normalize_tab_command, (command, shell), r),
    ensures
        is_blank(command@) ==> r@ == shell@,
        !is_blank(command@) ==> r@ == command@,
{
}

/// A key for what is noted of a pane is a word; the white space round it does not count.
pub proof fn keys_are_words(key: &str, r: Result<String, KeyError>, i: int)
    requires
        call_ensures(normalize_metadata_key, (key,), r),
    ensures
        trimmed(key@).len() == 0 ==> r == Err::<String, KeyError>(KeyError::Empty),
        0 <= i < trimmed(key@).len() && is_white(trimmed(key@)[i]) ==> r == Err::<
            String,
            KeyError,
        >(KeyError::WhiteSpace),
        trimmed(key@).len() > 0 && (forall|k: int|
            0 <= k < trimmed(key@).len() ==> !is_white(#[trigger] trimmed(key@)[k])) ==> (
        r matches Ok(got) && got@ == trimmed(key@)),
{
    if let Err(e) = r {
        match e {
            KeyError::Empty => {},
            KeyError::WhiteSpace => {},
        }
    }
}

/// A title is what is left without the white space round it, and must not be empty.
pub proof fn titles_are_not_empty(
    title: String,
    r: Result<String, TitleError>,
    s: Result<Option<String>, TitleError>,
    none: Result<Option<String>, TitleError>,
)
    requires
        call_ensures(normalize_required_pane_title, (title,), r),
        call_ensures(normalize_pane_title, (Some(title),), s),
        call_ensures(normalize_pane_title, (None::<String>,), none),
    ensures
        trimmed(title@).len() == 0 ==> r is Err && s is Err,
        trimmed(title@).len() > 0 ==> (r matches Ok(t) && t@ == trimmed(title@)),
        trimmed(title@).len() > 0 ==> (s matches Ok(Some(t)) && t@ == trimmed(title@)),
        none == Ok::<Option<String>, TitleError>(None),
{
}

/// A directory must be there.
pub proof fn directories_must_be_there(cwd: String, there: bool, r: Result<String, CwdError>)
    requires
        call_ensures(normalize_cwd, (cwd, there), r),
    ensures
        there ==> r == Ok::<String, CwdError>(cwd),
        !there ==> (r matches Err(CwdError::NotADirectory(dir)) && dir == cwd),
{
}

/// The process of a workspace that counts is that of its active pane, or of its first one where
/// none is active.
pub proof fn the_active_process_counts(w: &Workspace, pids: &Vec<(String, u32)>, r: MetaTarget)
    requires
        call_ensures(meta_target, (w, pids), r),
    ensures
        w.active_pane matches Some(p) ==> r.live == pid_of(pids@, p@),
        w.active_pane is None && w.panes@.len() > 0 ==> r.live == pid_of(
            pids@,
            w.panes@[0]@,
        ),
        w.active_pane is None && w.panes@.len() == 0 ==> r.live is None,
{
}

/// Texts are collected as far as they are asked for: all of the panes that are named, the screens
/// of the others.
pub proof fn named_panes_are_read_deeply(keep: Option<&Vec<String>>, pane: &str, r: Depth, s: Depth)
    requires
        call_ensures(depth_for, (true, keep, pane), r),
        call_ensures(depth_for, (false, keep, pane), s),
    ensures
        s == Depth::Light,
        keep is None ==> r == Depth::Full,
        keep matches Some(ids) ==> (exists|i: int|
            0 <= i < ids@.len() && (#[trigger] ids@[i])@ == pane@) ==> r == Depth::Full,
        keep matches Some(ids) ==> !(exists|i: int|
            0 <= i < ids@.len() && (#[trigger] ids@[i])@ == pane@) ==> r == Depth::Lean,
{
}

/// The name of a process is what it is called without the white space round it.
pub proof fn processes_have_names(comm: &str, r: Option<String>)
    requires
        call_ensures(process_name, (comm,), r),
    ensures
        trimmed(comm@).len() == 0 ==> r is None,
        trimmed(comm@).len() > 0 ==> (r matches Some(name) && name@ == trimmed(comm@)),
{
}

/// A pane without tabs runs under its own id.
pub proof fn panes_without_tabs(pane: &str, r: String)
    requires
        call_ensures(legacy_runtime_key, (pane,), r),
    ensures
        r@ == pane@,
{
}

/// A daemon runs where its socket is there and answers.
pub proof fn daemons_answer(there: bool, ping: Option<bool>, r: bool)
    requires
        call_ensures(is_running, (there, ping), r),
    ensures
        r ==> there,
        ping is None ==> !r,
        ping matches Some(ok) ==> there ==> r == ok,
{
}

/// A start says what came of it: that the daemon ran before, that it runs now, that it ended at
/// once, or that it does not answer yet.
pub proof fn starts_say_what_came_of_them(before: bool, runs: bool, ended: bool, r: StartOutcome)
    requires
        call_ensures(start_outcome, (before, runs, ended), r),
    ensures
        r == StartOutcome::AlreadyRunning <==> before,
        r == StartOutcome::Started <==> !before && runs,
        r == StartOutcome::HelperExited <==> !before && !runs && ended,
        r == StartOutcome::NotUp <==> !before && !runs && !ended,
{
}

/// A daemon reads its session, ends what it left behind and runs its panes again before it saves
/// and serves. It does not start beside another.
pub proof fn daemons_restore_before_they_serve(r: Option<Vec<ServeStep>>, s: Option<Vec<ServeStep>>)
    requires
        call_ensures(serve_foreground, (false,), r),
        call_ensures(serve_foreground, (true,), s),
    ensures
        s is None,
        r matches Some(steps) && steps@ == seq![
            ServeStep::Load,
            ServeStep::ReapOrphans,
            ServeStep::RestorePanes,
            ServeStep::EnsureInitialPane,
            ServeStep::Save,
            ServeStep::Serve,
        ],
{
}

/// A file of a process id is stale where the process is gone, or where it holds none; a socket
/// is stale where nobody answers on it.
pub proof fn files_of_gone_daemons_are_stale(
    there: Option<bool>,
    pid_file: bool,
    socket: bool,
    running: bool,
    r: StaleFiles,
)
    requires
        call_ensures(stale_files, (there, pid_file, socket, running), r),
    ensures
        there == Some(true) ==> !r.pid_file,
        there == Some(false) ==> r.pid_file,
        there is None ==> r.pid_file == pid_file,
        running || !socket ==> !r.socket,
        socket && !running ==> r.socket,
{
}

/// A process is told to end only where it is the one that was recorded, and a daemon.
pub proof fn only_daemons_are_ended(
    record: Option<u32>,
    recorded: bool,
    daemon: bool,
    r: StopPlan,
)
    requires
        call_ensures(stop_plan, (record, recorded, daemon), r),
    ensures
        r matches StopPlan::Terminate { pid } ==> record == Some(pid) && recorded && daemon,
        record is Some && recorded && daemon ==> r is Terminate,
        record matches Some(pid) ==> !(recorded && daemon) ==> r == (StopPlan::Forget {
            stale_pid: Some(pid),
        }),
        record is None ==> r == (StopPlan::Forget { stale_pid: None }),
{
}

/// What is typed into an agent's pane is work for it: the agent is busy, and no call waits any
/// more. Other panes are left alone.
pub proof fn typing_is_work(pane: &mut Pane, agent: bool, now: u64)
    requires
        call_ensures(mark_busy_by_input, (pane, agent, now), ()),
    ensures
        agent || old(pane).surface_kind == SurfaceKind::Agent ==> final(pane).agent_status
            == AgentStatus::Busy && final(pane).agent_status_pinned && final(pane).agent_status_at
            == now && final(pane).updated_at == now && final(pane).notification_message is None
            && final(pane).notification_color is None,
        !agent && old(pane).surface_kind != SurfaceKind::Agent ==> *final(pane) == *old(pane),
        final(pane).id == old(pane).id && final(pane).title == old(pane).title,
{
}

/// The wheel sends arrow keys to a running program on its own screen that has asked for it.
pub proof fn wheels_send_arrows(
    status: &PaneStatus,
    modes: &TerminalModeTracker,
    own: bool,
    r: bool,
)
    requires
        call_ensures(alternate_scroll_on, (status, modes, own), r),
    ensures
        r ==> *status == PaneStatus::Running && modes.alternate_scroll && own,
        *status == PaneStatus::Running && modes.alternate_scroll && own ==> r,
{
}

/// A workspace that is renamed is the same but for that.
pub proof fn workspaces_are_renamed(session: &mut Session, w: usize, name: String, i: int)
    requires
        call_ensures(rename_workspace, (session, w, name), ()),
        w < old(session).workspaces@.len(),
        0 <= i < old(session).workspaces@.len(),
        i != w,
    ensures
        final(session).workspaces@[w as int] == (Workspace {
            name,
            ..old(session).workspaces@[w as int]
        }),
        final(session).workspaces@[i] == old(session).workspaces@[i],
        final(session).panes == old(session).panes,
{
}

/// A workspace that is moved to another directory keeps its name and its panes, and forgets what
/// was known of the old directory.
pub proof fn workspaces_are_moved(session: &mut Session, w: usize, cwd: String, i: int)
    requires
        call_ensures(set_workspace_cwd, (session, w, cwd), ()),
        w < old(session).workspaces@.len(),
        0 <= i < old(session).workspaces@.len(),
        i != w,
    ensures
        ({
            let before = old(session).workspaces@[w as int];
            let after = final(session).workspaces@[w as int];
            &&& after.cwd == cwd
            &&& after.git_branch is None && after.pull_request is None
            &&& after.id == before.id && after.name == before.name && after.panes == before.panes
            &&& after.tabs == before.tabs
        }),
        final(session).workspaces@[i] == old(session).workspaces@[i],
{
}

/// A workspace that is pinned is the same but for that.
pub proof fn workspaces_are_pinned(session: &mut Session, w: usize, pinned: bool, i: int)
    requires
        call_ensures(set_workspace_pinned, (session, w, pinned), ()),
        w < old(session).workspaces@.len(),
        0 <= i < old(session).workspaces@.len(),
        i != w,
    ensures
        final(session).workspaces@[w as int] == (Workspace {
            pinned,
            ..old(session).workspaces@[w as int]
        }),
        final(session).workspaces@[i] == old(session).workspaces@[i],
{
}

/// A page is what was fetched, unless the fetch failed or it is over two mebibytes.
pub proof fn pages_are_fetched(
    stdout: &Vec<u8>,
    stderr: &Vec<u8>,
    r: Result<String, FetchError>,
    failed: Result<String, FetchError>,
)
    requires
        call_ensures(fetched_body, (true, stdout, stderr), r),
        call_ensures(fetched_body, (false, stdout, stderr), failed),
    ensures
        failed is Err && failed->Err_0 is Failed,
        stdout@.len() > 2 * 1024 * 1024 ==> (r matches Err(FetchError::TooLarge(n)) && n
            == stdout@.len()),
        stdout@.len() <= 2 * 1024 * 1024 ==> r is Ok,
{
}

/// The browsers for terminals, in the order in which they are looked for.
pub proof fn browsers_for_terminals(r: Vec<String>)
    requires
        call_ensures(terminal_browsers, (), r),
    ensures
        texts(r@) == seq!["w3m"@, "lynx"@, "links"@, "elinks"@, "browsh"@],
{
}

/// The kinds of panes by their words.
pub proof fn kinds_go_by_their_words(kind: SurfaceKindArg, r: SurfaceKind)
    requires
        call_ensures(surface_kind_arg, (kind,), r),
    ensures
        kind is Terminal <==> r is Terminal,
        kind is Browser <==> r is Browser,
        kind is Agent <==> r is Agent,
        kind is Markdown <==> r is Markdown,
{
}

/// A command on tabs asks for what it names; the next tab and the one before are found first.
pub proof fn commands_on_tabs_ask(
    w: Option<String>,
    tab: String,
    title: String,
    close: TabPlan,
    switch: TabPlan,
    rename: TabPlan,
    next: TabPlan,
    previous: TabPlan,
)
    requires
        call_ensures(tab_command, (TabCommand::Close { workspace: w, tab },), close),
        call_ensures(tab_command, (TabCommand::Switch { workspace: w, tab },), switch),
        call_ensures(tab_command, (TabCommand::Rename { workspace: w, tab, title },), rename),
        call_ensures(tab_command, (TabCommand::Next { workspace: w },), next),
        call_ensures(tab_command, (TabCommand::Previous { workspace: w },), previous),
    ensures
        close == TabPlan::Ask(Request::CloseTab { workspace: w, tab }),
        switch == TabPlan::Ask(Request::SwitchTab { workspace: w, tab }),
        rename == TabPlan::Ask(Request::RenameTab { workspace: w, tab, title }),
        next == (TabPlan::Relative { workspace: w, going_next: true }),
        previous == (TabPlan::Relative { workspace: w, going_next: false }),
{
}

/// A command on notes sets a key or takes it away; the list is what is known of the pane.
pub proof fn commands_on_notes_ask(
    pane: Option<String>,
    key: String,
    value: String,
    put: (Request, bool),
    clear: (Request, bool),
    list: (Request, bool),
)
    requires
        call_ensures(metadata_command, (MetadataCommand::Put { key, value, pane },), put),
        call_ensures(metadata_command, (MetadataCommand::Clear { key, pane },), clear),
        call_ensures(metadata_command, (MetadataCommand::List { pane },), list),
    ensures
        put == (Request::SetPaneMetadata { pane, key, value: Some(value) }, false),
        clear == (Request::SetPaneMetadata { pane, key, value: None }, false),
        list == (Request::Identify { pane }, true),
{
}

/// The size of a pane's view is set with both its sides, or given up.
pub proof fn views_have_two_sides(
    pane: String,
    cols: Option<u16>,
    rows: Option<u16>,
    ms: u64,
    r: Result<Request, ViewSizeError>,
    cleared: Result<Request, ViewSizeError>,
    lost: Result<Request, ViewSizeError>,
)
    requires
        call_ensures(view_size_request, (Some(pane), cols, rows, ms, false), r),
        call_ensures(view_size_request, (Some(pane), cols, rows, ms, true), cleared),
        call_ensures(view_size_request, (None::<String>, cols, rows, ms, true), lost),
    ensures
        cleared == Ok::<Request, ViewSizeError>(Request::ClearPaneViewSize { pane }),
        lost == Err::<Request, ViewSizeError>(ViewSizeError::NoPane),
        cols is None || rows is None ==> r == Err::<Request, ViewSizeError>(ViewSizeError::NoSize),
        cols is Some && rows is Some ==> r == Ok::<Request, ViewSizeError>(
            Request::SetPaneViewSize { pane, cols: cols->0, rows: rows->0, lease_ms: ms },
        ),
{
}

/// A pane is moved to a workspace that is there, or to a new one with a name; to one of the two.
pub proof fn panes_are_moved_to_one_workspace(
    name: String,
    there: Result<MovePaneWorkspaceTarget, MoveArgsError>,
    fresh: Result<MovePaneWorkspaceTarget, MoveArgsError>,
    both: Result<MovePaneWorkspaceTarget, MoveArgsError>,
    neither: Result<MovePaneWorkspaceTarget, MoveArgsError>,
)
    requires
        call_ensures(validate_move_pane_workspace_args, (Some(name), None::<String>), there),
        call_ensures(validate_move_pane_workspace_args, (None::<String>, Some(name)), fresh),
        call_ensures(validate_move_pane_workspace_args, (Some(name), Some(name)), both),
        call_ensures(validate_move_pane_workspace_args, (None::<String>, None::<String>), neither),
    ensures
        there == Ok::<MovePaneWorkspaceTarget, MoveArgsError>(
            MovePaneWorkspaceTarget::Existing(name),
        ),
        !is_blank(name@) ==> fresh == Ok::<MovePaneWorkspaceTarget, MoveArgsError>(
            MovePaneWorkspaceTarget::New(name),
        ),
        is_blank(name@) ==> fresh == Err::<MovePaneWorkspaceTarget, MoveArgsError>(
            MoveArgsError::EmptyName,
        ),
        both == Err::<MovePaneWorkspaceTarget, MoveArgsError>(MoveArgsError::Both),
        neither == Err::<MovePaneWorkspaceTarget, MoveArgsError>(MoveArgsError::Neither),
{
}

/// The workspace of an agent in a team has its name, and a pane that runs it.
pub proof fn teams_have_workspaces(
    agent: &str,
    cwd: &str,
    direction: SplitDirection,
    r: WorkspacePlan,
)
    requires
        call_ensures(team_plan, (agent, cwd, direction), r),
    ensures
        r.name@ == "agent:"@ + agent@,
        opt_text(r.title) == Some(agent@ + "-agent"@),
        r.command@ == agent@,
        opt_text(r.cwd) == Some(cwd@),
        r.surface_kind == Some(SurfaceKind::Agent),
        r.direction == direction,
{
}

/// A command that failed says why, or else that it failed.
pub proof fn failures_say_why(ok: bool, error: Option<String>, r: Result<(), String>)
    requires
        call_ensures(verdict, (ok, error), r),
    ensures
        ok <==> r is Ok,
        !ok ==> (error matches Some(e) ==> r->Err_0@ == e@),
        !ok && error is None ==> r->Err_0@ == "vmux command failed"@,
{
}

/// One looks for news ten times a second at most, and every ten seconds at least.
pub proof fn news_are_looked_for(ms: u64, r: u64)
    requires
        call_ensures(follow_interval, (ms,), r),
    ensures
        100 <= r <= 10_000,
        100 <= ms <= 10_000 ==> r == ms,
        ms < 100 ==> r == 100,
        ms > 10_000 ==> r == 10_000,
{
}

/// The file of an image is named after the time, the process and the attempt.
pub proof fn images_have_names(stamp: u64, pid: u32, attempt: u32, ext: &str, r: String)
    requires
        call_ensures(image_name, (stamp, pid, attempt, ext), r),
    ensures
        r@ == "image-"@ + decimal(stamp as nat) + "-"@ + decimal(pid as nat) + "-"@ + decimal(
            attempt as nat,
        ) + "."@ + ext@,
{
}

/// A command that is run asks for a pane of no given kind.
pub proof fn commands_run_in_panes(
    direction: SplitDirection,
    command: String,
    title: Option<String>,
    workspace: Option<String>,
    r: Request,
)
    requires
        call_ensures(run_request, (direction, command, title, workspace), r),
    ensures
        r == (Request::NewPane { direction, command, title, workspace, surface_kind: None }),
{
}

/// The id of a workspace stands under `id`; hooks are read in with a dot.
pub proof fn ids_stand_under_their_key(
    json: &str,
    r: Result<String, NoWorkspaceId>,
    path: &str,
    line: String,
)
    requires
        call_ensures(workspace_id_from_value, (json,), r),
        call_ensures(hook_source_line, (path,), line),
    ensures
        json_text_field(json@, "id"@) matches Some(id) ==> (r matches Ok(got)
            && got@ == id),
        json_text_field(json@, "id"@) is None ==> r is Err,
        line@ == seq!['.', ' '] + shell_word(path@),
{
    reveal_strlit(". ");
    assert(". "@ =~= seq!['.', ' ']);
}

/// The end of a log is read in parts of eight kibibytes from its end, until it has lines enough or
/// its beginning is reached.
pub proof fn logs_are_read_from_their_end(pos: u64, found: usize, lines: usize, r: Option<u64>)
    requires
        call_ensures(next_tail_start, (pos, found, lines), r),
    ensures
        r is None <==> pos == 0 || found > lines,
        r matches Some(start) ==> start < pos && pos - start <= 8192 && (start == 0 || pos - start
            == 8192),
{
}

/// A session was drawn where the text and the name stand in what the terminal showed, and it ended
/// well or by the timeout.
pub proof fn sessions_were_drawn(
    shown: &[u8],
    needle: &[u8],
    name: &[u8],
    well: bool,
    code: Option<i32>,
    r: bool,
    i: int,
    j: int,
)
    requires
        call_ensures(attach_rendered, (shown, needle, name, well, code), r),
    ensures
        !well && code != Some(124i32) ==> !r,
        (well || code == Some(124i32)) && 0 <= i <= shown@.len() - needle@.len()
            && shown@.subrange(i, i + needle@.len()) == needle@ && 0 <= j <= shown@.len()
            - name@.len() && shown@.subrange(j, j + name@.len()) == name@ ==> r,
{
}

/// A run of checks begins with none; it passed where nothing cut it short and each check is good.
pub proof fn runs_of_checks_are_judged(first: SmokeRun, run: SmokeRun, i: int)
    requires
        call_ensures(smoke_start, (), first),
    ensures
        first.stage == SmokeStage::Start && first.checks@.len() == 0 && first.problem is None,
        run.problem is Some ==> judged(run) == SmokeVerdict::CutShort,
        run.problem is None && 0 <= i < run.checks@.len() && !run.checks@[i].ok ==> judged(run)
            == SmokeVerdict::ChecksFailed,
        run.problem is None && (forall|k: int|
            0 <= k < run.checks@.len() ==> (#[trigger] run.checks@[k]).ok) ==> judged(run)
            == SmokeVerdict::Passed,
{
}

} // verus!

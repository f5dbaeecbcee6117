//! Sessions: notices, statuses, panes, tabs and what is kept of them.

use vmux::daemon::dispatch::Daemon;
use vmux::daemon::handlers::{
    acknowledge_panes, broadcast_targets, clear_notifications, copy_source, finish_killed,
    newest_first, paste_data, resize_delta, resolve_pane, search_lines, set_clipboard,
    set_pane_metadata, set_pane_title, set_progress, toggle_zoom, wait_step, PaneError, WaitState,
    ZoomError,
};
use vmux::daemon::lifecycle::{
    argv_from, exit_runtime, mark_exited, mark_restored, pane_argv, pane_env, reap_orphan_panes,
    reset_for_start, restore_seed, seed_runtime, take_run, DaemonPaths,
};
use vmux::daemon::live::{
    append_output, light_copy, live_screen, merge_run, new_runtime, resize_runtime, settle_output,
    take_output,
};
use vmux::daemon::navigate::{auto_title_tab, jump_notification, switch_tab, take_pane, JumpError};
use vmux::daemon::panes::{
    apply_pane_tab, ensure_base_pane_tab, normalize_metadata_key, normalize_pane_title,
    normalize_required_pane_title, normalize_tab_command, repair_workspace_cwds, resolve_pane_tab,
    sync_active_pane_tab, sync_tab_from_runtime_pane, KeyError, TabError, TitleError,
};
use vmux::daemon::runtime::{
    active_runtime_key_for_pane, highest_number, next_number, pane_runtime_key, runtime_key_is_active_for_pane,
    runtime_key_tab,
};
use vmux::daemon::capture::{
    clear_record, cleared_message, copy_stored, mark_view, read_screen, read_stored,
    restart_command, restart_refused, search_pane, ViewError,
};
use vmux::daemon::session::{notify, push_event, NotifyRequest, MAX_EVENTS, MAX_NOTIFICATIONS};
use vmux::daemon::snapshot::{
    collect_pane, depth_for, identify, lean_snapshot, snapshot, strip_for_save, Depth,
    IdentifyError,
};
use vmux::daemon::status::{
    agent_status_name, is_completion_noise_notification, is_idle_prompt_notification,
    looks_like_user_turn_input, mark_busy_by_input, parse_agent_status,
    should_record_in_notification_feed,
};
use vmux::daemon::titles::{agent_title_update, llm_tab_title_prompt, TitleSettings};
use vmux::daemon::workspaces::{add_tab, close_tab, rename_tab};
use vmux::model::{
    acknowledge_done_status, clone_pane, find_pane, insert_pane, touch_agent_status, AgentStatus,
    BroadcastScope, EventRecord, Notification, Pane, PaneSize, PaneStatus, PaneTab, Session,
    SplitDirection, SurfaceKind, Workspace, WorkspaceTab,
};

fn daemon(session: Session) -> Daemon {
    Daemon {
        session,
        next_pane: 9,
        next_workspace: 9,
        generation: 0,
        pane_size_owner: None,
        shutting_down: false,
    }
}

fn pane(id: &str, command: &str) -> Pane {
    Pane::new(id.to_string(), command.to_string(), 1)
}

fn with_panes(ids: &[&str]) -> Session {
    let mut session = Session::new("test");
    for id in ids {
        insert_pane(&mut session.panes, pane(id, "codex"));
        session.workspaces[0].panes.push(id.to_string());
    }
    session.workspaces[0].active_pane = ids.first().map(|s| s.to_string());
    session
}

fn of<'a>(session: &'a Session, id: &str) -> &'a Pane {
    &session.panes[find_pane(&session.panes, id).expect("the pane is there")]
}

fn of_mut<'a>(session: &'a mut Session, id: &str) -> &'a mut Pane {
    let i = find_pane(&session.panes, id).expect("the pane is there");
    &mut session.panes[i]
}

fn tell(session: &mut Session, pane: &str, status: &str, color: Option<&str>, message: &str, title: Option<&str>) -> bool {
    let request = NotifyRequest {
        pane: Some(pane.to_string()),
        workspace: None,
        status: Some(status.to_string()),
        color: color.map(|c| c.to_string()),
        clear: false,
        message: message.to_string(),
        title: title.map(|t| t.to_string()),
    };
    notify(session, request, true, title.map(|t| t.to_string()), None, 50).recorded
}

fn event(time: u64, kind: &str) -> EventRecord {
    EventRecord {
        id: 0,
        time,
        kind: kind.into(),
        pane: None,
        workspace: None,
        status: None,
        key: None,
        value: None,
        message: String::new(),
    }
}

fn tab(id: &str, title: &str, command: &str) -> PaneTab {
    PaneTab {
        id: id.to_string(),
        title: title.to_string(),
        command: command.to_string(),
        surface_kind: SurfaceKind::Terminal,
        status: None,
        agent_status: None,
        progress: None,
        notification_color: None,
        notification_message: None,
        exit_code: None,
        output: String::new(),
        output_formatted: String::new(),
        scrollback: String::new(),
        scrollback_formatted: String::new(),
        created_at: 1,
        updated_at: 1,
    }
}

#[test]
fn parse_agent_status_supports_attention_aliases() {
    assert_eq!(parse_agent_status("attention"), AgentStatus::Attention);
    assert_eq!(parse_agent_status("needs-input"), AgentStatus::Attention);
    assert_eq!(parse_agent_status("approval"), AgentStatus::Attention);
}

#[test]
fn names_of_statuses_read_back() {
    for status in [
        AgentStatus::Idle,
        AgentStatus::Busy,
        AgentStatus::Attention,
        AgentStatus::Done,
        AgentStatus::Error,
        AgentStatus::Unknown,
    ] {
        assert_eq!(parse_agent_status(agent_status_name(&status)), status);
    }
    assert_eq!(parse_agent_status("whatever"), AgentStatus::Unknown);
}

#[test]
fn idle_prompt_notification_does_not_demote_done() {
    let mut session = with_panes(&["pane-1"]);
    touch_agent_status(of_mut(&mut session, "pane-1"), AgentStatus::Done, true, 2);

    // That an agent waits is no news after it is done ...
    tell(&mut session, "pane-1", "attention", None, "Codex is waiting for your input", None);
    assert_eq!(of(&session, "pane-1").agent_status, AgentStatus::Done);
    assert_eq!(of(&session, "pane-1").notification_message, None);

    // ... but that it needs a permission is.
    tell(&mut session, "pane-1", "attention", None, "Codex needs your permission to use Bash", None);
    assert_eq!(of(&session, "pane-1").agent_status, AgentStatus::Attention);
}

#[test]
fn late_busy_after_done_does_not_resurrect_spinner() {
    let mut session = with_panes(&["pane-1"]);
    touch_agent_status(of_mut(&mut session, "pane-1"), AgentStatus::Done, true, 2);

    tell(&mut session, "pane-1", "busy", Some("yellow"), "agent working", None);
    assert_eq!(of(&session, "pane-1").agent_status, AgentStatus::Done);

    // Once it was seen it is idle, and late news of work are passed over still.
    assert!(acknowledge_done_status(of_mut(&mut session, "pane-1"), 3));
    assert_eq!(of(&session, "pane-1").agent_status, AgentStatus::Idle);
    assert!(of(&session, "pane-1").agent_status_pinned);
    tell(&mut session, "pane-1", "busy", Some("yellow"), "agent working", None);
    assert_eq!(of(&session, "pane-1").agent_status, AgentStatus::Idle);

    // A new turn counts.
    tell(&mut session, "pane-1", "busy", Some("yellow"), "agent working", Some("fix parser"));
    assert_eq!(of(&session, "pane-1").agent_status, AgentStatus::Busy);
}

#[test]
fn notify_dedupes_repeated_same_state_notifications() {
    let mut session = with_panes(&["pane-1", "pane-2"]);

    // What the sidebar shows anyway does not enter the feed.
    tell(&mut session, "pane-1", "busy", Some("yellow"), "agent working", None);
    tell(&mut session, "pane-2", "busy", Some("yellow"), "agent working", None);
    tell(&mut session, "pane-1", "busy", Some("yellow"), "agent working", None);
    tell(&mut session, "pane-1", "done", Some("green"), "agent hook completed", None);
    assert!(session.notifications.is_empty(), "{:?}", session.notifications);
    assert_eq!(of(&session, "pane-1").agent_status, AgentStatus::Done);
    assert_eq!(of(&session, "pane-2").agent_status, AgentStatus::Busy);

    // What asks for attention does, once.
    tell(&mut session, "pane-1", "attention", Some("blue"), "approve edit to foo.rs", None);
    tell(&mut session, "pane-1", "attention", Some("blue"), "approve edit to foo.rs", None);
    tell(&mut session, "pane-1", "attention", Some("blue"), "approve edit to bar.rs", None);
    let messages: Vec<&str> = session
        .notifications
        .iter()
        .filter(|note| note.pane.as_deref() == Some("pane-1"))
        .map(|note| note.message.as_str())
        .collect();
    assert_eq!(
        messages,
        ["approve edit to foo.rs", "approve edit to bar.rs"]
    );
    assert_eq!(of(&session, "pane-1").agent_status, AgentStatus::Attention);
}

#[test]
fn turn_complete_notification_does_not_raise_attention() {
    let mut session = with_panes(&["pane-1"]);
    touch_agent_status(of_mut(&mut session, "pane-1"), AgentStatus::Busy, true, 2);
    tell(&mut session, "pane-1", "attention", Some("blue"), "Turn complete", None);
    assert_eq!(of(&session, "pane-1").agent_status, AgentStatus::Done);
    assert!(
        session.notifications.is_empty(),
        "turn-complete noise must not land in the feed"
    );
}

#[test]
fn notices_are_told_apart() {
    assert!(is_idle_prompt_notification("Codex is waiting for your input"));
    assert!(!is_idle_prompt_notification("approve edit"));
    assert!(is_completion_noise_notification("Turn complete"));
    let note = |status: &str, message: &str| Notification {
        time: 1,
        pane: None,
        workspace: None,
        status: Some(status.to_string()),
        color: None,
        clear: false,
        message: message.to_string(),
    };
    assert!(should_record_in_notification_feed(&note("attention", "approve edit")));
    assert!(!should_record_in_notification_feed(&note("busy", "agent working")));
}

#[test]
fn input_of_a_user_starts_a_turn() {
    assert!(looks_like_user_turn_input("fix the bug\r"));
    assert!(looks_like_user_turn_input("x"));
    assert!(!looks_like_user_turn_input(""));
    assert!(!looks_like_user_turn_input("\x1b[A"));
    assert!(!looks_like_user_turn_input("\x1b[I"));
    let mut p = pane("pane-1", "codex");
    mark_busy_by_input(&mut p, true, 9);
    assert_eq!(p.agent_status, AgentStatus::Busy);
    let mut p = pane("pane-1", "bash");
    let before = p.agent_status;
    mark_busy_by_input(&mut p, false, 9);
    assert_eq!(p.agent_status, before);
}

#[test]
fn push_event_assigns_monotonic_ids() {
    let mut session = Session::new("evt");
    push_event(&mut session, event(1, "a"));
    push_event(&mut session, event(2, "b"));
    assert_eq!(session.events[0].id, 1);
    assert_eq!(session.events[1].id, 2);
    assert_eq!(session.next_event_id, 2);
}

#[test]
fn the_feeds_are_bounded() {
    let mut session = with_panes(&["pane-1"]);
    for i in 0..(MAX_EVENTS as u64 + 20) {
        push_event(&mut session, event(i, "k"));
    }
    assert_eq!(session.events.len(), MAX_EVENTS);
    assert_eq!(session.events.last().unwrap().id, MAX_EVENTS as u64 + 20);
    for i in 0..MAX_NOTIFICATIONS + 5 {
        tell(&mut session, "pane-1", "attention", None, &format!("question {i}"), None);
    }
    assert_eq!(session.notifications.len(), MAX_NOTIFICATIONS);
    assert_eq!(clear_notifications(&mut session), MAX_NOTIFICATIONS);
    assert!(session.notifications.is_empty());
}

#[test]
fn jump_notification_switches_to_background_tab() {
    let mut session = with_panes(&["pane-1"]);
    insert_pane(&mut session.panes, pane("pane-2", "codex"));
    let ws = &mut session.workspaces[0];
    let mut front = WorkspaceTab::new("tab-1", "front");
    front.panes = vec!["pane-1".into()];
    front.active_pane = Some("pane-1".into());
    let mut back = WorkspaceTab::new("tab-2", "back");
    back.panes = vec!["pane-2".into()];
    back.active_pane = Some("pane-2".into());
    ws.tabs = vec![front, back];
    ws.active_tab = Some("tab-1".into());
    session.notifications.push(Notification {
        time: 1,
        pane: Some("pane-2".into()),
        workspace: None,
        status: Some("attention".into()),
        color: Some("blue".into()),
        clear: false,
        message: "needs input on background tab".into(),
    });

    let jump = jump_notification(&mut session, 5).unwrap();
    assert_eq!(jump.pane.as_deref(), Some("pane-2"));
    assert_eq!(jump.tab.as_deref(), Some("tab-2"));
    let ws = &session.workspaces[0];
    assert_eq!(ws.active_tab.as_deref(), Some("tab-2"));
    assert_eq!(ws.active_pane.as_deref(), Some("pane-2"));
    assert_eq!(ws.panes, vec!["pane-2".to_string()]);
}

#[test]
fn a_jump_needs_a_place() {
    let mut session = Session::new("test");
    assert!(matches!(jump_notification(&mut session, 5), Err(JumpError::Empty)));
    session.notifications.push(Notification {
        time: 1,
        pane: Some("pane-7".into()),
        workspace: None,
        status: Some("attention".into()),
        color: None,
        clear: false,
        message: "m".into(),
    });
    assert!(matches!(jump_notification(&mut session, 5), Err(JumpError::Detached(p)) if p == "pane-7"));
    session.notifications[0].pane = None;
    assert!(matches!(jump_notification(&mut session, 5), Err(JumpError::NoTarget)));
    session.notifications[0].workspace = Some("ws-9".to_string());
    assert!(jump_notification(&mut session, 5).is_err());
}

#[test]
fn reap_orphan_panes_drops_panes_no_tab_references() {
    let mut session = Session::new("orphans");
    session.workspaces[0].panes = vec!["pane-1".to_string()];
    session.workspaces[0].active_pane = Some("pane-1".to_string());
    insert_pane(&mut session.panes, pane("pane-1", ""));
    insert_pane(&mut session.panes, pane("pane-9", ""));

    let referenced = session.workspaces[0].all_pane_ids();
    let removed = reap_orphan_panes(&mut session, &referenced);

    assert_eq!(removed, ["pane-9"]);
    assert!(find_pane(&session.panes, "pane-1").is_some());
    assert!(find_pane(&session.panes, "pane-9").is_none());
}

#[test]
fn pane_tab_helpers_create_switch_and_reject_ambiguous_titles() {
    let mut pane = pane("pane-1", "bash");
    ensure_base_pane_tab(&mut pane, 1);

    assert_eq!(pane.tabs.len(), 1);
    assert_eq!(pane.active_tab.as_deref(), Some("tab-1"));
    let mut tests = tab("tab-2", "tests", "cargo test");
    tests.status = Some(PaneStatus::Running);
    tests.agent_status = Some(AgentStatus::Busy);
    tests.progress = Some(42);
    tests.notification_color = Some("yellow".to_string());
    tests.notification_message = Some("running tests".to_string());
    tests.output = "test output".to_string();
    tests.scrollback = "test history".to_string();
    pane.tabs.push(tests);
    assert_eq!(
        resolve_pane_tab(&pane, "tests").unwrap().command,
        "cargo test"
    );
    apply_pane_tab(&mut pane, "tab-2", AgentStatus::Unknown, "sh", 2).unwrap();
    assert_eq!(pane.active_tab.as_deref(), Some("tab-2"));
    assert_eq!(pane.title, "tests");
    assert_eq!(pane.command, "cargo test");
    assert_eq!(pane.output, "test output");
    assert_eq!(pane.scrollback, "test history");
    assert_eq!(pane.progress, Some(42));
    pane.output = "new test output".to_string();
    sync_active_pane_tab(&mut pane, 3);
    assert_eq!(
        resolve_pane_tab(&pane, "tab-2").unwrap().output,
        "new test output"
    );
    pane.tabs.push(tab("tab-3", "tests", "cargo clippy"));
    assert!(matches!(resolve_pane_tab(&pane, "tests"), Err(TabError::Ambiguous(s)) if s == "tests"));
    assert!(matches!(resolve_pane_tab(&pane, "none"), Err(TabError::Unknown(s)) if s == "none"));
}

#[test]
fn runtime_keys_include_active_tab_when_present() {
    let mut pane = pane("pane-1", "bash");
    assert_eq!(active_runtime_key_for_pane(&pane), "pane-1");
    pane.active_tab = Some("tab-2".to_string());
    assert_eq!(active_runtime_key_for_pane(&pane), "pane-1::tab-2");
    assert_eq!(pane_runtime_key("pane-1", Some("tab-2")), "pane-1::tab-2");
    assert_eq!(pane_runtime_key("pane-1", None), "pane-1");
    assert_eq!(runtime_key_tab("pane-1", "pane-1::tab-2"), Some("tab-2"));
    assert_eq!(runtime_key_tab("pane-1", "pane-1"), None);
    assert_eq!(runtime_key_tab("pane-1", "pane-10::tab-2"), None);
    assert!(runtime_key_is_active_for_pane(&pane, "pane-1::tab-2"));
    assert!(!runtime_key_is_active_for_pane(&pane, "pane-1::tab-3"));
}

#[test]
fn numbers_of_ids_go_on() {
    let ids: Vec<String> = ["pane-3", "pane-x", "ws-9", "pane-11"].iter().map(|s| s.to_string()).collect();
    assert_eq!(highest_number("pane-", &ids), 11);
    assert_eq!(next_number("pane-", &ids), 12);
    assert_eq!(next_number("tab-", &ids), 1);
}

#[test]
fn inactive_runtime_sync_updates_tab_without_replacing_active_pane() {
    let mut pane = pane("pane-1", "bash");
    ensure_base_pane_tab(&mut pane, 1);
    let mut worker = tab("tab-2", "worker", "sleep 10");
    worker.status = Some(PaneStatus::Running);
    worker.agent_status = Some(AgentStatus::Idle);
    pane.tabs.push(worker);
    pane.active_tab = Some("tab-1".to_string());
    pane.title = "active".to_string();
    pane.output = "active output".to_string();

    let mut runtime_pane = clone_pane(&pane);
    apply_pane_tab(&mut runtime_pane, "tab-2", AgentStatus::Unknown, "sh", 2).unwrap();
    runtime_pane.output = "inactive output".to_string();
    runtime_pane.scrollback = "inactive history".to_string();
    runtime_pane.agent_status = AgentStatus::Attention;
    runtime_pane.notification_message = Some("done".to_string());
    runtime_pane.updated_at = 42;

    sync_tab_from_runtime_pane(&mut pane, "tab-2", &runtime_pane);

    assert_eq!(pane.active_tab.as_deref(), Some("tab-1"));
    assert_eq!(pane.title, "active");
    assert_eq!(pane.output, "active output");
    let tab = resolve_pane_tab(&pane, "tab-2").unwrap();
    assert_eq!(tab.output, "inactive output");
    assert_eq!(tab.scrollback, "inactive history");
    assert_eq!(tab.agent_status, Some(AgentStatus::Attention));
    assert_eq!(tab.notification_message.as_deref(), Some("done"));
}

#[test]
fn metadata_keys_are_trimmed_and_reject_empty_or_whitespace() {
    assert_eq!(normalize_metadata_key(" task ").unwrap(), "task");
    assert!(normalize_metadata_key("").is_err());
    assert!(normalize_metadata_key("needs review").is_err());
}

#[test]
fn titles_and_keys_are_refused_for_their_reasons() {
    assert_eq!(normalize_metadata_key(" "), Err(KeyError::Empty));
    assert_eq!(normalize_metadata_key("a b"), Err(KeyError::WhiteSpace));
    assert_eq!(normalize_required_pane_title(" x ".to_string()), Ok("x".to_string()));
    assert_eq!(normalize_required_pane_title(" ".to_string()), Err(TitleError::Empty));
    assert_eq!(normalize_pane_title(None), Ok(None));
    assert_eq!(normalize_pane_title(Some(" ".to_string())), Err(TitleError::Empty));
    assert_eq!(normalize_tab_command("  ".to_string(), "zsh"), "zsh");
    assert_eq!(normalize_tab_command("vim".to_string(), "zsh"), "vim");
}

#[test]
fn metadata_stays_in_order_and_is_logged() {
    let mut session = with_panes(&["pane-1"]);
    assert_eq!(set_pane_metadata(&mut session, "pane-1", "b", Some("2"), 7), Ok(true));
    assert_eq!(set_pane_metadata(&mut session, "pane-1", "a", Some("1"), 7), Ok(true));
    assert_eq!(set_pane_metadata(&mut session, "pane-1", "b", Some("3"), 7), Ok(true));
    let pairs: Vec<(&str, &str)> =
        of(&session, "pane-1").metadata.iter().map(|p| (p.0.as_str(), p.1.as_str())).collect();
    assert_eq!(pairs, [("a", "1"), ("b", "3")]);
    assert_eq!(set_pane_metadata(&mut session, "pane-1", "a", None, 7), Ok(true));
    assert_eq!(of(&session, "pane-1").metadata.len(), 1);
    assert_eq!(set_pane_metadata(&mut session, "pane-9", "a", None, 7), Ok(false));
    assert_eq!(set_pane_metadata(&mut session, "pane-1", "", None, 7), Err(KeyError::Empty));
    assert!(!session.events.is_empty());
}

#[test]
fn small_changes_of_panes() {
    let mut session = with_panes(&["pane-1", "pane-2"]);
    assert_eq!(set_pane_title(&mut session, "pane-1", " build ".to_string(), 8), Ok(true));
    assert_eq!(of(&session, "pane-1").title, "build");
    assert_eq!(set_pane_title(&mut session, "pane-1", " ".to_string(), 8), Err(TitleError::Empty));
    assert!(set_progress(&mut session, "pane-1", Some(140), 9));
    assert_eq!(of(&session, "pane-1").progress, Some(100));
    assert!(!set_progress(&mut session, "pane-7", Some(1), 9));
    assert_eq!(resolve_pane(&session, Some("pane-2")).unwrap(), "pane-2");
    assert_eq!(resolve_pane(&session, None).unwrap(), "pane-1");
    assert!(matches!(resolve_pane(&session, Some("x")), Err(PaneError::Unknown(p)) if p == "x"));
    session.workspaces[0].active_pane = None;
    assert!(matches!(resolve_pane(&session, None), Err(PaneError::NoActive)));
    touch_agent_status(of_mut(&mut session, "pane-2"), AgentStatus::Done, true, 3);
    acknowledge_panes(&mut session.panes, &vec!["pane-2".to_string()], 10);
    assert_eq!(of(&session, "pane-2").agent_status, AgentStatus::Idle);
    assert_eq!(broadcast_targets(&session, BroadcastScope::Session), ["pane-1", "pane-2"]);
    assert_eq!(resize_delta(SplitDirection::Left, 7), -7);
    assert_eq!(resize_delta(SplitDirection::Down, 600), 50);
    assert_eq!(newest_first(5, 2, 100), [4, 3]);
    assert_eq!(newest_first(2, 0, 100).len(), 1);
}

#[test]
fn a_search_gives_lines_and_their_numbers() {
    assert!(search_lines("one\nTwo two\nthree", "TWO").is_empty());
    let found = search_lines("one\nTwo two\nthree", "two");
    assert_eq!(found.len(), 1);
    assert_eq!(found[0].line, 2);
    assert_eq!(found[0].text, "Two two");
    let both = search_pane("alpha\nbeta", "beta\nbeta", "beta").unwrap();
    assert_eq!(both.screen.len(), 1);
    assert_eq!(both.scrollback.len(), 2);
    assert!(search_pane("a", "b", "").is_none());
}

#[test]
fn the_clipboard_is_pasted_with_or_without_enter() {
    let mut session = with_panes(&["pane-1"]);
    assert_eq!(paste_data(&session, true), None);
    set_clipboard(&mut session, "text".to_string(), None, copy_source(true), 5);
    assert_eq!(paste_data(&session, false).as_deref(), Some("text"));
    assert_eq!(paste_data(&session, true).as_deref(), Some("text\n"));
    assert_ne!(copy_source(true), copy_source(false));
}

#[test]
fn zoom_goes_on_and_off() {
    let mut session = with_panes(&["pane-1", "pane-2"]);
    let ws = &mut session.workspaces[0];
    let zoom = toggle_zoom(ws, None).unwrap();
    assert_eq!((zoom.pane.as_str(), zoom.zoomed), ("pane-1", true));
    assert_eq!(ws.zoomed_pane.as_deref(), Some("pane-1"));
    let zoom = toggle_zoom(ws, None).unwrap();
    assert!(!zoom.zoomed);
    assert_eq!(ws.zoomed_pane, None);
    assert!(matches!(toggle_zoom(ws, Some("pane-9".to_string())), Err(ZoomError::NotHere(p)) if p == "pane-9"));
    let mut empty = Workspace::new("ws-2", "e");
    assert!(matches!(toggle_zoom(&mut empty, None), Err(ZoomError::NoPanes)));
}

#[test]
fn a_wait_ends_when_all_are_over_or_in_time() {
    let done = vec![PaneStatus::Exited];
    let busy = vec![PaneStatus::Exited, PaneStatus::Running];
    assert_eq!(wait_step(&done, Some(10), 5), WaitState::Over);
    assert_eq!(wait_step(&busy, Some(10), 10), WaitState::TimedOut);
    assert!(matches!(wait_step(&busy, Some(10_000), 10), WaitState::Again(_)));
    assert!(matches!(wait_step(&busy, None, 1_000_000), WaitState::Again(_)));
}

#[test]
fn what_ended_is_noted() {
    let mut daemon = daemon(with_panes(&["pane-1"]));
    let mut run = pane("pane-1", "codex");
    run.output = "last words".to_string();
    run.status = PaneStatus::Exited;
    run.exit_code = Some(3);
    assert!(!mark_exited(&mut daemon, "pane-1", "pane-1", None, Some(3), 9));
    assert_eq!(daemon.generation, 0);
    assert!(mark_exited(&mut daemon, "pane-1", "pane-1", Some(&run), Some(3), 9));
    assert_eq!(daemon.generation, 1);
    assert_eq!(of(&daemon.session, "pane-1").status, PaneStatus::Exited);
    assert_eq!(of(&daemon.session, "pane-1").exit_code, Some(3));
    let mut killed = pane("pane-2", "sh");
    killed.pid = Some(5);
    finish_killed(&mut killed, Some("out".to_string()), 4);
    assert_eq!(killed.status, PaneStatus::Exited);
    assert_eq!(killed.agent_status, AgentStatus::Done);
    assert_eq!(killed.output, "out");
    let mut runtime = new_runtime(1, pane("pane-3", "sh"), 16_000, 1);
    take_output(&mut runtime, 1, b"screen").expect("its own run");
    assert!(!exit_runtime(&mut runtime, 2, Some(1), 16_000, 7));
    assert_eq!(runtime.pane.exit_code, None);
    assert!(exit_runtime(&mut runtime, 1, Some(1), 16_000, 7));
    assert_eq!(runtime.pane.output, "screen");
    assert_eq!(runtime.pane.status, PaneStatus::Exited);
    assert_eq!(runtime.pane.exit_code, Some(1));
    let mut record = pane("pane-3", "sh");
    take_run(&mut record, "pane-3", &runtime.pane, 8);
    assert_eq!(record.status, PaneStatus::Exited);
}

#[test]
fn saved_panes_come_back_as_restored() {
    let mut p = pane("pane-1", "printf vmux-restored");
    p.pid = Some(999_999);
    p.output = "old output".to_string();
    p.scrollback = "old scrollback".to_string();
    let mut panes = vec![p];
    mark_restored(&mut panes);
    assert_eq!(panes[0].status, PaneStatus::Restored);
    assert_eq!(panes[0].pid, None);
    assert_eq!(panes[0].output, "old output");
    assert_eq!(panes[0].scrollback, "old scrollback");
    let seed = restore_seed(&panes[0]);
    assert!(seed.contains("old scrollback"));
    let mut runtime = new_runtime(1, clone_pane(&panes[0]), 16_000, 1);
    seed_runtime(&mut runtime, seed, "styled".to_string());
    assert_eq!(runtime.pane.scrollback_formatted, "styled");
    assert!(runtime.output_bytes > 0);
    assert_eq!(live_screen(&runtime).contents(), "old scrollback");
    reset_for_start(&mut panes[0], Some(12), AgentStatus::Unknown, 6);
    assert_eq!(panes[0].status, PaneStatus::Running);
    assert_eq!(panes[0].pid, Some(12));
}

#[test]
fn a_command_becomes_arguments_and_surroundings() {
    assert_eq!(pane_argv("echo 'a b'", "zsh"), ["echo", "a b"]);
    assert_eq!(pane_argv("", "zsh"), ["zsh"]);
    assert_eq!(argv_from(None, "echo 'open", "zsh"), ["echo 'open"]);
    assert_eq!(pane_argv("echo 'open", "zsh"), ["echo 'open"]);
    let paths = DaemonPaths {
        socket: "/s".to_string(),
        pid: "/p".to_string(),
        log: "/l".to_string(),
        state: "/st".to_string(),
    };
    let env = pane_env("main", "ws-1", "pane-1", &paths);
    assert!(env.iter().any(|p| p.0 == "VMUX_PANE_ID" && p.1 == "pane-1"), "{env:?}");
    assert!(env.iter().any(|p| p.1 == "/s"));
}

#[test]
fn output_is_taken_in_and_settles() {
    let mut runtime = new_runtime(1, pane("pane-1", "codex"), 16_000, 1);
    let bytes = b"hello \x1b]9;needs review\x07\x1b[?1007h";
    let taken = take_output(&mut runtime, 1, bytes).expect("its own run");
    assert_eq!(taken.events.notifications, ["needs review"]);
    assert!(runtime.terminal_modes.alternate_scroll);
    let light = settle_output(
        &mut runtime,
        1,
        taken.text,
        &taken.events.notifications,
        AgentStatus::Attention,
        false,
        9,
    )
    .expect("its own run");
    assert_eq!(runtime.pane.agent_status, AgentStatus::Attention);
    assert_eq!(runtime.pane.cursor_col, Some(6));
    assert!(runtime.output_bytes > 0);
    assert_eq!(light_copy(&runtime.pane).agent_status, light.agent_status);
    assert_eq!(light.output, "");
    let mut daemon = daemon(with_panes(&["pane-1"]));
    let notes = &taken.events.notifications;
    assert!(append_output(&mut daemon, "pane-1", "pane-1", Some(&light), notes, 9));
    assert_eq!(daemon.generation, 1);
    assert_eq!(of(&daemon.session, "pane-1").agent_status, AgentStatus::Attention);
    assert!(!daemon.session.notifications.is_empty());
    let mut record = pane("pane-1", "codex");
    merge_run(&mut record, "pane-1", &light);
    assert_eq!(record.agent_status, AgentStatus::Attention);
}

#[test]
fn full_snapshot_materializes_runtime_output_for_persist() {
    let mut session = with_panes(&["pane-1"]);
    let mut runtime = new_runtime(1, pane("pane-1", "echo"), 16_000, 1);
    let bytes = b"hello-persist-marker\r\n";
    let taken = take_output(&mut runtime, 1, bytes).expect("its own run");
    settle_output(&mut runtime, 1, taken.text, &Vec::new(), AgentStatus::Unknown, false, 2);
    let full = collect_pane("pane-1", &mut runtime, Depth::Full);
    snapshot(&mut session, &Vec::new(), &vec![full], None, 16_000, 3);
    let pane = of(&session, "pane-1");
    assert!(
        pane.output.contains("hello-persist-marker")
            || pane.scrollback.contains("hello-persist-marker"),
        "full snapshot must materialize output; got out={:?} sb={:?}",
        pane.output,
        pane.scrollback
    );
    let light = collect_pane("pane-1", &mut runtime, Depth::Light);
    assert!(light.output.is_none());
    // What a viewer holds a pane to is not saved.
    of_mut(&mut session, "pane-1").view_size = Some(PaneSize { rows: 5, cols: 5 });
    strip_for_save(&mut session.panes);
    assert_eq!(of(&session, "pane-1").view_size, None);
    lean_snapshot(&mut session, &Vec::new());
    assert_eq!(of(&session, "pane-1").scrollback, "");
}

#[test]
fn depth_follows_the_request() {
    let keep = vec!["pane-1".to_string()];
    assert_eq!(depth_for(false, None, "pane-1"), Depth::Light);
    assert_eq!(depth_for(true, None, "pane-1"), Depth::Full);
    assert_eq!(depth_for(true, Some(&keep), "pane-1"), Depth::Full);
    assert_eq!(depth_for(true, Some(&keep), "pane-2"), Depth::Lean);
}

#[test]
fn a_pane_is_identified_or_not() {
    let session = with_panes(&["pane-1"]);
    let id = identify(&session, None).unwrap();
    assert_eq!(id.workspace, 0);
    assert_eq!(id.pane, 0);
    assert!(matches!(identify(&session, Some("pane-9")), Err(IdentifyError::Detached(_) | IdentifyError::Unknown(_))));
    let empty = Session::new("e");
    assert!(matches!(identify(&empty, None), Err(IdentifyError::NoActive)));
}

#[test]
fn a_screen_is_read_with_its_history() {
    let mut runtime = new_runtime(1, pane("pane-1", "sh"), 16_000, 1);
    assert!(resize_runtime(&mut runtime, PaneSize { rows: 2, cols: 20 }));
    assert!(!resize_runtime(&mut runtime, PaneSize { rows: 2, cols: 20 }));
    let bytes = b"a\r\nb\r\nc\r\nd";
    let taken = take_output(&mut runtime, 1, bytes).expect("its own run");
    settle_output(&mut runtime, 1, taken.text, &Vec::new(), AgentStatus::Unknown, false, 2);
    let reading = read_screen(&mut runtime, true, None, false, 10);
    assert_eq!(reading.screen, "c\nd");
    assert_eq!(reading.history.unwrap(), ["a", "b"]);
    assert!(reading.scrollback.unwrap().contains("a"));
    assert_eq!(reading.live.unwrap().1, (1, 1));
    let mut stored = pane("pane-1", "sh");
    stored.output = "kept".to_string();
    let reading = read_stored(&stored, false, None);
    assert_eq!(reading.screen, "kept");
    assert!(reading.live.is_none());
    assert_eq!(copy_stored(&stored, false, None), "kept");
    clear_record(&mut stored, true, 9);
    assert_eq!(stored.output, "");
    assert!(stored.alternate_scroll_mode);
    assert!(cleared_message(PaneSize { rows: 24, cols: 80 }).contains("80"));
}

#[test]
fn a_zoomed_pane_keeps_viewers_out() {
    let mut session = with_panes(&["pane-1"]);
    assert!(mark_view(&mut session, "pane-1", PaneSize { rows: 5, cols: 6 }).is_ok());
    assert_eq!(of(&session, "pane-1").view_size, Some(PaneSize { rows: 5, cols: 6 }));
    session.workspaces[0].zoomed_pane = Some("pane-1".to_string());
    assert!(matches!(mark_view(&mut session, "pane-1", PaneSize { rows: 5, cols: 6 }), Err(ViewError::Zoomed(_))));
    assert!(matches!(mark_view(&mut session, "pane-9", PaneSize { rows: 5, cols: 6 }), Err(ViewError::Unknown(_))));
}

#[test]
fn restarts_keep_the_command_unless_told() {
    assert_eq!(restart_command(None, "make", "sh"), "make");
    assert_eq!(restart_command(Some("ls".to_string()), "make", "sh"), "ls");
    assert_eq!(restart_command(Some(" ".to_string()), "make", "sh"), "sh");
    assert!(restart_refused(true, false, true));
    assert!(restart_refused(false, true, true));
    assert!(!restart_refused(false, false, true));
    assert!(!restart_refused(true, false, false));
}

#[test]
fn tabs_come_go_and_keep_their_panes() {
    let mut session = with_panes(&["pane-1"]);
    let ws = &mut session.workspaces[0];
    ws.tabs[0].panes = vec!["pane-1".to_string()];
    let second = add_tab(ws, "second").unwrap();
    assert_eq!(second, "tab-2");
    assert_eq!(ws.active_tab.as_deref(), Some("tab-2"));
    assert!(ws.panes.is_empty());
    // The first tab shows what it showed.
    assert!(switch_tab(ws, "tab-1"));
    assert_eq!(ws.panes, ["pane-1"]);
    assert!(!switch_tab(ws, "tab-9"));
    rename_tab(ws, 1, "build".to_string());
    assert_eq!(ws.tabs[1].title, "build");
    assert!(ws.tabs[1].title_locked);
    assert!(close_tab(ws, 1).is_empty());
    // A number is not given twice.
    assert_eq!(add_tab(ws, "third").unwrap(), "tab-3");
}

#[test]
fn a_title_given_by_hand_stays() {
    let mut session = with_panes(&["pane-1"]);
    session.workspaces[0].tabs[0].panes = vec!["pane-1".to_string()];
    assert!(auto_title_tab(&mut session, "pane-1", "fix parser"));
    assert_eq!(session.workspaces[0].tabs[0].title, "fix parser");
    rename_tab(&mut session.workspaces[0], 0, "mine".to_string());
    assert!(!auto_title_tab(&mut session, "pane-1", "other"));
    assert_eq!(session.workspaces[0].tabs[0].title, "mine");
}

#[test]
fn a_pane_that_is_taken_is_nowhere() {
    let mut session = with_panes(&["pane-1", "pane-2"]);
    assert_eq!(take_pane(&mut session, "pane-1").unwrap().id, "pane-1");
    assert!(find_pane(&session.panes, "pane-1").is_none());
    assert_eq!(session.workspaces[0].panes, ["pane-2"]);
    assert_eq!(session.workspaces[0].active_pane.as_deref(), Some("pane-2"));
    assert!(take_pane(&mut session, "pane-1").is_none());
}

#[test]
fn directories_of_the_daemon_are_mended() {
    let mut session = Session::new("t");
    session.workspaces[0].cwd = "/".to_string();
    session.workspaces.push(Workspace::new("ws-2", "b"));
    session.workspaces[1].cwd = "/srv".to_string();
    repair_workspace_cwds(&mut session.workspaces, "/home/me");
    assert_eq!(session.workspaces[0].cwd, "/home/me");
    assert_eq!(session.workspaces[1].cwd, "/srv");
}

#[test]
fn titles_come_from_the_window_or_a_summary() {
    let settings = TitleSettings { llm_fallback: true, llm_delay_ms: 1_000 };
    let mut runtime = new_runtime(1, pane("pane-1", "codex"), 16_000, 0);
    let update = agent_title_update(&mut runtime, Some("fix parser".to_string()), true, &settings, "screen", 1);
    assert_eq!(update.title.as_deref(), Some("fix parser"));
    assert!(!update.summarize);
    let mut quiet = new_runtime(1, pane("pane-1", "codex"), 16_000, 0);
    quiet.pane.agent_status = AgentStatus::Busy;
    let update = agent_title_update(&mut quiet, None, true, &settings, "some screen", 100);
    assert!(update.summarize);
    let prompt = llm_tab_title_prompt("agent is Refactoring the OSC parser");
    assert!(prompt.ends_with("agent is Refactoring the OSC parser"));
}

#[test]
fn e2e_restart_preserves_scrollback_across_save_reload() {
    let marker = "vmux-e2e-restart-marker-42";
    let mut session = with_panes(&["pane-1", "pane-2"]);
    let mut runtime = new_runtime(1, pane("pane-1", "printf e2e"), 16_000, 1);
    runtime.pane.status = PaneStatus::Running;
    let bytes = format!("{marker}\r\n");
    let taken = take_output(&mut runtime, 1, bytes.as_bytes()).expect("its own run");
    settle_output(&mut runtime, 1, taken.text, &vec![], AgentStatus::Unknown, false, 9);
    runtime.pane.output.clear();
    runtime.pane.scrollback.clear();
    let collected = vec![collect_pane("pane-1", &mut runtime, Depth::Full)];
    snapshot(&mut session, &vec![], &collected, None, 16_000, 9);
    strip_for_save(&mut session.panes);
    assert!(of(&session, "pane-1").scrollback.contains(marker));
    assert!(of(&session, "pane-1").output.contains(marker));
    mark_restored(&mut session.panes);
    let loaded = of(&session, "pane-1");
    assert!(loaded.scrollback.contains(marker));
    assert!(loaded.output.contains(marker));
    assert_eq!(loaded.status, PaneStatus::Restored);
    assert!(session.panes.iter().all(|p| p.view_size.is_none()));
    // The next save and load keep it too.
    strip_for_save(&mut session.panes);
    mark_restored(&mut session.panes);
    assert!(of(&session, "pane-1").scrollback.contains(marker));
    assert!(of(&session, "pane-1").output.contains(marker));
}

#[test]
fn what_another_run_wrote_changes_nothing() {
    let mut runtime = new_runtime(2, pane("pane-1", "sh"), 16_000, 1);
    assert!(take_output(&mut runtime, 1, b"late\x1b]9;look\x07").is_none());
    assert_eq!(live_screen(&runtime).contents(), "");
    assert_eq!(runtime.output_generation, 0);
    let light = settle_output(
        &mut runtime,
        1,
        "late".to_string(),
        &vec!["look".to_string()],
        AgentStatus::Attention,
        true,
        9,
    );
    assert!(light.is_none());
    assert_eq!(runtime.output.len(), 0);
    assert_eq!(runtime.pane.agent_status, AgentStatus::Unknown);
    let mut daemon = daemon(with_panes(&["pane-1"]));
    let notes = vec!["look".to_string()];
    assert!(!append_output(&mut daemon, "pane-1", "pane-1", light.as_ref(), &notes, 9));
    assert_eq!(daemon.generation, 0);
    assert!(daemon.session.notifications.is_empty());
}

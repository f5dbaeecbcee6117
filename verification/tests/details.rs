//! Smaller decisions: which pane, which workspace, which status, which key.

use vmux::browser::evaluate::EvalError;
use vmux::browser::forms::html_form_fields;
use vmux::browser::network::FetchError;
use vmux::browser::open::LinkError;
use vmux::browser::refusals::{evaluation_message, fetch_message, link_message, url_message};
use vmux::browser::url::UrlError;
use vmux::cli::hooks::{hook_kind, HookKind};
use vmux::daemon::capture::{
    clear_runtime, copy_live, runtime_key_for, runtime_keys_of, unmark_views, ViewError,
};
use vmux::daemon::dispatch::DispatchError;
use vmux::daemon::handlers::{find_pane_location, jump_target, pane_is_zoomed, PaneError};
use vmux::daemon::lifecycle::record_restored;
use vmux::daemon::live::{live_screen, new_runtime, settle_output, take_output};
use vmux::daemon::navigate::{remove_pane_anywhere, wait_targets, TargetError};
use vmux::daemon::osc::osc_notification_message;
use vmux::daemon::panes::{notification_workspace, resolve_workspace_tab_id, TabError};
use vmux::daemon::places::{cwd_from, normalize_cwd, project_files, SearchDir};
use vmux::daemon::refusals::dispatch_message;
use vmux::daemon::runtime::legacy_runtime_key;
use vmux::daemon::session::record_note;
use vmux::daemon::snapshot::{agent_summary, event_workspace, overlay_meta, WorkspaceMeta};
use vmux::daemon::status::{
    apply_explicit_agent_status, is_boilerplate_lifecycle_message, is_settled_after_turn,
    should_skip_busy_after_settled,
};
use vmux::daemon::titles::{
    note_agent_inside, pane_runs_agent, summarizer_argv, summarizer_from, SummarizerError,
};
use vmux::daemon::workspaces::{
    drop_panes, link_pane, set_workspace_cwd, set_workspace_pinned,
};
use vmux::model::{
    insert_pane, AgentStatus, EventRecord, ListeningPort, Notification, Pane, PaneSize, PaneStatus,
    Session, Workspace,
};

fn pane(id: &str) -> Pane {
    Pane::new(id.to_string(), "sh".to_string(), 1)
}

fn session(ids: &[&str]) -> Session {
    let mut session = Session::new("test");
    for id in ids {
        insert_pane(&mut session.panes, pane(id));
        link_pane(&mut session.workspaces[0], id);
    }
    session
}

fn note(pane: Option<&str>, workspace: Option<&str>, message: &str) -> Notification {
    Notification {
        time: 1,
        pane: pane.map(String::from),
        workspace: workspace.map(String::from),
        status: Some("attention".to_string()),
        color: None,
        clear: false,
        message: message.to_string(),
    }
}

#[test]
fn routine_messages_are_told_from_news() {
    assert!(is_boilerplate_lifecycle_message(" Agent Working "));
    assert!(is_boilerplate_lifecycle_message("end_turn"));
    assert!(!is_boilerplate_lifecycle_message("agent working hard"));
}

#[test]
fn a_late_busy_report_is_skipped_only_after_a_turn() {
    let mut p = pane("pane-1");
    assert!(!is_settled_after_turn(&p));
    assert!(!should_skip_busy_after_settled(&p, "busy", "agent working", false));
    p.agent_status = AgentStatus::Done;
    assert!(is_settled_after_turn(&p));
    assert!(should_skip_busy_after_settled(&p, "busy", "agent working", false));
    assert!(!should_skip_busy_after_settled(&p, "busy", "agent working", true));
    assert!(!should_skip_busy_after_settled(&p, "busy", "fix auth", false));
    assert!(!should_skip_busy_after_settled(&p, "attention", "agent working", false));
    p.agent_status = AgentStatus::Idle;
    assert!(!is_settled_after_turn(&p));
    p.agent_status_pinned = true;
    assert!(is_settled_after_turn(&p));
}

#[test]
fn an_explicit_status_sets_the_banner() {
    let mut p = pane("pane-1");
    apply_explicit_agent_status(&mut p, "attention", None, "which file?", 9);
    assert_eq!(p.agent_status, AgentStatus::Attention);
    assert!(p.agent_status_pinned);
    assert_eq!(p.notification_color.as_deref(), Some("blue"));
    assert_eq!(p.notification_message.as_deref(), Some("which file?"));
    apply_explicit_agent_status(&mut p, "done", Some("green"), "finished", 10);
    assert_eq!(p.agent_status, AgentStatus::Done);
    assert_eq!(p.notification_color.as_deref(), Some("green"));
    assert_eq!(p.notification_message, None);
    apply_explicit_agent_status(&mut p, "unheard-of", None, "hello", 11);
    assert_eq!(p.agent_status, AgentStatus::Unknown);
    assert!(!p.agent_status_pinned);
    assert_eq!(p.notification_message.as_deref(), Some("hello"));
}

#[test]
fn osc_payloads_become_messages() {
    assert_eq!(osc_notification_message("9;hello"), Some("hello".to_string()));
    assert_eq!(osc_notification_message("9;4;1;50"), None);
    assert_eq!(osc_notification_message("9;17"), None);
    assert_eq!(osc_notification_message("2;title"), None);
}

#[test]
fn hook_events_have_their_kinds() {
    assert_eq!(hook_kind("Stop"), HookKind::Finished);
    assert_eq!(hook_kind("SubagentStop"), HookKind::Working);
    assert_eq!(hook_kind("stop_failure"), HookKind::Failed);
    assert_eq!(hook_kind("permission-request"), HookKind::NeedsInput);
    assert_eq!(hook_kind("PreToolUse"), HookKind::Working);
    assert_eq!(hook_kind("tool.error"), HookKind::Failed);
    assert_eq!(hook_kind("whatever"), HookKind::Other);
}

#[test]
fn form_fields_are_read_in_order() {
    let fields = html_form_fields("<input name=\"q\" value=\"rust\"><textarea name=\"t\">hi</textarea>");
    let got: Vec<(&str, &str, &str)> =
        fields.iter().map(|f| (f.name.as_str(), f.kind.as_str(), f.value.as_str())).collect();
    assert_eq!(got, vec![("q", "text", "rust"), ("t", "textarea", "hi")]);
}

#[test]
fn panes_are_found_in_workspaces_and_tabs() {
    let mut s = session(&["pane-1", "pane-2"]);
    let at = find_pane_location(&s.workspaces, "pane-2").expect("it is there");
    assert_eq!(at.workspace, 0);
    assert!(find_pane_location(&s.workspaces, "pane-9").is_none());
    assert!(!pane_is_zoomed(&s.workspaces, "pane-1"));
    s.workspaces[0].zoomed_pane = Some("pane-1".to_string());
    assert!(pane_is_zoomed(&s.workspaces, "pane-1"));
    assert!(!pane_is_zoomed(&s.workspaces, "pane-2"));
    let rows = agent_summary(&s);
    assert_eq!(rows.len(), 2);
    assert_eq!((rows[1].workspace, rows[1].pane), (0, 1));
    remove_pane_anywhere(&mut s.workspaces[0], "pane-1");
    assert_eq!(s.workspaces[0].panes, vec!["pane-2"]);
    assert_eq!(s.workspaces[0].zoomed_pane, None);
    assert!(!s.workspaces[0].contains_pane("pane-1"));
}

#[test]
fn notices_and_events_lead_to_a_workspace() {
    let mut s = session(&["pane-1"]);
    let id = s.workspaces[0].id.clone();
    s.workspaces.push(Workspace::new("workspace-2", "two"));
    let by_pane = notification_workspace(&s, &note(Some("pane-1"), None, "m")).expect("held");
    assert_eq!(by_pane.id, id);
    let by_name = note(Some("pane-1"), Some("workspace-2"), "m");
    assert_eq!(notification_workspace(&s, &by_name).expect("named").id, "workspace-2");
    assert!(notification_workspace(&s, &note(Some("pane-1"), Some("gone"), "m")).is_none());
    assert!(notification_workspace(&s, &note(None, None, "m")).is_none());
    let mut event = EventRecord {
        id: 1,
        time: 1,
        kind: "k".to_string(),
        pane: Some("pane-1".to_string()),
        workspace: Some("workspace-2".to_string()),
        status: None,
        key: None,
        value: None,
        message: String::new(),
    };
    assert_eq!(event_workspace(&s.workspaces, &event), Some(1));
    event.workspace = Some("gone".to_string());
    assert_eq!(event_workspace(&s.workspaces, &event), Some(0));
    event.pane = None;
    assert_eq!(event_workspace(&s.workspaces, &event), None);
}

#[test]
fn waits_name_their_panes() {
    let mut s = session(&["pane-1", "pane-2"]);
    assert_eq!(wait_targets(&s, None, None, true).expect("all"), vec!["pane-1", "pane-2"]);
    assert_eq!(wait_targets(&s, None, Some(0), false).expect("one workspace").len(), 2);
    assert_eq!(wait_targets(&s, Some("pane-2"), None, false).expect("one"), vec!["pane-2"]);
    assert!(matches!(
        wait_targets(&s, Some("pane-9"), None, false),
        Err(TargetError::Pane(PaneError::Unknown(_)))
    ));
    s.workspaces.push(Workspace::new("workspace-2", "two"));
    assert!(matches!(wait_targets(&s, None, Some(1), false), Err(TargetError::NoPanes)));
}

#[test]
fn tabs_are_named_by_id_or_title() {
    let s = session(&[]);
    assert_eq!(resolve_workspace_tab_id(&s.workspaces[0], "main").expect("by title"), "tab-1");
    assert_eq!(resolve_workspace_tab_id(&s.workspaces[0], "tab-1").expect("by id"), "tab-1");
    assert!(matches!(
        resolve_workspace_tab_id(&s.workspaces[0], "other"),
        Err(TabError::Unknown(_))
    ));
}

#[test]
fn running_panes_have_keys() {
    let s = session(&["pane-1"]);
    assert_eq!(legacy_runtime_key("pane-1"), "pane-1");
    assert_eq!(runtime_key_for(&s.panes, "pane-9"), "pane-9");
    let keys: Vec<String> =
        ["pane-1", "pane-1::tab-2", "pane-10", "pane-2::tab-1"].iter().map(|k| k.to_string()).collect();
    assert_eq!(runtime_keys_of(&keys, "pane-1"), vec!["pane-1", "pane-1::tab-2"]);
}

#[test]
fn workspaces_are_changed_in_place() {
    let mut s = session(&["pane-1", "pane-2"]);
    set_workspace_cwd(&mut s, 0, "/srv".to_string());
    assert_eq!(s.workspaces[0].cwd, "/srv");
    set_workspace_pinned(&mut s, 0, true);
    assert!(s.workspaces[0].pinned);
    drop_panes(&mut s.panes, &vec!["pane-1".to_string()]);
    assert_eq!(s.panes.len(), 1);
    assert_eq!(s.panes[0].id, "pane-2");
    s.panes[0].view_size = Some(PaneSize { rows: 10, cols: 10 });
    unmark_views(&mut s.panes, &vec!["pane-9".to_string()]);
    assert!(s.panes[0].view_size.is_some());
    unmark_views(&mut s.panes, &vec!["pane-2".to_string()]);
    assert!(s.panes[0].view_size.is_none());
}

#[test]
fn what_was_found_is_laid_over_a_workspace() {
    let mut s = session(&[]);
    let id = s.workspaces[0].id.clone();
    let port = ListeningPort {
        host: "127.0.0.1".to_string(),
        port: 3000,
        pids: vec![7],
        process: None,
        pane: None,
    };
    let metas = vec![WorkspaceMeta {
        workspace: id,
        git_branch: Some("main".to_string()),
        ports: vec![port],
        cwd: Some("/srv".to_string()),
    }];
    overlay_meta(&mut s.workspaces, &metas);
    assert_eq!(s.workspaces[0].git_branch.as_deref(), Some("main"));
    assert_eq!(s.workspaces[0].ports.len(), 1);
    assert_eq!(s.workspaces[0].ports[0].port, 3000);
}

#[test]
fn a_notice_is_recorded_once() {
    let mut s = session(&["pane-1"]);
    assert!(record_note(&mut s, &note(Some("pane-1"), None, "which file?")));
    assert!(!record_note(&mut s, &note(Some("pane-1"), None, "which file?")));
    assert_eq!(s.notifications.len(), 1);
    assert_eq!(jump_target(&s.notifications), Some(0));
}

#[test]
fn a_restored_pane_is_recorded_while_it_runs() {
    let mut s = session(&["pane-1"]);
    s.panes[0].status = PaneStatus::Running;
    let mut restored = pane("pane-1");
    restored.status = PaneStatus::Running;
    restored.scrollback = "before".to_string();
    record_restored(&mut s, restored);
    assert_eq!(s.panes[0].scrollback, "before");
    s.panes[0].status = PaneStatus::Exited;
    record_restored(&mut s, pane("pane-1"));
    assert_eq!(s.panes[0].status, PaneStatus::Exited);
    record_restored(&mut s, pane("pane-9"));
    assert_eq!(s.panes.len(), 1);
}

#[test]
fn an_agent_inside_is_remembered_for_a_while() {
    let mut runtime = new_runtime(1, pane("pane-1"), 16_000, 1);
    assert_eq!(pane_runs_agent(&runtime, true, 50), Some(true));
    assert_eq!(pane_runs_agent(&runtime, false, 50), Some(false));
    runtime.pane.pid = Some(7);
    assert_eq!(pane_runs_agent(&runtime, false, 50), None);
    note_agent_inside(&mut runtime, true, 50);
    assert_eq!(pane_runs_agent(&runtime, false, 51), Some(true));
    assert_eq!(pane_runs_agent(&runtime, false, 5000), None);
}

#[test]
fn a_cleared_terminal_keeps_nothing() {
    let mut runtime = new_runtime(1, pane("pane-1"), 16_000, 1);
    let bytes = b"\x1b[?1049h\x1b[?1000h\x1b[?1006hhello\r\n";
    let taken = take_output(&mut runtime, 1, bytes).expect("its own run");
    settle_output(&mut runtime, 1, taken.text, &vec![], AgentStatus::Unknown, false, 9);
    assert!(copy_live(&runtime, true, None).ends_with("hello\r\n"));
    assert!(copy_live(&runtime, false, None).contains("hello"));
    clear_runtime(&mut runtime);
    assert_eq!(copy_live(&runtime, false, None), "");
    assert_eq!(copy_live(&runtime, true, None), "");
    // What the program asked for once stays.
    let screen = live_screen(&runtime);
    assert!(screen.alternate_screen());
    assert_eq!(screen.mouse_protocol_mode(), vt100::MouseProtocolMode::PressRelease);
    assert_eq!(screen.size(), (24, 80));
    assert_eq!(runtime.output.len(), 0);
    assert_eq!(runtime.output_bytes, 0);
}

#[test]
fn normalize_cwd_rejects_missing_directory() {
    let now = std::time::SystemTime::now()
        .duration_since(std::time::UNIX_EPOCH)
        .expect("the clock runs")
        .as_secs();
    let missing = cwd_from(Some(&format!("/tmp/vmux-missing-{now}")), "/");
    let is_dir = std::path::Path::new(&missing).is_dir();
    let err = normalize_cwd(missing, is_dir).unwrap_err().message();
    assert!(err.contains("workspace cwd is not a directory"));
}

#[test]
fn a_directory_is_read_from_where_the_user_started() {
    assert_eq!(cwd_from(Some("src"), "/home/me"), "/home/me/src");
    assert_eq!(cwd_from(Some("src"), "/"), "/src");
    assert_eq!(cwd_from(Some("/srv"), "/home/me"), "/srv");
    assert_eq!(cwd_from(None, "/home/me"), "/home/me");
    assert_eq!(normalize_cwd("/srv".to_string(), true).expect("a directory"), "/srv");
    for (base, path) in [("/home/me", "src"), ("/", "src"), ("", "src"), ("/a/", ""), ("/a", "/b")] {
        let std = std::path::Path::new(base).join(path);
        assert_eq!(cwd_from(Some(path), base), std.to_str().expect("text"));
    }
}

fn dirs(paths: &[&str]) -> Vec<SearchDir> {
    paths.iter().map(|p| SearchDir { path: p.to_string(), shared: false }).collect()
}

#[test]
fn project_files_end_at_home() {
    let up = dirs(&["/home/me/work", "/home/me", "/home", "/"]);
    let near = [
        "/home/me/work/vmux.json",
        "/home/me/work/.vmux.json",
        "/home/me/vmux.json",
        "/home/me/.vmux.json",
    ];
    assert_eq!(project_files(&up, Some("/home/me")), near);
    let all = project_files(&up, None);
    assert_eq!(all.len(), 8);
    assert_eq!(all[7], "/.vmux.json");
    // Outside the home directory all is looked at that is not shared.
    let up = dirs(&["/srv/proj", "/srv", "/"]);
    assert!(project_files(&up, Some("/home/me")).contains(&"/srv/vmux.json".to_string()));
}

#[test]
fn project_files_are_not_taken_from_where_all_may_write() {
    let mut up = dirs(&["/tmp/proj", "/tmp", "/"]);
    up[1].shared = true;
    assert_eq!(
        project_files(&up, Some("/home/me")),
        ["/tmp/proj/vmux.json", "/tmp/proj/.vmux.json"]
    );
}

#[test]
fn ancestors_of_a_workspace_are_looked_at() {
    let mut up = dirs(&[
        "/tmp/base/repo/crates/app",
        "/tmp/base/repo/crates",
        "/tmp/base/repo",
        "/tmp/base",
        "/tmp",
        "/",
    ]);
    up[4].shared = true;
    let files = project_files(&up, Some("/home/me"));
    assert_eq!(files[0], "/tmp/base/repo/crates/app/vmux.json");
    assert!(files.contains(&"/tmp/base/repo/vmux.json".to_string()));
    assert!(files.contains(&"/tmp/base/vmux.json".to_string()));
    assert!(!files.contains(&"/tmp/vmux.json".to_string()));
    assert!(!files.contains(&"/vmux.json".to_string()));
}

#[test]
fn refusals_are_put_into_words() {
    let unknown = DispatchError::Pane(PaneError::Unknown("pane-9".to_string()));
    assert_eq!(dispatch_message(&unknown), "unknown pane pane-9");
    let twice = DispatchError::Tab(TabError::Ambiguous("main".to_string()));
    assert_eq!(dispatch_message(&twice), "tab selector main is ambiguous");
    let zoomed = DispatchError::View(ViewError::Zoomed("pane-1".to_string()));
    assert_eq!(dispatch_message(&zoomed), "pane pane-1 is zoomed; not applying a view size");
    assert_eq!(dispatch_message(&DispatchError::NothingCopied), "clipboard is empty");
    assert_eq!(
        link_message(&LinkError::OutOfRange(7)),
        "link index 7 out of range"
    );
    assert_eq!(url_message(&UrlError::NoHost), "URL is missing a host");
    assert_eq!(
        evaluation_message(&EvalError::FormHasNoField(2, "id".to_string())),
        "form index 2 has no field id"
    );
    assert_eq!(
        fetch_message("url forms", &FetchError::TooLarge(3_000_000)),
        "url forms response too large (3000000 bytes; max 2097152)"
    );
}

#[test]
fn the_summarizer_is_read_from_its_command() {
    assert_eq!(summarizer_argv("agent -p 'one line'").expect("it is set"), vec!["agent", "-p", "one line"]);
    let open = summarizer_argv("agent 'x").unwrap_err();
    assert_eq!(open.message(), "invalid agent_titles.llm_command: agent 'x");
    assert_eq!(summarizer_argv("  ").unwrap_err().message(), "agent_titles.llm_command is empty");
    assert!(matches!(summarizer_from("x", None), Err(SummarizerError::Invalid(_))));
}

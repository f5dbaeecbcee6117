//! Requests to a daemon, workspaces, and how it starts and stops.

use vmux::daemon::dispatch::{
    dispatch, focus_next, touch, use_cwd, Answer, CwdUse, Daemon, DispatchError, LayoutStep, Step,
};
use vmux::daemon::finish::{
    forget_shown, free_views, hold_view, keep_copied, link_started, note_input, publish_started,
    swap_beside, take_killed,
};
use vmux::daemon::plans::{
    action_plan, answer_line, branch_name, check_actions, choose_command, decay_panes,
    decay_stale_busy, duplicate_plan, ensure_initial_pane, find_pid, meta_target, new_pane,
    over_limit, restore_targets, ActionError, CustomAction, DuplicateError, PanePlan,
    BUSY_IDLE_DECAY_SECS,
};
use vmux::daemon::startup::{
    ensure_running, is_running, serve_foreground, stale_files, start_outcome, stop_plan,
    EnsureState, ServeStep, StartOutcome, StopPlan,
};
use vmux::daemon::workspaces::{
    close_workspace, focus_pane, kill_pane, move_pane, move_workspace, new_workspace,
    prune_exited, rename_workspace, select_workspace, swap_panes, switch_workspace, FocusError,
    SelectError,
};
use vmux::model::{
    find_pane, insert_pane, touch_agent_status, AgentStatus, BroadcastScope, Pane, PaneSize,
    PaneStatus, Session, SplitDirection, Workspace,
};
use vmux::protocol::Request;

fn daemon() -> Daemon {
    let mut session = Session::new("test");
    session.workspaces[0].cwd = "/srv".to_string();
    Daemon {
        session,
        next_pane: 1,
        next_workspace: 2,
        generation: 0,
        pane_size_owner: None,
        shutting_down: false,
    }
}

fn with_panes(ids: &[&str]) -> Daemon {
    let mut d = daemon();
    for id in ids {
        insert_pane(&mut d.session.panes, Pane::new(id.to_string(), "sh".to_string(), 1));
        d.session.workspaces[0].panes.push(id.to_string());
        d.next_pane += 1;
    }
    d.session.workspaces[0].active_pane = ids.first().map(|s| s.to_string());
    d.session.workspaces[0].tabs[0].panes = d.session.workspaces[0].panes.clone();
    d
}

fn some(text: &str) -> Option<String> {
    Some(text.to_string())
}

#[test]
fn mutating_requests_bump_the_generation_counter() {
    let mut d = daemon();

    // A directory is looked up outside before the workspace comes.
    let before = d.generation;
    let step = dispatch(&mut d, Request::NewWorkspace { name: "gen-ws".into(), cwd: None }, 5).unwrap();
    match step {
        Step::CheckCwd { cwd: None, purpose } => {
            use_cwd(&mut d, purpose, "/srv".to_string()).unwrap();
        }
        _ => panic!("the directory is to be checked"),
    }
    assert!(d.generation > before);

    // The first pane of a tab is started outside, and noted when it runs.
    let before = d.generation;
    match dispatch(
        &mut d,
        Request::NewTab { workspace: None, title: some("gen-tab"), command: None },
        5,
    ) {
        Ok(Step::StartInTab { plan, .. }) => {
            let pane = new_pane(&mut d.next_pane, &plan, "zsh", 5).unwrap();
            let started = d.generation;
            publish_started(&mut d, &pane);
            assert!(link_started(&mut d, &plan.workspace, &pane.id));
            assert!(d.generation > started);
        }
        _ => panic!("a pane is to be started"),
    }
    assert!(d.generation > before);

    let before = d.generation;
    dispatch(
        &mut d,
        Request::RenameWorkspace { workspace: "gen-ws".into(), name: "gen-ws-renamed".into() },
        5,
    )
    .unwrap();
    assert!(d.generation > before);

    // To look changes nothing.
    let before = d.generation;
    dispatch(&mut d, Request::Agents, 5).unwrap();
    assert_eq!(d.generation, before, "a read-only request must not bump the generation");
}

#[test]
fn new_tab_pane_does_not_freeze_the_tab_title() {
    let mut d = daemon();
    let step =
        dispatch(&mut d, Request::NewTab { workspace: None, title: None, command: None }, 5).unwrap();
    match step {
        Step::StartInTab { tab, plan } => {
            assert_eq!(tab, "tab-2");
            let mut next = d.next_pane;
            let pane = new_pane(&mut next, &plan, "zsh", 5).unwrap();
            assert_ne!(pane.title, "tab");
        }
        _ => panic!("a pane is to be started"),
    }
}

#[test]
fn focus_pane_switches_workspace_and_tab() {
    let mut d = daemon();
    let mut ws2 = Workspace::new("ws-2", "other");
    ws2.tabs[0].panes = vec!["pane-9".into()];
    ws2.tabs[0].active_pane = Some("pane-9".into());
    ws2.panes = vec!["pane-9".into()];
    ws2.active_pane = Some("pane-9".into());
    d.session.workspaces.push(ws2);
    insert_pane(&mut d.session.panes, Pane::new("pane-9".into(), "codex".into(), 1));

    assert!(dispatch(&mut d, Request::FocusPane { pane: "pane-9".into() }, 5).is_ok());
    assert_eq!(d.session.active_workspace, "ws-2");
    let ws = d.session.workspaces.iter().find(|w| w.id == "ws-2").expect("ws-2");
    assert_eq!(ws.active_pane.as_deref(), Some("pane-9"));
}

#[test]
fn a_snapshot_is_unchanged_while_nothing_changes() {
    let mut d = daemon();
    let ask = |since| Request::Snapshot { since, full: false, lean: false, scrollback_panes: Vec::new() };
    assert!(matches!(dispatch(&mut d, ask(Some(0)), 1), Ok(Step::Done(Answer::Unchanged { generation: 0 }))));
    assert!(matches!(dispatch(&mut d, ask(None), 1), Ok(Step::Collect(_))));
    touch(&mut d);
    assert_eq!(d.generation, 1);
    assert!(matches!(dispatch(&mut d, ask(Some(0)), 1), Ok(Step::Collect(_))));
    assert!(matches!(dispatch(&mut d, Request::Ping, 1), Ok(Step::Done(Answer::Pong))));
}

#[test]
fn panes_are_planned_written_to_and_removed() {
    let mut d = with_panes(&["pane-1", "pane-2"]);
    match dispatch(
        &mut d,
        Request::NewPane {
            direction: SplitDirection::Right,
            command: "make".to_string(),
            title: None,
            workspace: None,
            surface_kind: None,
        },
        5,
    ) {
        Ok(Step::Start(plan)) => {
            assert_eq!(plan.command, "make");
            assert_eq!(plan.workspace, "ws-1");
            assert_eq!(plan.cwd, "/srv");
        }
        _ => panic!("a pane is to be started"),
    }
    assert!(matches!(
        dispatch(&mut d, Request::Input { pane: None, data: "x".to_string() }, 5),
        Ok(Step::Write { pane, data }) if pane == "pane-1" && data == "x"
    ));
    assert!(matches!(
        dispatch(&mut d, Request::SendKey { pane: some("pane-2"), keys: vec!["C-c".to_string()] }, 5),
        Ok(Step::Write { pane, data }) if pane == "pane-2" && data == "\x03"
    ));
    assert!(matches!(
        dispatch(&mut d, Request::SendKey { pane: None, keys: Vec::new() }, 5),
        Err(DispatchError::Keys(_))
    ));
    assert!(matches!(
        dispatch(&mut d, Request::Broadcast { scope: BroadcastScope::Workspace, data: "y".to_string() }, 5),
        Ok(Step::Broadcast { panes, .. }) if panes.len() == 2
    ));
    assert!(matches!(
        dispatch(&mut d, Request::KillPane { pane: None }, 5),
        Ok(Step::Kill { pane }) if pane == "pane-1"
    ));
    assert!(matches!(
        dispatch(&mut d, Request::KillPane { pane: some("pane-9") }, 5),
        Err(DispatchError::Pane(_))
    ));
    assert!(matches!(
        dispatch(&mut d, Request::DuplicatePane { pane: None, direction: SplitDirection::Down }, 5),
        Ok(Step::Start(plan)) if plan.command == "sh"
    ));
}

#[test]
fn requests_are_refused_for_their_reasons() {
    let mut d = with_panes(&["pane-1"]);
    assert!(matches!(
        dispatch(&mut d, Request::SwitchWorkspace { workspace: "nowhere".to_string() }, 5),
        Err(DispatchError::Select(SelectError::Unknown(w))) if w == "nowhere"
    ));
    assert!(matches!(
        dispatch(&mut d, Request::CloseWorkspace { workspace: None }, 5),
        Err(DispatchError::LastWorkspace)
    ));
    assert!(matches!(
        dispatch(&mut d, Request::CloseTab { workspace: None, tab: "tab-1".to_string() }, 5),
        Err(DispatchError::LastTab)
    ));
    assert!(matches!(
        dispatch(&mut d, Request::Search { pane: None, query: String::new() }, 5),
        Err(DispatchError::EmptyQuery)
    ));
    assert!(matches!(
        dispatch(&mut d, Request::Paste { pane: None, enter: false }, 5),
        Err(DispatchError::NothingCopied)
    ));
    assert!(matches!(
        dispatch(&mut d, Request::SwapPanes { first: "pane-1".to_string(), second: "pane-9".to_string() }, 5),
        Err(DispatchError::NotTogether)
    ));
    assert!(matches!(
        dispatch(&mut d, Request::JumpNotification, 5),
        Err(DispatchError::Jump(_))
    ));
    assert!(matches!(
        dispatch(&mut d, Request::SetPaneTitle { pane: None, title: " ".to_string() }, 5),
        Err(DispatchError::Title(_))
    ));
    assert!(matches!(
        dispatch(&mut d, Request::RunCustomAction { name: " ".to_string(), workspace: None }, 5),
        Err(DispatchError::EmptyActionName)
    ));
    assert!(matches!(
        dispatch(
            &mut d,
            Request::RestartPane { pane: None, workspace: None, all: true, command: some("ls") },
            5
        ),
        Err(DispatchError::CommandForMany)
    ));
    assert!(matches!(dispatch(&mut d, Request::PaneTabs, 5), Err(DispatchError::NoPaneTabs)));
    assert_eq!(d.generation, 0, "what is refused changes nothing");
}

#[test]
fn sizes_views_and_layouts_are_handed_on() {
    let mut d = with_panes(&["pane-1"]);
    let sizes = || vec![("pane-1".to_string(), PaneSize { rows: 10, cols: 20 })];
    assert!(matches!(
        dispatch(
            &mut d,
            Request::PaneSizes { panes: sizes(), client_id: some("desktop"), take_control: true },
            5
        ),
        Ok(Step::Sizes { .. })
    ));
    assert_eq!(d.pane_size_owner.as_deref(), Some("desktop"));
    assert!(!matches!(
        dispatch(
            &mut d,
            Request::PaneSizes { panes: sizes(), client_id: some("phone"), take_control: false },
            5
        ),
        Ok(Step::Sizes { .. })
    ));
    assert!(matches!(
        dispatch(
            &mut d,
            Request::SetPaneViewSize { pane: "pane-1".to_string(), cols: 4, rows: 5, lease_ms: 900 },
            5
        ),
        Ok(Step::ViewSize { lease_ms: 900, .. })
    ));
    assert!(matches!(
        dispatch(&mut d, Request::Resize { direction: SplitDirection::Up, amount: 3 }, 5),
        Ok(Step::Layout(LayoutStep::Resize { delta: -3, .. }))
    ));
    assert!(matches!(
        dispatch(&mut d, Request::FocusDirection { direction: SplitDirection::Left }, 5),
        Ok(Step::Layout(LayoutStep::Focus(SplitDirection::Left)))
    ));
    assert!(focus_next(&mut d, some("pane-1"), 6).is_ok());
    assert!(matches!(dispatch(&mut d, Request::Shutdown, 5), Ok(Step::ShutDown)));
    assert!(d.shutting_down);
}

#[test]
fn a_workspace_is_chosen_by_id_or_name() {
    let mut session = Session::new("t");
    let mut next = 2;
    new_workspace(&mut session, &mut next, "build".to_string(), "/b".to_string());
    new_workspace(&mut session, &mut next, "build".to_string(), "/c".to_string());
    assert_eq!(next, 4);
    assert_eq!(session.workspaces[1].id, "ws-2");
    assert_eq!(session.workspaces[2].cwd, "/c");
    assert_eq!(select_workspace(&session, Some("ws-3")).unwrap(), 2);
    assert!(matches!(select_workspace(&session, Some("build")), Err(SelectError::Ambiguous(s)) if s == "build"));
    assert!(matches!(select_workspace(&session, Some("x")), Err(SelectError::Unknown(_))));
    rename_workspace(&mut session, 1, "deploy".to_string());
    assert_eq!(select_workspace(&session, Some("build")).unwrap(), 2);
    switch_workspace(&mut session, 1, 5);
    assert_eq!(select_workspace(&session, None).unwrap(), 1);
    let place = move_workspace(&mut session, 1, 0);
    assert_eq!(session.workspaces[place].id, "ws-2");
}

#[test]
fn a_closed_workspace_takes_its_panes_along() {
    let mut d = with_panes(&["pane-1", "pane-2"]);
    new_workspace(&mut d.session, &mut d.next_workspace, "b".to_string(), "/b".to_string());
    let closed = close_workspace(&mut d.session, 0);
    assert_eq!(closed.id, "ws-1");
    assert!(d.session.panes.is_empty());
    assert_eq!(d.session.workspaces.len(), 1);
    assert_eq!(d.session.active_workspace, "ws-2");
}

#[test]
fn panes_move_swap_and_go() {
    let mut d = with_panes(&["pane-1", "pane-2"]);
    new_workspace(&mut d.session, &mut d.next_workspace, "b".to_string(), "/b".to_string());
    assert_eq!(swap_panes(&mut d.session, "pane-1", "pane-2"), Some(0));
    assert_eq!(d.session.workspaces[0].panes, ["pane-2", "pane-1"]);
    move_pane(&mut d.session, "pane-1", 1);
    assert_eq!(d.session.workspaces[0].panes, ["pane-2"]);
    assert_eq!(d.session.workspaces[1].panes, ["pane-1"]);
    assert_eq!(swap_panes(&mut d.session, "pane-1", "pane-2"), None);
    focus_pane(&mut d.session, "pane-1", 9).unwrap();
    assert_eq!(d.session.active_workspace, "ws-2");
    assert!(matches!(focus_pane(&mut d.session, "pane-7", 9), Err(FocusError::Detached(p)) if p == "pane-7"));
    let killed = kill_pane(&mut d.session, "pane-1", Some("end".to_string()), 10).unwrap();
    assert_eq!(killed.output, "end");
    assert!(find_pane(&d.session.panes, "pane-1").is_none());
    let i = find_pane(&d.session.panes, "pane-2").unwrap();
    d.session.panes[i].status = PaneStatus::Exited;
    assert_eq!(prune_exited(&mut d.session, None), ["pane-2"]);
    assert!(d.session.panes.is_empty());
}

fn action(name: &str, command: &str) -> CustomAction {
    CustomAction { name: name.to_string(), command: command.to_string(), title: None, direction: None }
}

#[test]
fn custom_actions_reject_empty_command() {
    assert!(matches!(check_actions(&vec![action("bad", "")]), Err(ActionError::EmptyCommand(n)) if n == "bad"));
    assert!(matches!(check_actions(&vec![action(" ", "x")]), Err(ActionError::EmptyName)));
    let good = vec![action("test", "cargo test")];
    assert!(check_actions(&good).is_ok());
    let plan = action_plan(&good, "test", "ws-1".to_string(), "/srv".to_string()).unwrap();
    assert_eq!(plan.command, "cargo test");
    assert!(action_plan(&good, "other", "ws-1".to_string(), "/srv".to_string()).is_none());
}

#[test]
fn plans_become_panes() {
    assert_eq!(choose_command(" ", "zsh"), "zsh");
    assert_eq!(choose_command("vim", "zsh"), "vim");
    let mut next = 4;
    let plan = PanePlan {
        direction: SplitDirection::Right,
        command: "vim".to_string(),
        title: some("edit"),
        surface_kind: None,
        workspace: "ws-1".to_string(),
        cwd: "/srv".to_string(),
    };
    let pane = new_pane(&mut next, &plan, "zsh", 5).unwrap();
    assert_eq!(pane.id, "pane-4");
    assert_eq!(pane.title, "edit");
    assert_eq!(next, 5);
    let d = with_panes(&["pane-1"]);
    assert_eq!(duplicate_plan(&d.session, "pane-1", SplitDirection::Up).unwrap().command, "sh");
    assert!(matches!(duplicate_plan(&d.session, "pane-7", SplitDirection::Up), Err(DuplicateError::Unknown(_))));
    assert!(ensure_initial_pane(&d.session, "/bin/sh").is_none());
    let first = ensure_initial_pane(&Session::new("t"), "/bin/sh").expect("there is no pane");
    assert_eq!((first.command.as_str(), first.workspace.as_str()), ("/bin/sh", "ws-1"));
}

#[test]
fn busy_panes_without_news_become_idle() {
    let mut pane = Pane::new("pane-1".to_string(), "codex".to_string(), 1);
    touch_agent_status(&mut pane, AgentStatus::Busy, false, 100);
    pane.updated_at = 100;
    assert!(!decay_stale_busy(&mut pane, 100 + BUSY_IDLE_DECAY_SECS - 1, BUSY_IDLE_DECAY_SECS));
    assert!(decay_stale_busy(&mut pane, 100 + BUSY_IDLE_DECAY_SECS + 1, BUSY_IDLE_DECAY_SECS));
    assert_eq!(pane.agent_status, AgentStatus::Idle);
    let mut held = Pane::new("pane-2".to_string(), "codex".to_string(), 1);
    touch_agent_status(&mut held, AgentStatus::Busy, true, 100);
    let mut panes = vec![held];
    assert!(!decay_panes(&mut panes, 100_000));
    assert_eq!(panes[0].agent_status, AgentStatus::Busy);
}

#[test]
fn small_plans_of_the_daemon() {
    let mut d = with_panes(&["pane-1"]);
    d.session.panes[0].status = PaneStatus::Restored;
    let targets = restore_targets(&d.session);
    assert_eq!(targets.len(), 1);
    assert_eq!(targets[0].pane, "pane-1");
    let pids = vec![("pane-1".to_string(), 41)];
    assert_eq!(find_pid(&pids, "pane-1"), Some(41));
    assert_eq!(find_pid(&pids, "x"), None);
    let target = meta_target(&d.session.workspaces[0], &pids);
    assert_eq!(target.live, Some(41));
    assert_eq!(target.roots, [41]);
    assert_eq!(branch_name("main\n").as_deref(), Some("main"));
    assert_eq!(branch_name("\n"), None);
    assert_eq!(answer_line("\n noise \n refactoring osc \n\n").as_deref(), Some(" refactoring osc "));
    assert_eq!(answer_line(" \n"), None);
    assert!(over_limit(0, "no end"));
    assert!(!over_limit(0, "an end\n"));
    assert!(!over_limit(5, "no end"));
}

#[test]
fn a_daemon_is_started_once() {
    assert_eq!(ensure_running(EnsureState::Asking, true), EnsureState::Running);
    assert_eq!(ensure_running(EnsureState::Asking, false), EnsureState::Starting);
    assert_eq!(ensure_running(EnsureState::Starting, true), EnsureState::Waiting { started: true });
    assert!(is_running(true, Some(true)));
    assert!(!is_running(false, Some(true)));
    assert!(!is_running(true, None));
    assert_eq!(start_outcome(true, true, false), StartOutcome::AlreadyRunning);
    assert_eq!(start_outcome(false, true, false), StartOutcome::Started);
    assert_eq!(start_outcome(false, false, true), StartOutcome::HelperExited);
    assert_eq!(start_outcome(false, false, false), StartOutcome::NotUp);
    assert!(serve_foreground(true).is_none());
    assert_eq!(serve_foreground(false).unwrap().first(), Some(&ServeStep::Load));
    assert_eq!(serve_foreground(false).unwrap().last(), Some(&ServeStep::Serve));
}

#[test]
fn stale_files_are_told_from_live_ones() {
    let files = stale_files(Some(false), true, true, false);
    assert!(files.pid_file);
    assert!(files.socket);
    let files = stale_files(Some(true), true, true, true);
    assert!(!files.pid_file);
    assert!(!files.socket);
    assert_eq!(stop_plan(None, false, false), StopPlan::Forget { stale_pid: None });
    assert_eq!(stop_plan(Some(7), true, true), StopPlan::Terminate { pid: 7 });
    assert_eq!(stop_plan(Some(7), false, true), StopPlan::Forget { stale_pid: Some(7) });
}

#[test]
fn a_workspace_gets_its_directory_once_it_was_checked() {
    let mut d = daemon();
    match dispatch(
        &mut d,
        Request::SetWorkspaceCwd { workspace: "ws-1".to_string(), cwd: "/new".to_string() },
        5,
    ) {
        Ok(Step::CheckCwd { cwd, purpose }) => {
            assert_eq!(cwd.as_deref(), Some("/new"));
            assert!(matches!(&purpose, CwdUse::Give { workspace } if workspace == "ws-1"));
            use_cwd(&mut d, purpose, "/new".to_string()).unwrap();
        }
        _ => panic!("the directory is to be checked"),
    }
    assert_eq!(d.session.workspaces[0].cwd, "/new");
}

#[test]
fn each_ending_is_counted() {
    let mut d = daemon();
    let mut seen = d.generation;
    let mut counted = |d: &Daemon, what: &str| {
        assert!(d.generation > seen, "{what}");
        seen = d.generation;
    };
    for id in ["pane-1", "pane-2"] {
        publish_started(&mut d, &Pane::new(id.into(), "sh".into(), 1));
        counted(&d, "publish");
        assert!(link_started(&mut d, "ws-1", id));
        counted(&d, "link");
    }
    assert!(swap_beside(&mut d, "pane-1", "pane-2"));
    counted(&d, "swap");
    assert_eq!(d.session.workspaces[0].panes, ["pane-2", "pane-1"]);
    d.session.panes[0].output = "text".to_string();
    assert!(forget_shown(&mut d, "pane-1", false, 7));
    counted(&d, "forget");
    assert_eq!(d.session.panes[0].output, "");
    keep_copied(&mut d, "pane-1", "copied".to_string(), true, 8);
    counted(&d, "copy");
    assert_eq!(d.session.clipboard.as_ref().map(|c| c.text.as_str()), Some("copied"));
    assert_eq!(d.session.clipboard.as_ref().map(|c| c.source.as_str()), Some("scrollback"));
    assert!(hold_view(&mut d, "pane-1", PaneSize { rows: 9, cols: 30 }).is_ok());
    counted(&d, "view");
    assert_eq!(d.session.panes[0].view_size, Some(PaneSize { rows: 9, cols: 30 }));
    free_views(&mut d, &vec!["pane-1".to_string()]);
    counted(&d, "free");
    assert_eq!(d.session.panes[0].view_size, None);
    note_input(&mut d, "pane-1", true, 9);
    counted(&d, "input");
    assert_eq!(d.session.panes[0].agent_status, AgentStatus::Busy);
    assert!(take_killed(&mut d, "pane-1", None, 10).is_some());
    counted(&d, "kill");
    // What is not there changes nothing.
    let before = d.generation;
    assert!(take_killed(&mut d, "pane-1", None, 10).is_none());
    assert!(!forget_shown(&mut d, "pane-9", false, 7));
    assert!(!link_started(&mut d, "ws-9", "pane-2"));
    assert!(hold_view(&mut d, "pane-9", PaneSize { rows: 9, cols: 30 }).is_err());
    assert_eq!(d.generation, before);
}

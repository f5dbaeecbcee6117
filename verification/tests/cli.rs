//! Commands of the program and the requests they become.

use vmux::cli::commands::{
    agent_command, browser_request, metadata_command, non_default_limit, parse_field_args,
    surface_command, surface_kind_arg, tab_command, typed_text, view_size_request, wait_timeout_ms,
    AgentCommand, AgentPlan, BrowserCommand, FieldError, MetadataCommand, SurfaceCommand,
    SurfaceKindArg, TabCommand, TabPlan, ViewSizeError,
};
use vmux::cli::doctor::{doctor, DoctorFacts, DoctorStatus, SocketState, integration_ok, InstallState, IntegrationFacts};
use vmux::cli::logs::log_end;
use vmux::cli::hooks::{
    append_hook_source_once, hook_event_defaults, hook_event_request, hook_payload_string, hook_request, hook_source_line,
    workspace_id_from_value, NoEvent,
};
use vmux::cli::remote::{
    create_workspace_with_pane, markdown_open_command, markdown_request, markdown_title,
    remote_command, remote_tmux_command, reply_id, shell_quote, ssh_command, RemoteCommand, Reply,
    ReplyError,
};
use vmux::cli::run::{
    follow_interval, follow_start, fresh_events, image_extension, image_name, image_to_send,
    run_pane, run_request, verdict, ImageError, MAX_SEND_IMAGE_BYTES,
};
use vmux::cli::select::{
    normalize_agent_names, relative_tab_switch, relative_workspace_id, team_plan,
    validate_move_pane_workspace_args, workspace_command, MoveArgsError, MovePaneWorkspaceTarget,
    TabStepError, WorkspaceCommand, WorkspaceStep,
};
use vmux::cli::smoke::{
    attach_rendered, smoke_action, smoke_look, smoke_start, smoke_step, smoke_verdict,
    SmokeAction, SmokeAnswer, SmokeEvent, SmokeSight, SmokeStage, SmokeVerdict,
};
use vmux::cli::texts::{
    agent_team_markdown, builtin_skill, builtin_skill_summaries, bytecount_newlines,
    hooks_filename, next_tail_start, shell_hooks, tail_text_lines, HookShell, TAIL_CHUNK,
};
use vmux::model::{EventRecord, Session, SplitDirection, SurfaceKind, Workspace, WorkspaceTab};
use vmux::protocol::Request;

fn texts(list: &[&str]) -> Vec<String> {
    list.iter().map(|s| s.to_string()).collect()
}

fn value_of<'a>(pairs: &'a Vec<(String, String)>, key: &str) -> Option<&'a str> {
    pairs.iter().find(|p| p.0 == key).map(|p| p.1.as_str())
}

fn accepted(data: &str) -> Reply {
    Reply { ok: true, error: None, data: Some(data.to_string()) }
}

#[test]
fn remote_commands_quote_shell_arguments() {
    assert_eq!(
        ssh_command("user@example.com", None),
        "ssh -- user@example.com"
    );
    assert_eq!(
        ssh_command("host", Some("cd /srv/app && codex")),
        "ssh -- host 'cd /srv/app && codex'"
    );
    assert_eq!(
        remote_tmux_command("build host", "agent's"),
        "ssh -- 'build host' -t tmux attach -t 'agent'\\''s'"
    );
}

#[test]
fn quoting_leaves_plain_words_alone() {
    assert_eq!(shell_quote("plain-word_1.txt"), "plain-word_1.txt");
    assert_eq!(shell_quote("it's"), "'it'\\''s'");
    assert_eq!(shell_quote("a b"), "'a b'");
    assert_eq!(shell_quote(""), "");
}

#[test]
fn shell_hooks_include_status_progress_and_notification_helpers() {
    let hooks = shell_hooks(HookShell::Bash);
    assert!(hooks.contains("vmux_hook_status()"));
    assert!(hooks.contains("set-status"));
    assert!(hooks.contains("set-progress"));
    assert!(hooks.contains("notify"));
    assert!(hooks.contains("VMUX_PANE_ID"));
    assert!(hooks.contains("LMUX_PANE_ID"));
    assert!(hooks.contains("_vmux_pane_id"));
    assert!(hooks.contains("vmux_hook_run()"));
    assert!(hooks.contains("lmux_hook_done()"));
    assert!(hooks_filename(HookShell::Bash).contains("hooks"));
}

#[test]
fn image_extension_sniffs_common_formats() {
    assert_eq!(
        image_extension(&[0x89, b'P', b'N', b'G', 0x0D]),
        Some("png")
    );
    assert_eq!(image_extension(&[0xFF, 0xD8, 0xFF, 0xE0]), Some("jpg"));
    assert_eq!(image_extension(b"GIF89a"), Some("gif"));
    assert_eq!(
        image_extension(b"RIFF\x00\x00\x00\x00WEBPVP8 "),
        Some("webp")
    );
    assert_eq!(image_extension(b"BM\x00\x00"), Some("bmp"));
    assert_eq!(image_extension(b"hello, not an image"), None);
    assert_eq!(image_extension(b""), None);
    // A sound file begins alike.
    assert_eq!(image_extension(b"RIFF\x00\x00\x00\x00WAVEfmt "), None);
}

#[test]
fn only_images_of_a_fair_size_are_sent() {
    assert_eq!(image_to_send(b""), Err(ImageError::Empty));
    assert_eq!(image_to_send(b"text"), Err(ImageError::NoImage));
    assert_eq!(image_to_send(b"GIF89a"), Ok("gif"));
    let mut big = vec![0u8; MAX_SEND_IMAGE_BYTES as usize + 1];
    big[0] = b'B';
    big[1] = b'M';
    assert_eq!(image_to_send(&big), Err(ImageError::TooLarge));
    assert_ne!(image_name(5, 7, 0, "png"), image_name(5, 7, 1, "png"));
    assert!(image_name(5, 7, 0, "png").ends_with(".png"));
}

#[test]
fn hook_event_defaults_map_agent_lifecycle_events() {
    assert_eq!(hook_event_defaults("Notification").0, "attention");
    assert_eq!(hook_event_defaults("PermissionRequest").0, "attention");
    assert_eq!(hook_event_defaults("Stop").0, "done");
    assert_eq!(hook_event_defaults("StopFailure").0, "error");
    assert_eq!(hook_event_defaults("UserPromptSubmit").0, "busy");
    assert_eq!(hook_event_defaults("PreToolUse").0, "busy");
    assert_eq!(hook_event_defaults("PostToolUse").0, "busy");
    assert_eq!(hook_event_defaults("SubagentStart").0, "busy");
}

#[test]
fn case_and_separators_of_events_make_no_difference() {
    for event in ["user_prompt-submit", "UserPromptSubmit", "USER PROMPT SUBMIT"] {
        assert_eq!(hook_event_defaults(event), hook_event_defaults("userpromptsubmit"));
    }
}

#[test]
fn hook_source_line_quotes_paths() {
    let line = hook_source_line("/tmp/vmux hooks/hooks.sh");
    assert_eq!(line, ". '/tmp/vmux hooks/hooks.sh'");
}

#[test]
fn hook_event_request_maps_json_payload_to_notify() {
    let request = hook_event_request(
        Some("pane-1".to_string()),
        None,
        None,
        None,
        None,
        None,
        r#"{"event":"needs-input","message":"waiting for review"}"#,
    )
    .unwrap();
    match request {
        Request::Notify { pane, workspace, status, color, clear, message, .. } => {
            assert_eq!(pane.as_deref(), Some("pane-1"));
            assert_eq!(workspace, None);
            assert_eq!(status.as_deref(), Some("attention"));
            assert_eq!(color.as_deref(), Some("blue"));
            assert!(!clear);
            assert_eq!(message, "waiting for review");
        }
        other => panic!("unexpected request: {other:?}"),
    }
}

#[test]
fn hook_event_request_allows_explicit_overrides() {
    let request = hook_event_request(
        None,
        Some("ws-1".to_string()),
        Some("stop".to_string()),
        Some("done".to_string()),
        Some("green".to_string()),
        Some("finished tests".to_string()),
        "",
    )
    .unwrap();
    match request {
        Request::Notify { pane, workspace, status, color, message, .. } => {
            assert_eq!(pane, None);
            assert_eq!(workspace.as_deref(), Some("ws-1"));
            assert_eq!(status.as_deref(), Some("done"));
            assert_eq!(color.as_deref(), Some("green"));
            assert_eq!(message, "finished tests");
        }
        other => panic!("unexpected request: {other:?}"),
    }
}

#[test]
fn a_hook_needs_an_event() {
    assert!(matches!(
        hook_event_request(None, None, None, None, None, None, "{}"),
        Err(NoEvent)
    ));
    assert!(hook_request(None, None, None, None, None, None, Some("stop".to_string()), None).is_ok());
    assert!(hook_request(None, None, None, None, None, None, None, None).is_err());
    let keys = texts(&["event", "hook"]);
    assert_eq!(hook_payload_string(r#"{"hook":"a"}"#, &keys).as_deref(), Some("a"));
    assert_eq!(hook_payload_string(r#"{"event":3}"#, &keys), None);
    assert_eq!(hook_payload_string("no json", &keys), None);
}

#[test]
fn builtin_skill_summaries_include_vmux_control() {
    let summaries = builtin_skill_summaries();
    assert!(summaries.iter().any(|summary| summary.name == "vmux-control"));
}

#[test]
fn builtin_skill_lookup_and_markdown_cover_core_commands() {
    let skill = builtin_skill("vmux-control").unwrap();
    assert_eq!(skill.name, "vmux-control");
    assert!(skill.markdown.contains("vmux identify --json"));
    assert!(skill.markdown.contains("vmux new-pane"));
    assert!(skill.markdown.contains("vmux browser click"));
    assert!(skill.markdown.contains("vmux agent team"));
    assert!(skill.markdown.contains("vmux metadata set"));
    assert!(skill.markdown.contains("vmux events --follow"));
    assert!(skill.markdown.contains("vmux sessions"));
    assert!(builtin_skill("missing").is_err());
    assert_eq!(builtin_skill("missing").unwrap_err().name, "missing");
}

#[test]
fn parse_field_args_requires_name_value_pairs() {
    let fields = parse_field_args(&texts(&["q=vmux", "note=hello=world"])).unwrap();
    assert_eq!(value_of(&fields, "q"), Some("vmux"));
    assert_eq!(value_of(&fields, "note"), Some("hello=world"));
    assert!(parse_field_args(&texts(&["bad"])).is_err());
    assert!(parse_field_args(&texts(&["=empty"])).is_err());
}

#[test]
fn each_field_error_has_its_cause() {
    assert!(matches!(parse_field_args(&texts(&["bad"])), Err(FieldError::NoValue(f)) if f == "bad"));
    assert!(matches!(parse_field_args(&texts(&["=x"])), Err(FieldError::NoName)));
    // Of two fields with one name the later counts.
    let fields = parse_field_args(&texts(&["a=1", "a=2"])).unwrap();
    assert_eq!(fields, [("a".to_string(), "2".to_string())]);
}

#[test]
fn browser_screenshot_alias_uses_snapshot_request() {
    let request = browser_request(BrowserCommand::Screenshot {
        url: "https://example.com".to_string(),
    })
    .unwrap();
    match request {
        Request::UrlSnapshot { url } => {
            assert_eq!(url, "https://example.com");
        }
        other => panic!("unexpected request: {other:?}"),
    }
}

#[test]
fn browser_click_alias_uses_open_link_request() {
    let request = browser_request(BrowserCommand::Click {
        url: "https://example.com".to_string(),
        index: 2,
        direction: SplitDirection::Down,
        title: Some("docs".to_string()),
        workspace: Some("ws-2".to_string()),
    })
    .unwrap();
    match request {
        Request::OpenUrlLink { url, index, direction, title, workspace } => {
            assert_eq!(url, "https://example.com");
            assert_eq!(index, 2);
            assert_eq!(direction, SplitDirection::Down);
            assert_eq!(title.as_deref(), Some("docs"));
            assert_eq!(workspace.as_deref(), Some("ws-2"));
        }
        other => panic!("unexpected request: {other:?}"),
    }
}

#[test]
fn browser_evaluate_uses_url_evaluate_request() {
    let request = browser_request(BrowserCommand::Evaluate {
        url: "https://example.com".to_string(),
        expression: "links[1].href".to_string(),
    })
    .unwrap();
    match request {
        Request::UrlEvaluate { url, expression } => {
            assert_eq!(url, "https://example.com");
            assert_eq!(expression, "links[1].href");
        }
        other => panic!("unexpected request: {other:?}"),
    }
}

#[test]
fn browser_console_and_network_use_browser_requests() {
    let console = browser_request(BrowserCommand::Console {
        url: "https://example.com".to_string(),
    })
    .unwrap();
    assert!(matches!(console, Request::UrlConsole { .. }));

    let network = browser_request(BrowserCommand::Network {
        url: "https://example.com".to_string(),
    })
    .unwrap();
    assert!(matches!(network, Request::UrlNetwork { .. }));
}

#[test]
fn surface_kind_arg_maps_to_protocol_surface_kind() {
    assert_eq!(
        surface_kind_arg(SurfaceKindArg::Terminal),
        SurfaceKind::Terminal
    );
    assert_eq!(
        surface_kind_arg(SurfaceKindArg::Browser),
        SurfaceKind::Browser
    );
    assert_eq!(surface_kind_arg(SurfaceKindArg::Agent), SurfaceKind::Agent);
    assert_eq!(
        surface_kind_arg(SurfaceKindArg::Markdown),
        SurfaceKind::Markdown
    );
}

fn assert_submit_form_alias_request(request: Request) {
    match request {
        Request::SubmitForm { url, index, fields, direction, title, workspace } => {
            assert_eq!(url, "https://example.com/login");
            assert_eq!(index, 1);
            assert_eq!(value_of(&fields, "user"), Some("me"));
            assert_eq!(value_of(&fields, "token"), Some("abc"));
            assert_eq!(direction, SplitDirection::Right);
            assert_eq!(title.as_deref(), Some("login"));
            assert_eq!(workspace.as_deref(), Some("ws-2"));
        }
        other => panic!("unexpected request: {other:?}"),
    }
}

#[test]
fn browser_fill_alias_uses_submit_form_request() {
    let request = browser_request(BrowserCommand::Fill {
        url: "https://example.com/login".to_string(),
        index: 1,
        fields: vec!["user=me".to_string(), "token=abc".to_string()],
        direction: SplitDirection::Right,
        title: Some("login".to_string()),
        workspace: Some("ws-2".to_string()),
    })
    .unwrap();
    assert_submit_form_alias_request(request);
}

#[test]
fn browser_type_alias_uses_submit_form_request() {
    let request = browser_request(BrowserCommand::Type {
        url: "https://example.com/login".to_string(),
        index: 1,
        fields: vec!["user=me".to_string(), "token=abc".to_string()],
        direction: SplitDirection::Right,
        title: Some("login".to_string()),
        workspace: Some("ws-2".to_string()),
    })
    .unwrap();
    assert_submit_form_alias_request(request);
}

#[test]
fn normalize_agent_names_deduplicates_and_rejects_empty() {
    assert_eq!(
        normalize_agent_names(&vec![
            " codex ".to_string(),
            "grok".to_string(),
            "codex".to_string(),
            "".to_string(),
        ])
        .unwrap(),
        vec!["codex".to_string(), "grok".to_string()]
    );
    assert!(normalize_agent_names(&vec![" ".to_string()]).is_err());
}

#[test]
fn agent_team_markdown_lists_agents_and_vmux_commands() {
    let markdown = agent_team_markdown(&vec!["codex".to_string(), "grok".to_string()]);
    assert!(markdown.contains("`codex`"));
    assert!(markdown.contains("`grok`"));
    assert!(markdown.contains("vmux identify --json"));
    assert!(markdown.contains("vmux agent send"));
    assert!(markdown.contains("vmux agent notify"));
}

#[test]
fn markdown_title_uses_source_basename() {
    assert_eq!(markdown_title("README.md"), "md:README.md");
    assert_eq!(
        markdown_title("https://example.test/docs/guide.md"),
        "md:guide.md"
    );
    assert_eq!(markdown_title("https://example.test/docs/"), "md:docs");
}

#[test]
fn markdown_command_has_cat_or_curl_fallback() {
    let local = markdown_open_command("README.md", &Vec::new());
    assert!(
        local.contains("README.md"),
        "local markdown command should mention source: {local}"
    );
    let remote = markdown_open_command("https://example.test/README.md", &Vec::new());
    assert!(
        remote.contains("https://example.test/README.md"),
        "remote markdown command should mention source: {remote}"
    );
    match markdown_request("a.md", &Vec::new(), SplitDirection::Left, None, None) {
        Request::NewPane { command, title, surface_kind, .. } => {
            assert_eq!(command, markdown_open_command("a.md", &Vec::new()));
            assert_eq!(title.as_deref(), Some("md:a.md"));
            assert_eq!(surface_kind, Some(SurfaceKind::Markdown));
        }
        other => panic!("unexpected request: {other:?}"),
    }
}

#[test]
fn workspace_id_from_value_requires_string_id() {
    assert_eq!(
        workspace_id_from_value(r#"{"id":"ws-2"}"#).unwrap(),
        "ws-2"
    );
    assert!(workspace_id_from_value(r#"{"name":"agents"}"#).is_err());
    assert!(workspace_id_from_value(r#"{"id":2}"#).is_err());
}

#[test]
fn validate_move_pane_workspace_args_requires_one_target() {
    assert!(matches!(
        validate_move_pane_workspace_args(Some("ws-2".to_string()), None).unwrap(),
        MovePaneWorkspaceTarget::Existing(workspace) if workspace == "ws-2"
    ));
    assert!(matches!(
        validate_move_pane_workspace_args(None, Some("agents".to_string())).unwrap(),
        MovePaneWorkspaceTarget::New(name) if name == "agents"
    ));
    assert!(validate_move_pane_workspace_args(None, None).is_err());
    assert!(validate_move_pane_workspace_args(
        Some("ws-2".to_string()),
        Some("agents".to_string())
    )
    .is_err());
    assert!(validate_move_pane_workspace_args(None, Some("   ".to_string())).is_err());
}

#[test]
fn each_move_error_has_its_cause() {
    let w = Some("ws-2".to_string());
    let n = Some("agents".to_string());
    assert_eq!(validate_move_pane_workspace_args(None, None).unwrap_err(), MoveArgsError::Neither);
    assert_eq!(validate_move_pane_workspace_args(w, n).unwrap_err(), MoveArgsError::Both);
    assert_eq!(
        validate_move_pane_workspace_args(None, Some(" ".to_string())).unwrap_err(),
        MoveArgsError::EmptyName
    );
}

fn workspace(id: &str, name: &str) -> Workspace {
    Workspace {
        next_tab_seq: 0,
        id: id.to_string(),
        name: name.to_string(),
        cwd: "/".to_string(),
        git_branch: None,
        pull_request: None,
        ports: Vec::new(),
        pinned: false,
        tabs: vec![WorkspaceTab::new("tab-1", "main")],
        active_tab: Some("tab-1".to_string()),
        panes: Vec::new(),
        active_pane: None,
        zoomed_pane: None,
    }
}

#[test]
fn relative_workspace_id_wraps_workspace_order() {
    let mut session = Session::new("test");
    session.workspaces.push(workspace("ws-2", "agents"));
    session.workspaces.push(workspace("ws-3", "tests"));
    session.active_workspace = "ws-2".to_string();

    assert_eq!(relative_workspace_id(&session, 1).unwrap(), "ws-3");
    assert_eq!(relative_workspace_id(&session, -1).unwrap(), "ws-1");
    assert_eq!(relative_workspace_id(&session, 2).unwrap(), "ws-1");

    session.active_workspace = "missing".to_string();
    assert_eq!(relative_workspace_id(&session, 1).unwrap(), "ws-2");
}

#[test]
fn next_and_previous_lead_back() {
    let mut session = Session::new("test");
    session.workspaces.push(workspace("ws-2", "agents"));
    session.workspaces.push(workspace("ws-3", "tests"));
    for start in ["ws-1", "ws-2", "ws-3"] {
        session.active_workspace = start.to_string();
        session.active_workspace = relative_workspace_id(&session, 1).unwrap();
        session.active_workspace = relative_workspace_id(&session, -1).unwrap();
        assert_eq!(session.active_workspace, start);
    }
    session.workspaces.clear();
    assert!(relative_workspace_id(&session, 1).is_err());
}

#[test]
fn tail_text_lines_returns_requested_suffix() {
    assert_eq!(tail_text_lines("one\ntwo\nthree\n", 2), "two\nthree\n");
    assert_eq!(tail_text_lines("one\ntwo\nthree", 2), "two\nthree");
    assert_eq!(tail_text_lines("one\ntwo", 10), "one\ntwo");
    assert_eq!(tail_text_lines("one\ntwo", 0), "");
}

#[test]
fn a_log_is_read_from_its_end_until_enough_is_there() {
    assert_eq!(bytecount_newlines(b"a\nb\n"), 2);
    assert_eq!(next_tail_start(3 * TAIL_CHUNK, 0, 10), Some(2 * TAIL_CHUNK));
    assert_eq!(next_tail_start(10, 0, 10), Some(0));
    assert_eq!(next_tail_start(0, 0, 10), None);
    assert_eq!(next_tail_start(TAIL_CHUNK, 11, 10), None);
    // The end of a text has the same last lines as the whole of it.
    let whole = "zero\none\ntwo\nthree\n";
    assert_eq!(tail_text_lines(&whole[2..], 2), tail_text_lines(whole, 2));
}

#[test]
fn typed_words_are_joined() {
    assert_eq!(typed_text(&texts(&["ls", "-la"]), true), "ls -la\r");
    assert_eq!(typed_text(&texts(&["ls", "-la"]), false), "ls -la");
    assert_eq!(typed_text(&Vec::new(), true), "\r");
    assert_eq!(non_default_limit(16_000), None);
    assert_eq!(non_default_limit(10), Some(10));
    assert_eq!(wait_timeout_ms(Some(2)), Some(2_000));
    assert_eq!(wait_timeout_ms(None), Some(300_000));
    assert_eq!(wait_timeout_ms(Some(0)), None);
}

#[test]
fn surfaces_and_agents_are_panes() {
    match surface_command(SurfaceCommand::Send { surface: None, enter: true, text: texts(&["hi"]) }) {
        Request::Input { pane, data } => {
            assert_eq!(pane, None);
            assert_eq!(data, "hi\r");
        }
        other => panic!("unexpected request: {other:?}"),
    }
    assert!(matches!(surface_command(SurfaceCommand::List), Request::List));
    match agent_command(AgentCommand::Notify {
        agent: Some("pane-1".to_string()),
        status: None,
        color: None,
        message: "m".to_string(),
    }) {
        AgentPlan::Ask(Request::Notify { pane, message, clear, .. }) => {
            assert_eq!(pane.as_deref(), Some("pane-1"));
            assert_eq!(message, "m");
            assert!(!clear);
        }
        other => panic!("unexpected plan: {other:?}"),
    }
    assert!(matches!(
        agent_command(AgentCommand::Team {
            agents: texts(&["codex"]),
            cwd: None,
            direction: SplitDirection::Right,
            no_agents_md: true,
        }),
        AgentPlan::Team { write_agents_md: false, .. }
    ));
    let plan = team_plan("codex", "/srv", SplitDirection::Up);
    assert_eq!(plan.command, "codex");
    assert_eq!(plan.cwd.as_deref(), Some("/srv"));
    assert_eq!(plan.surface_kind, Some(SurfaceKind::Agent));
}

#[test]
fn tabs_metadata_and_sizes_become_requests() {
    assert!(matches!(
        tab_command(TabCommand::Next { workspace: None }),
        TabPlan::Relative { going_next: true, .. }
    ));
    assert!(matches!(
        tab_command(TabCommand::List { workspace: None }),
        TabPlan::Ask(Request::ListTabs { workspace: None })
    ));
    let (request, _) = metadata_command(MetadataCommand::Put {
        key: "k".to_string(),
        value: "v".to_string(),
        pane: None,
    });
    assert!(matches!(request, Request::SetPaneMetadata { value: Some(v), .. } if v == "v"));
    let (request, _) = metadata_command(MetadataCommand::Clear { key: "k".to_string(), pane: None });
    assert!(matches!(request, Request::SetPaneMetadata { value: None, .. }));
    let p = || Some("pane-1".to_string());
    assert_eq!(view_size_request(None, Some(1), Some(1), 5, false).unwrap_err(), ViewSizeError::NoPane);
    assert_eq!(view_size_request(p(), None, Some(1), 5, false).unwrap_err(), ViewSizeError::NoSize);
    assert!(matches!(
        view_size_request(p(), Some(3), Some(4), 5, false),
        Ok(Request::SetPaneViewSize { cols: 3, rows: 4, lease_ms: 5, .. })
    ));
    assert!(matches!(view_size_request(p(), None, None, 5, true), Ok(Request::ClearPaneViewSize { .. })));
    let ids = vec![Some("tab-1".to_string()), Some("tab-2".to_string())];
    assert!(matches!(
        relative_tab_switch(&ids, "tab-2", None, true),
        Ok(Request::SwitchTab { tab, .. }) if tab == "tab-1"
    ));
    assert_eq!(relative_tab_switch(&Vec::new(), "", None, true).unwrap_err(), TabStepError::NoTabs);
    assert_eq!(
        relative_tab_switch(&vec![None], "tab-1", None, true).unwrap_err(),
        TabStepError::NoId
    );
    assert!(matches!(
        workspace_command(WorkspaceCommand::Previous),
        WorkspaceStep::Relative(-1)
    ));
    assert!(matches!(
        workspace_command(WorkspaceCommand::Pin { workspace: "w".to_string() }),
        WorkspaceStep::Ask(Request::SetWorkspacePinned { pinned: true, .. })
    ));
}

#[test]
fn a_remote_workspace_is_made_in_two_requests() {
    let plan = remote_command(RemoteCommand::Ssh {
        host: "box".to_string(),
        workspace: None,
        command: Some("htop".to_string()),
        title: None,
        direction: SplitDirection::Right,
    });
    assert_eq!(plan.command, "ssh -- box htop");
    assert!(matches!(plan.workspace_request(), Request::NewWorkspace { .. }));
    match create_workspace_with_pane(plan, accepted(r#"{"id":"ws-9"}"#)).unwrap() {
        Request::NewPane { workspace, command, .. } => {
            assert_eq!(workspace.as_deref(), Some("ws-9"));
            assert_eq!(command, "ssh -- box htop");
        }
        other => panic!("unexpected request: {other:?}"),
    }
    assert!(matches!(reply_id(Reply { ok: true, error: None, data: None }), Err(ReplyError::NoData)));
    assert!(matches!(reply_id(accepted("{}")), Err(ReplyError::NoId)));
    assert!(matches!(
        reply_id(Reply { ok: false, error: Some("no".to_string()), data: None }),
        Err(ReplyError::Refused(Some(e))) if e == "no"
    ));
}

#[test]
fn a_command_is_run_waited_for_and_read() {
    assert!(matches!(
        run_request(SplitDirection::Down, "make".to_string(), None, None),
        Request::NewPane { command, .. } if command == "make"
    ));
    let plan = run_pane(accepted(r#"{"id":"pane-4"}"#), Some(3)).unwrap();
    assert!(matches!(
        plan.wait,
        Request::WaitPane { pane: Some(p), timeout_ms: Some(3_000), .. } if p == "pane-4"
    ));
    assert!(matches!(plan.read, Request::ReadScreen { pane: Some(p), .. } if p == "pane-4"));
    assert!(run_pane(accepted("{}"), None).is_err());
    assert_eq!(verdict(true, None), Ok(()));
    assert_eq!(verdict(false, Some("e".to_string())), Err("e".to_string()));
    assert_eq!(verdict(false, None), Err("vmux command failed".to_string()));
}

#[test]
fn a_follower_sees_each_event_once() {
    let first = vec![Some(3), Some(2), Some(1)];
    let mut last = follow_start(&first);
    assert_eq!(last, 3);
    let next = vec![Some(5), None, Some(4), Some(3)];
    let (fresh, now) = fresh_events(&next, last);
    // The oldest first.
    assert_eq!(fresh, [2, 0]);
    assert_eq!(now, 5);
    last = now;
    assert_eq!(fresh_events(&next, last), (Vec::new(), 5));
    assert!(follow_interval(0) > 0);
    assert_eq!(follow_interval(500), 500);
}

fn healthy() -> DoctorFacts {
    DoctorFacts {
        runtime_dir: "/run/vmux".to_string(),
        runtime_dir_exists: true,
        state_dir: "/state".to_string(),
        state_dir_exists: true,
        stdin_tty: true,
        stdout_tty: true,
        pid: Some(7),
        process_runs: true,
        socket: SocketState::Answered,
        installed: texts(&["curl", "git"]),
        integrations: Vec::new(),
    }
}

#[test]
fn the_doctor_looks_at_hooks() {
    assert!(integration_ok(InstallState::Installed));
    assert!(integration_ok(InstallState::NotDetected));
    assert!(!integration_ok(InstallState::Lacking));
    let mut facts = healthy();
    facts.integrations.push(IntegrationFacts {
        id: "codex".to_string(),
        state: InstallState::Lacking,
        label: "missing".to_string(),
        path: "/h".to_string(),
        detail: "run hooks install".to_string(),
    });
    let report = doctor(&facts);
    assert_eq!(report.status, DoctorStatus::Warn);
    let last = report.checks.last().expect("a finding");
    assert_eq!(last.name, "agent-hooks-codex");
    assert!(!last.ok);
    assert_eq!(last.detail, "missing (/h) \u{2014} run hooks install");
    facts.integrations[0].state = InstallState::NotDetected;
    assert_eq!(doctor(&facts).status, DoctorStatus::Good);
}

fn tail_in_parts(log: &[u8], lines: usize) -> String {
    let mut end = log_end(log.len() as u64);
    while let Some(start) = end.next_start(lines) {
        let part = log[start as usize..end.pos as usize].to_vec();
        end.put_before(start, part);
    }
    end.last_lines(lines)
}

#[test]
fn a_log_read_from_its_end_has_the_last_lines() {
    let mut log = String::new();
    for i in 0..3000 {
        log.push_str(&format!("line {i} \u{e9}\u{6f22}\n"));
    }
    for lines in [0, 1, 2, 500, 1000, 5000] {
        assert_eq!(tail_in_parts(log.as_bytes(), lines), tail_text_lines(&log, lines), "{lines}");
    }
    log.push_str("no end");
    assert_eq!(tail_in_parts(log.as_bytes(), 1), "no end");
    assert_eq!(tail_in_parts(log.as_bytes(), 700), tail_text_lines(&log, 700));
    assert_eq!(tail_in_parts(b"", 3), "");
    assert_eq!(tail_in_parts(b"a\n\xffb\n", 1), "\u{fffd}b\n");
    // What is not UTF-8 is cut in parts too.
    let mut bytes = Vec::new();
    for i in 0..4000u32 {
        bytes.extend_from_slice(&[0xf0, 0x9f, 0x98, (i % 251) as u8, 0xe2, 0x82, b'\n']);
    }
    let whole = String::from_utf8_lossy(&bytes).into_owned();
    for lines in [1, 2, 1000, 1171, 3000] {
        assert_eq!(tail_in_parts(&bytes, lines), tail_text_lines(&whole, lines), "{lines}");
    }
}

#[test]
fn the_doctor_finds_what_is_wrong() {
    let report = doctor(&healthy());
    assert_eq!(report.status, DoctorStatus::Good, "{report:?}");
    assert!(report.checks.iter().all(|c| c.ok));
    let mut sick = healthy();
    sick.runtime_dir_exists = false;
    let report = doctor(&sick);
    assert_eq!(report.status, DoctorStatus::Error, "{report:?}");
    let mut sick = healthy();
    sick.socket = SocketState::Unreachable("refused".to_string());
    let report = doctor(&sick);
    assert_eq!(report.status, DoctorStatus::Warn, "{report:?}");
    assert!(report.checks.iter().any(|c| !c.ok && c.detail.contains("refused")));
}

fn answer() -> SmokeAnswer {
    SmokeAnswer {
        ok: true,
        error: None,
        has_data: true,
        id: Some("pane-1".to_string()),
        pane: Some("pane-2".to_string()),
        shown: true,
        also_shown: true,
    }
}

#[test]
fn a_smoke_run_that_goes_well_passes() {
    let mut run = smoke_start();
    for _ in 0..200 {
        let event = match smoke_action(&run) {
            SmokeAction::Ensure => SmokeEvent::Ensured { running: true },
            SmokeAction::Ask(_) => SmokeEvent::Answered(answer()),
            SmokeAction::Watch { .. } | SmokeAction::Follow { .. } | SmokeAction::PingUntil { .. } => {
                SmokeEvent::Saw(true)
            }
            SmokeAction::HangUp => SmokeEvent::HungUp,
            SmokeAction::Attach { .. } => SmokeEvent::Attached(Some(true)),
            SmokeAction::LookAtFiles => {
                SmokeEvent::Files { socket: true, pid: true, state: true, log: true, listed: Ok(true) }
            }
            SmokeAction::ShutDown { attempts: 40 } => SmokeEvent::Stopped { ok: true, running: false },
            SmokeAction::ShutDown { attempts } => panic!("{attempts} attempts"),
            SmokeAction::Finish(verdict) => {
                assert_eq!(verdict, SmokeVerdict::Passed, "{run:?}");
                assert_eq!(run.stage, SmokeStage::Over);
                return;
            }
        };
        smoke_step(&mut run, event);
    }
    panic!("the run did not end: {run:?}");
}

#[test]
fn files_are_noted_though_sessions_cannot_be_listed() {
    let mut run = smoke_start();
    run.stage = SmokeStage::Files;
    let listed = Err("no directory".to_string());
    smoke_step(&mut run, SmokeEvent::Files { socket: true, pid: false, state: true, log: true, listed });
    let found: Vec<(&str, bool)> = run.checks.iter().map(|c| (c.name.as_str(), c.ok)).collect();
    let expected = [("socket-file", true), ("pid-file", false), ("state-file", true), ("log-file", true)];
    assert_eq!(found, expected);
    assert_eq!(run.stage, SmokeStage::Stop);
    smoke_step(&mut run, SmokeEvent::Stopped { ok: true, running: false });
    smoke_step(&mut run, SmokeEvent::Stopped { ok: false, running: false });
    assert_eq!(smoke_verdict(&run), SmokeVerdict::CutShort);
}

#[test]
fn a_smoke_run_that_goes_wrong_still_shuts_the_daemon_down() {
    let mut run = smoke_start();
    smoke_step(&mut run, SmokeEvent::Ensured { running: true });
    smoke_step(&mut run, SmokeEvent::Failed("no socket".to_string()));
    let mut stopped = false;
    for _ in 0..20 {
        match smoke_action(&run) {
            SmokeAction::ShutDown { .. } => {
                stopped = true;
                smoke_step(&mut run, SmokeEvent::Stopped { ok: true, running: false });
            }
            SmokeAction::Finish(verdict) => {
                assert!(stopped);
                assert_eq!(verdict, SmokeVerdict::CutShort);
                assert_eq!(smoke_verdict(&run), SmokeVerdict::CutShort);
                return;
            }
            other => panic!("unexpected action: {other:?}"),
        }
    }
    panic!("the run did not end: {run:?}");
}

#[test]
fn an_attached_screen_is_looked_at() {
    assert!(attach_rendered(b"..needle..name..", b"needle", b"name", true, Some(0)));
    assert!(!attach_rendered(b"..", b"needle", b"name", true, Some(0)));
}

#[test]
fn a_smoke_run_looks_for_what_it_made() {
    let event = |kind: &str, message: &str, key: Option<&str>, value: Option<&str>| EventRecord {
        id: 1,
        time: 1,
        kind: kind.to_string(),
        pane: None,
        workspace: None,
        status: None,
        key: key.map(|s| s.to_string()),
        value: value.map(|s| s.to_string()),
        message: message.to_string(),
    };
    let sight = SmokeSight {
        screen: Some("$ vmux-smoke\n".to_string()),
        messages: texts(&["other", "smoke notification"]),
        task: Some("smoke-agent".to_string()),
        events: vec![
            event("notification", "smoke notification", None, None),
            event("metadata", "", Some("task"), Some("smoke-agent")),
        ],
    };
    assert_eq!(smoke_look(SmokeStage::ReadScreen, &sight), (true, false));
    assert_eq!(smoke_look(SmokeStage::Snapshot, &sight), (true, false));
    assert_eq!(smoke_look(SmokeStage::Identify, &sight), (true, false));
    assert_eq!(smoke_look(SmokeStage::Events, &sight), (true, true));
    assert_eq!(smoke_look(SmokeStage::Ping, &sight), (false, false));
    let blank = SmokeSight { screen: None, messages: Vec::new(), task: None, events: Vec::new() };
    for stage in [SmokeStage::ReadScreen, SmokeStage::Snapshot, SmokeStage::Identify, SmokeStage::Events] {
        assert_eq!(smoke_look(stage, &blank), (false, false));
    }
}

#[test]
fn append_hook_source_once_is_idempotent() {
    let mut content = "export TEST=1\n".to_string();
    let line = ". /tmp/vmux/hooks.sh";
    let more = append_hook_source_once(&content, line);
    content.push_str(&more);
    let more = append_hook_source_once(&content, line);
    content.push_str(&more);
    assert_eq!(content.matches(line).count(), 1);
    assert!(content.contains("# vmux shell hooks"));
    assert_eq!(append_hook_source_once("x", "y"), "\n\n# vmux shell hooks\ny\n");
}

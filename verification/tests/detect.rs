//! What agents are doing, read off their screens.

use vmux::detect::agents::{
    agent_from_command, agent_from_process_tree, apply_screen_notification_banner, can_detect,
    detect_agent, detect_for_command_or_pid, merge_screen_status, screen_attention_message,
    screen_is_status_authority, screen_is_status_authority_for_pane, to_agent_status, Detection,
    AgentNames, ManifestAgent, ManifestCache, ProcessFacts,
};
use vmux::detect::manifest::{
    compile_gate, compiled_rule_matches, detect_with_osc, load_rules, region, AgentManifest,
    DetectedState, DetectionInput, ManifestGate, ManifestRule, DEFAULT_KNOWN_AGENT_IDLE_FALLBACK,
};
use vmux::detect::regions::{cut_region, parse_region, Region};
use vmux::model::{AgentStatus, Pane};

fn names() -> AgentNames {
    AgentNames {
        label: "aster".to_string(),
        aliases: vec!["aster-code".to_string(), "astercode".to_string()],
    }
}

fn gate() -> ManifestGate {
    ManifestGate {
        all: Vec::new(),
        any: Vec::new(),
        not_gate: Vec::new(),
        contains: Vec::new(),
        regex: Vec::new(),
        line_regex: Vec::new(),
    }
}

fn holding(text: &str) -> ManifestGate {
    ManifestGate { contains: vec![text.to_string()], ..gate() }
}

fn matching(pattern: &str) -> ManifestGate {
    ManifestGate { regex: vec![pattern.to_string()], ..gate() }
}

fn line_matching(pattern: &str) -> ManifestGate {
    ManifestGate { line_regex: vec![pattern.to_string()], ..gate() }
}

fn rule(id: &str, state: DetectedState, priority: i32, region: &str, gate: ManifestGate) -> ManifestRule {
    ManifestRule {
        id: id.to_string(),
        state: Some(state),
        priority,
        region: region.to_string(),
        visible_idle: state == DetectedState::Idle,
        visible_blocker: state == DetectedState::Blocked,
        visible_working: state == DetectedState::Working,
        skip_state_update: false,
        gate,
    }
}

fn first_agent() -> AgentManifest {
    let mut weak = rule(
        "weak_permission_text",
        DetectedState::Blocked,
        100,
        "whole_recent",
        holding("waiting for permission"),
    );
    weak.visible_blocker = false;
    AgentManifest {
        id: "aster".to_string(),
        rules: vec![
            rule(
                "osc_title_working",
                DetectedState::Working,
                1000,
                "osc_title",
                matching("^[\u{2800}-\u{28FF}] "),
            ),
            rule(
                "bash_permission_prompt",
                DetectedState::Blocked,
                900,
                "whole_recent",
                ManifestGate {
                    all: vec![holding("do you want to proceed?"), line_matching("^\\s*❯ 1\\. Yes")],
                    ..gate()
                },
            ),
            rule(
                "live_prompt_box",
                DetectedState::Idle,
                200,
                "prompt_box_body",
                line_matching("^\\s*❯"),
            ),
            rule("osc_title_idle", DetectedState::Idle, 150, "osc_title", matching("^✳ ")),
            weak,
        ],
    }
}

fn codex() -> AgentManifest {
    AgentManifest {
        id: "codex".to_string(),
        rules: vec![rule(
            "working_line",
            DetectedState::Working,
            500,
            "whole_recent",
            line_matching("^• Working \\("),
        )],
    }
}

fn cache() -> ManifestCache {
    let mut items = Vec::new();
    for (agent, manifest) in [(ManifestAgent::Claude, first_agent()), (ManifestAgent::Codex, codex())] {
        match load_rules(manifest) {
            Ok(loaded) => items.push((agent, loaded)),
            Err(problem) => panic!("{problem:?}"),
        }
    }
    ManifestCache { items }
}

fn look<'a>(screen: &'a str, osc_title: &'a str) -> DetectionInput<'a> {
    DetectionInput { screen, osc_title, osc_progress: "" }
}

fn detected(state: DetectedState, rule: &str) -> Detection {
    Detection {
        agent: Some("aster".to_string()),
        state,
        skip_state_update: false,
        visible_idle: state == DetectedState::Idle,
        visible_blocker: state == DetectedState::Blocked,
        visible_working: state == DetectedState::Working,
        matched_rule: Some(rule.to_string()),
        fallback_reason: None,
    }
}

const PROMPT_BOX: &str = "\
─────────────────────
 ❯  
─────────────────────
";

#[test]
fn agent_from_command_detects_common_agents() {
    assert_eq!(agent_from_command(&names(), "aster", None), Some(ManifestAgent::Claude));
    assert_eq!(
        agent_from_command(&names(), "/usr/bin/codex resume abc", None),
        Some(ManifestAgent::Codex)
    );
    assert_eq!(
        agent_from_command(&names(), "node /home/x/.npm/bin/aster", None),
        Some(ManifestAgent::Claude)
    );
    assert_eq!(agent_from_command(&names(), "bash", None), None);
    assert_eq!(agent_from_command(&names(), "git status", None), None);
    assert_eq!(agent_from_command(&names(), "vim example.txt", None), None);
}

#[test]
fn a_hint_comes_before_the_command() {
    assert_eq!(agent_from_command(&names(), "bash", Some("grok")), Some(ManifestAgent::Grok));
    assert_eq!(agent_from_command(&names(), "codex", Some("no agent")), Some(ManifestAgent::Codex));
    assert_eq!(agent_from_command(&names(), "npx @vendor/aster-code", None), Some(ManifestAgent::Claude));
    assert_eq!(agent_from_command(&names(), "", None), None);
}

#[test]
fn claude_prompt_box_is_idle() {
    let d = detect_agent(&names(), &cache(), ManifestAgent::Claude, look(PROMPT_BOX, "✳ aster"));
    assert_eq!(d.state, DetectedState::Idle, "{d:?}");
    assert!(d.visible_idle || d.matched_rule.is_some() || d.fallback_reason.is_some());
}

#[test]
fn claude_permission_is_blocked() {
    let screen = "\
Do you want to proceed?
 Bash command
 ❯ 1. Yes
 2. No
 esc to cancel
";
    let d = detect_agent(&names(), &cache(), ManifestAgent::Claude, look(screen, ""));
    assert_eq!(d.state, DetectedState::Blocked, "{d:?}");
    assert!(d.visible_blocker || d.matched_rule.is_some());
}

#[test]
fn claude_osc_title_braille_is_working() {
    let title = "\u{28FF} thinking";
    let d = detect_agent(&names(), &cache(), ManifestAgent::Claude, look("anything on screen", title));
    assert_eq!(d.state, DetectedState::Working, "{d:?}");
    assert!(d.visible_working);
}

#[test]
fn screen_authority_requires_agent_command_or_tree() {
    assert!(screen_is_status_authority(&names(), "aster", None));
    assert!(!screen_is_status_authority(&names(), "bash", None));
    assert!(!screen_is_status_authority_for_pane(&names(), "bash", None, &Vec::new()));
    assert!(!screen_is_status_authority_for_pane(&names(), "/bin/bash", None, &Vec::new()));
    let tree = vec![ProcessFacts { comm: "aster\n".to_string(), cmdline: Vec::new() }];
    assert!(screen_is_status_authority_for_pane(&names(), "/bin/bash", None, &tree));
}

#[test]
fn agents_are_found_among_processes() {
    let list = vec![
        ProcessFacts { comm: "bash".to_string(), cmdline: b"-bash\0".to_vec() },
        ProcessFacts { comm: "node".to_string(), cmdline: b"node\0/usr/bin/codex\0".to_vec() },
    ];
    assert_eq!(agent_from_process_tree(&names(), &list, None), Some(ManifestAgent::Codex));
    assert_eq!(agent_from_process_tree(&names(), &Vec::new(), None), None);
}

#[test]
fn detect_for_command_or_pid_falls_back_to_command() {
    let cache = cache();
    let none: Vec<ProcessFacts> = Vec::new();
    let d = detect_for_command_or_pid(&names(), &cache, "aster", None, &none, look(PROMPT_BOX, "✳ aster"))
        .expect("aster command");
    assert_eq!(d.state, DetectedState::Idle, "{d:?}");
    assert!(detect_for_command_or_pid(&names(), &cache, "bash", None, &none, look(PROMPT_BOX, "")).is_none());
    assert_eq!(
        detect_for_command_or_pid(
            &names(),
            &cache,
            "codex",
            None,
            &none,
            look("• Working (esc to interrupt)", "")
        )
        .map(|d| d.state),
        Some(DetectedState::Working)
    );
}

#[test]
fn merge_screen_keeps_done_through_idle() {
    let d = detected(DetectedState::Idle, "live_prompt_box");
    assert_eq!(merge_screen_status(AgentStatus::Done, &d), None);
    let working = detected(DetectedState::Working, "osc");
    assert_eq!(
        merge_screen_status(AgentStatus::Done, &working),
        Some((AgentStatus::Busy, false))
    );
}

#[test]
fn merge_screen_clears_error_when_idle() {
    let d = detected(DetectedState::Idle, "live_prompt_box");
    assert_eq!(
        merge_screen_status(AgentStatus::Error, &d),
        Some((AgentStatus::Idle, false))
    );
}

#[test]
fn a_second_look_at_the_same_screen_changes_nothing() {
    let all = [
        AgentStatus::Unknown,
        AgentStatus::Idle,
        AgentStatus::Busy,
        AgentStatus::Attention,
        AgentStatus::Done,
        AgentStatus::Error,
    ];
    let states =
        [DetectedState::Idle, DetectedState::Working, DetectedState::Blocked, DetectedState::Unknown];
    for current in all {
        for state in states {
            let d = detected(state, "r");
            if let Some((next, _)) = merge_screen_status(current, &d) {
                assert_eq!(merge_screen_status(next, &d), None);
                assert_eq!(next, to_agent_status(state));
            }
        }
    }
    let mut skipping = detected(DetectedState::Working, "r");
    skipping.skip_state_update = true;
    assert_eq!(merge_screen_status(AgentStatus::Idle, &skipping), None);
}

#[test]
fn conversational_would_you_like_is_not_attention() {
    let screen = "\
Would you like to continue with the plan? Yes, that makes sense.

─────────────────────
 ❯  
─────────────────────
";
    let d = detect_agent(&names(), &cache(), ManifestAgent::Claude, look(screen, "\u{2733} idle title"));
    assert_eq!(d.state, DetectedState::Idle, "{d:?}");
}

#[test]
fn weak_blocker_loses_to_visible_idle_when_both_match() {
    let screen = "\
waiting for permission from the user to continue editing files

─────────────────────
 ❯  
─────────────────────
";
    let d = detect_agent(&names(), &cache(), ManifestAgent::Claude, look(screen, "\u{2733} done"));
    assert_eq!(d.state, DetectedState::Idle, "{d:?}");
    assert!(
        d.visible_idle
            || matches!(
                d.matched_rule.as_deref(),
                Some("live_prompt_box" | "osc_title_idle")
            ),
        "{d:?}"
    );
}

#[test]
fn screen_attention_banner_set_and_cleared() {
    let mut pane = Pane::new("p".into(), "aster".into(), 1);
    let blocked = detected(DetectedState::Blocked, "bash_permission_prompt");
    apply_screen_notification_banner(
        &mut pane,
        &AgentStatus::Busy,
        &AgentStatus::Attention,
        &blocked,
    );
    assert_eq!(
        pane.notification_message.as_deref(),
        Some("aster needs permission")
    );
    assert_eq!(screen_attention_message(&blocked), "aster needs permission");
    apply_screen_notification_banner(
        &mut pane,
        &AgentStatus::Attention,
        &AgentStatus::Idle,
        &detected(DetectedState::Idle, "live_prompt_box"),
    );
    assert!(pane.notification_message.is_none());
    assert!(pane.notification_color.is_none());
}

#[test]
fn without_a_match_a_known_agent_is_idle() {
    let cache = cache();
    let d = detect_agent(&names(), &cache, ManifestAgent::Codex, look("hello", ""));
    assert_eq!(d.state, DetectedState::Idle);
    assert_eq!(d.fallback_reason, Some(DEFAULT_KNOWN_AGENT_IDLE_FALLBACK));
    assert_eq!(d.matched_rule, None);
    assert!(can_detect(&cache, ManifestAgent::Codex, &look("hello", "")));
    let d = detect_with_osc(None, look("hello", ""));
    assert_eq!(d.state, DetectedState::Idle);
    assert_eq!(d.fallback_reason, Some(DEFAULT_KNOWN_AGENT_IDLE_FALLBACK));
}

#[test]
fn patterns_and_texts_are_matched_as_given() {
    // A text whatever its case, a pattern as it stands.
    let g = compile_gate(&holding("HeLLo")).ok().unwrap();
    assert!(compiled_rule_matches(&g, "say hello"));
    assert!(!compiled_rule_matches(&g, "say"));
    let g = compile_gate(&matching("^a.c$")).ok().unwrap();
    assert!(compiled_rule_matches(&g, "abc"));
    assert!(!compiled_rule_matches(&g, "ABC"));
    assert!(!compiled_rule_matches(&g, "x\nabc"));
    let g = compile_gate(&line_matching("^a.c$")).ok().unwrap();
    assert!(compiled_rule_matches(&g, "x\nabc"));
    let g = compile_gate(&ManifestGate { not_gate: vec![holding("no")], ..gate() }).ok().unwrap();
    assert!(compiled_rule_matches(&g, "yes"));
    assert!(!compiled_rule_matches(&g, "no"));
    let g = compile_gate(&ManifestGate { any: vec![holding("a"), holding("b")], ..gate() }).ok().unwrap();
    assert!(compiled_rule_matches(&g, "xbx"));
    assert!(!compiled_rule_matches(&g, "xx"));
    assert!(compile_gate(&matching("(")).is_err());
    let mut broken = codex();
    broken.rules[0].gate = matching("[");
    let problem = load_rules(broken).err().unwrap();
    assert_eq!(problem.rule, "working_line");
}

#[test]
fn regions_are_cut_from_the_screen() {
    let input = look("one\n\ntwo\nthree\n", "title");
    assert_eq!(region(&input, "osc_title").as_deref(), Some("title"));
    assert_eq!(region(&input, "whole_recent").as_deref(), Some("one\n\ntwo\nthree\n"));
    assert_eq!(parse_region(" bottom_lines(2) "), Region::BottomLines(2));
    assert_eq!(parse_region("bottom_non_empty_lines(3)"), Region::BottomFilled(3));
    assert_eq!(parse_region("top_non_empty_lines(1)"), Region::TopFilled(1));
    assert_eq!(parse_region("top_non_empty_lines(0)"), Region::Nothing);
    assert_eq!(parse_region("elsewhere"), Region::Nothing);
    assert_eq!(cut_region(Region::BottomFilled(2), "one\n\ntwo\nthree\n").as_deref(), Some("two\nthree\n"));
    assert_eq!(cut_region(Region::TopFilled(1), "\none\ntwo").as_deref(), Some("\none\n"));
    assert_eq!(cut_region(Region::BoxBody, PROMPT_BOX).as_deref(), Some(" ❯  \n"));
    assert_eq!(cut_region(Region::AfterLastRule, "a\n─────\nb").as_deref(), Some("b"));
    assert_eq!(cut_region(Region::BoxBody, "no box").as_deref(), Some(""));
}

#[test]
fn names_of_agents_read_back() {
    for agent in ManifestAgent::all() {
        assert_eq!(ManifestAgent::parse(&names(), agent.label(&names())), Some(agent));
    }
    assert_eq!(ManifestAgent::parse(&names(), " Aster-Code "), Some(ManifestAgent::Claude));
    assert_eq!(ManifestAgent::parse(&names(), "vim"), None);
    // Without a label the first agent is not found, whatever a text holds.
    let none = AgentNames { label: String::new(), aliases: Vec::new() };
    assert_eq!(ManifestAgent::parse(&none, ""), None);
    assert_eq!(agent_from_command(&none, "bash -l", None), None);
    assert_eq!(agent_from_command(&none, "codex", None), Some(ManifestAgent::Codex));
}

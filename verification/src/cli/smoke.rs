//! A run through a session of its own that tries what a daemon does.
use crate::model::{EventRecord, SplitDirection};
use crate::protocol::Request;
use crate::text::chars::{chars_of, contains, has_text, is_opt_text, opt_text, same};
use vstd::prelude::*;

verus! {

/// How far a run is.
#[derive(Debug, Clone, Copy, PartialEq, Eq, Structural)]
pub enum SmokeStage {
    Start,
    Ping,
    NewPane,
    WaitPane,
    ReadScreen,
    Notify,
    Snapshot,
    LivePane,
    LiveOutput,
    Metadata,
    Identify,
    Events,
    Follow,
    HangUp,
    Survives,
    LiveAfterHangUp,
    NewTab,
    TabOutput,
    SwitchBase,
    BaseOutput,
    LateOutput,
    SwitchBack,
    RestoredOutput,
    RestoreBase,
    Attach,
    Files,
    Stop,
    Restart,
    RestartPing,
    RestoredPane,
    FinalStop,
    Over,
}

/// What was tried and whether it went well.
#[derive(Debug)]
pub struct SmokeCheck {
    pub name: String,
    pub ok: bool,
}

/// What cut a run short.
#[derive(Debug)]
pub enum SmokeProblem {
    /// Something outside failed, in these words.
    Outside(String),
    /// A request was refused.
    Refused { stage: SmokeStage, error: Option<String> },
    /// An answer came without data.
    NoData { stage: SmokeStage },
    /// An answer came without an id.
    NoId { stage: SmokeStage },
}

/// A run.
#[derive(Debug)]
pub struct SmokeRun {
    pub stage: SmokeStage,
    /// The pane that runs to its end.
    pub pane: String,
    /// The pane that stays.
    pub live_pane: String,
    pub tab: String,
    /// The pane of that tab.
    pub tab_pane: String,
    pub checks: Vec<SmokeCheck>,
    pub problem: Option<SmokeProblem>,
}

/// How a run ended.
#[derive(Debug, Clone, Copy, PartialEq, Eq, Structural)]
pub enum SmokeVerdict {
    Passed,
    ChecksFailed,
    CutShort,
}

/// What a run does next.
#[derive(Debug)]
pub enum SmokeAction {
    /// Have a daemon.
    Ensure,
    Ask(Request),
    /// Look at a pane's output again and again until it holds a text.
    Watch { pane: String, needle: &'static str, attempts: usize },
    /// Watch the events while a notice is sent for a pane.
    Follow { pane: String },
    /// Send the daemon the signal of a closed terminal.
    HangUp,
    /// Ping again and again until there is an answer.
    PingUntil { attempts: usize },
    /// Attach in a terminal, where the programs for that are installed.
    Attach { needle: &'static str },
    /// Look for the session's files.
    LookAtFiles,
    /// Shut the daemon down and look again and again until it is gone.
    ShutDown { attempts: usize },
    Finish(SmokeVerdict),
}

/// What an answer holds.
#[derive(Debug)]
pub struct SmokeAnswer {
    pub ok: bool,
    pub error: Option<String>,
    pub has_data: bool,
    /// The id of the pane or the tab.
    pub id: Option<String>,
    /// The id of the pane in the tab.
    pub pane: Option<String>,
    /// What is looked for is in the answer.
    pub shown: bool,
    /// So is the second thing that is looked for.
    pub also_shown: bool,
}

/// What an answer shows, as far as a run looks at it.
#[derive(Debug)]
pub struct SmokeSight {
    /// The text of a screen.
    pub screen: Option<String>,
    /// The messages of notifications.
    pub messages: Vec<String>,
    /// What the metadata of a pane say of its task.
    pub task: Option<String>,
    pub events: Vec<EventRecord>,
}

/// The event tells of the notification that a run made.
pub open spec fn tells_of_note(e: EventRecord) -> bool {
    e.kind@ == "notification"@ && e.message@ == "smoke notification"@
}

/// The event tells of the metadata that a run set.
pub open spec fn tells_of_task(e: EventRecord) -> bool {
    e.kind@ == "metadata"@ && opt_text(e.key) == Some("task"@) && opt_text(e.value) == Some(
        "smoke-agent"@,
    )
}

/// What is looked for at a stage is in sight.
pub open spec fn is_in_sight(stage: SmokeStage, sight: SmokeSight) -> bool {
    match stage {
        SmokeStage::ReadScreen => opt_text(sight.screen) matches Some(s) && has_text(
            s,
            "vmux-smoke"@,
        ),
        SmokeStage::Snapshot => exists|i: int|
            0 <= i < sight.messages@.len() && (#[trigger] sight.messages@[i])@
                == "smoke notification"@,
        SmokeStage::Identify => opt_text(sight.task) == Some("smoke-agent"@),
        SmokeStage::Events => exists|i: int|
            0 <= i < sight.events@.len() && tells_of_note(#[trigger] sight.events@[i]),
        _ => false,
    }
}

/// So is the second thing that is looked for.
pub open spec fn is_also_in_sight(stage: SmokeStage, sight: SmokeSight) -> bool {
    stage == SmokeStage::Events && exists|i: int|
        0 <= i < sight.events@.len() && tells_of_task(#[trigger] sight.events@[i])
}

fn find_message(messages: &Vec<String>) -> (r: bool)
    ensures
        r == exists|i: int|
            0 <= i < messages@.len() && (#[trigger] messages@[i])@ == "smoke notification"@,
{
    let mut i: usize = 0;
    while i < messages.len()
        invariant
            i <= messages@.len(),
            forall|k: int| 0 <= k < i ==> (#[trigger] messages@[k])@ != "smoke notification"@,
        decreases messages@.len() - i,
    {
        if same(messages[i].as_str(), "smoke notification") {
            assert(messages@[i as int]@ == "smoke notification"@);
            return true;
        }
        i += 1;
    }
    false
}

fn find_note(events: &Vec<EventRecord>) -> (r: bool)
    ensures
        r == exists|i: int| 0 <= i < events@.len() && tells_of_note(#[trigger] events@[i]),
{
    let mut i: usize = 0;
    while i < events.len()
        invariant
            i <= events@.len(),
            forall|k: int| 0 <= k < i ==> !tells_of_note(#[trigger] events@[k]),
        decreases events@.len() - i,
    {
        let e = &events[i];
        if same(e.kind.as_str(), "notification") && same(e.message.as_str(), "smoke notification") {
            assert(tells_of_note(events@[i as int]));
            return true;
        }
        i += 1;
    }
    false
}

fn find_task(events: &Vec<EventRecord>) -> (r: bool)
    ensures
        r == exists|i: int| 0 <= i < events@.len() && tells_of_task(#[trigger] events@[i]),
{
    let mut i: usize = 0;
    while i < events.len()
        invariant
            i <= events@.len(),
            forall|k: int| 0 <= k < i ==> !tells_of_task(#[trigger] events@[k]),
        decreases events@.len() - i,
    {
        let e = &events[i];
        if same(e.kind.as_str(), "metadata") && is_opt_text(&e.key, "task") && is_opt_text(
            &e.value,
            "smoke-agent",
        ) {
            assert(tells_of_task(events@[i as int]));
            return true;
        }
        i += 1;
    }
    false
}

/// Looks for what a stage looks for, and for the second thing where there is one.
pub fn smoke_look(stage: SmokeStage, sight: &SmokeSight) -> (r: (bool, bool))
    ensures
        r.0 == is_in_sight(stage, *sight),
        r.1 == is_also_in_sight(stage, *sight),
{
    match stage {
        SmokeStage::ReadScreen => {
            let shown = match &sight.screen {
                Some(s) => {
                    let chars = chars_of(s.as_str());
                    contains(chars.as_slice(), "vmux-smoke")
                },
                None => false,
            };
            (shown, false)
        },
        SmokeStage::Snapshot => (find_message(&sight.messages), false),
        SmokeStage::Identify => (is_opt_text(&sight.task, "smoke-agent"), false),
        SmokeStage::Events => (find_note(&sight.events), find_task(&sight.events)),
        _ => (false, false),
    }
}

/// What came of what a run did.
#[derive(Debug)]
#[allow(inconsistent_fields)]
pub enum SmokeEvent {
    Failed(String),
    Ensured { running: bool },
    Answered(SmokeAnswer),
    Saw(bool),
    HungUp,
    /// What came of attaching; none where the programs for that are not installed.
    Attached(Option<bool>),
    /// Which files there are, and whether the session is listed, or why the sessions are not.
    Files { socket: bool, pid: bool, state: bool, log: bool, listed: Result<bool, String> },
    Stopped { ok: bool, running: bool },
}

/// A check as plain values.
pub open spec fn check_pair(c: SmokeCheck) -> (Seq<char>, bool) {
    (c.name@, c.ok)
}

/// Checks as plain values.
pub open spec fn check_pairs(list: Seq<SmokeCheck>) -> Seq<(Seq<char>, bool)> {
    Seq::new(list.len(), |i: int| check_pair(list[i]))
}

/// A stage that asks the daemon.
pub open spec fn is_asking(stage: SmokeStage) -> bool {
    match stage {
        SmokeStage::Ping | SmokeStage::NewPane | SmokeStage::WaitPane | SmokeStage::ReadScreen
        | SmokeStage::Notify | SmokeStage::Snapshot | SmokeStage::LivePane | SmokeStage::Metadata
        | SmokeStage::Identify | SmokeStage::Events | SmokeStage::NewTab | SmokeStage::SwitchBase
        | SmokeStage::SwitchBack | SmokeStage::RestoreBase | SmokeStage::RestartPing => true,
        _ => false,
    }
}

/// A stage that looks for something over some time.
pub open spec fn is_watching(stage: SmokeStage) -> bool {
    match stage {
        SmokeStage::LiveOutput | SmokeStage::Follow | SmokeStage::Survives
        | SmokeStage::LiveAfterHangUp | SmokeStage::TabOutput | SmokeStage::BaseOutput
        | SmokeStage::LateOutput | SmokeStage::RestoredOutput | SmokeStage::RestoredPane => true,
        _ => false,
    }
}

/// A stage in which something outside can cut the run short.
pub open spec fn can_fail(stage: SmokeStage) -> bool {
    stage != SmokeStage::Stop && stage != SmokeStage::FinalStop && stage != SmokeStage::Over
}

/// The event is one that can come of what the stage does.
pub open spec fn fits(stage: SmokeStage, event: SmokeEvent) -> bool {
    match event {
        SmokeEvent::Failed(_) => can_fail(stage),
        SmokeEvent::Ensured { .. } => stage == SmokeStage::Start || stage == SmokeStage::Restart,
        SmokeEvent::Answered(_) => is_asking(stage),
        SmokeEvent::Saw(_) => is_watching(stage),
        SmokeEvent::HungUp => stage == SmokeStage::HangUp,
        SmokeEvent::Attached(_) => stage == SmokeStage::Attach,
        SmokeEvent::Files { .. } => stage == SmokeStage::Files,
        SmokeEvent::Stopped { .. } => stage == SmokeStage::Stop || stage == SmokeStage::FinalStop,
    }
}

/// A stage of the second part, in which the session is there again.
pub open spec fn is_second_part(stage: SmokeStage) -> bool {
    stage == SmokeStage::Restart || stage == SmokeStage::RestartPing || stage
        == SmokeStage::RestoredPane
}

/// The stage whose answer brings an id.
pub open spec fn brings_id(stage: SmokeStage) -> bool {
    stage == SmokeStage::NewPane || stage == SmokeStage::LivePane || stage == SmokeStage::NewTab
}

/// What in an answer cuts the run short.
pub open spec fn answer_problem(stage: SmokeStage, answer: SmokeAnswer) -> Option<SmokeProblem> {
    if !brings_id(stage) {
        None
    } else if !answer.ok {
        Some(SmokeProblem::Refused { stage, error: answer.error })
    } else if !answer.has_data && stage != SmokeStage::NewTab {
        Some(SmokeProblem::NoData { stage })
    } else if answer.id is None {
        Some(SmokeProblem::NoId { stage })
    } else {
        None
    }
}

/// What cuts the first part of a run short.
pub open spec fn event_problem(stage: SmokeStage, event: SmokeEvent) -> Option<SmokeProblem> {
    match event {
        SmokeEvent::Failed(why) => if is_second_part(stage) {
            None
        } else {
            Some(SmokeProblem::Outside(why))
        },
        SmokeEvent::Answered(answer) => answer_problem(stage, answer),
        SmokeEvent::Files { listed: Err(why), .. } => Some(SmokeProblem::Outside(why)),
        _ => None,
    }
}

/// What is said of the files of a session.
pub open spec fn file_checks(socket: bool, pid: bool, state: bool, log: bool) -> Seq<
    (Seq<char>, bool),
> {
    seq![
        ("socket-file"@, socket),
        ("pid-file"@, pid),
        ("state-file"@, state),
        ("log-file"@, log),
    ]
}

/// The stage behind a stage.
pub open spec fn following(stage: SmokeStage) -> SmokeStage {
    match stage {
        SmokeStage::Start => SmokeStage::Ping,
        SmokeStage::Ping => SmokeStage::NewPane,
        SmokeStage::NewPane => SmokeStage::WaitPane,
        SmokeStage::WaitPane => SmokeStage::ReadScreen,
        SmokeStage::ReadScreen => SmokeStage::Notify,
        SmokeStage::Notify => SmokeStage::Snapshot,
        SmokeStage::Snapshot => SmokeStage::LivePane,
        SmokeStage::LivePane => SmokeStage::LiveOutput,
        SmokeStage::LiveOutput => SmokeStage::Metadata,
        SmokeStage::Metadata => SmokeStage::Identify,
        SmokeStage::Identify => SmokeStage::Events,
        SmokeStage::Events => SmokeStage::Follow,
        SmokeStage::Follow => SmokeStage::HangUp,
        SmokeStage::HangUp => SmokeStage::Survives,
        SmokeStage::Survives => SmokeStage::LiveAfterHangUp,
        SmokeStage::LiveAfterHangUp => SmokeStage::NewTab,
        SmokeStage::NewTab => SmokeStage::TabOutput,
        SmokeStage::TabOutput => SmokeStage::SwitchBase,
        SmokeStage::SwitchBase => SmokeStage::BaseOutput,
        SmokeStage::BaseOutput => SmokeStage::LateOutput,
        SmokeStage::LateOutput => SmokeStage::SwitchBack,
        SmokeStage::SwitchBack => SmokeStage::RestoredOutput,
        SmokeStage::RestoredOutput => SmokeStage::RestoreBase,
        SmokeStage::RestoreBase => SmokeStage::Attach,
        SmokeStage::Attach => SmokeStage::Files,
        SmokeStage::Files => SmokeStage::Stop,
        SmokeStage::Stop => SmokeStage::Restart,
        SmokeStage::Restart => SmokeStage::RestartPing,
        SmokeStage::RestartPing => SmokeStage::RestoredPane,
        SmokeStage::RestoredPane => SmokeStage::FinalStop,
        SmokeStage::FinalStop => SmokeStage::Over,
        SmokeStage::Over => SmokeStage::Over,
    }
}

/// The stage behind a stage, where `cut` says whether the run was cut short before, once an
/// event has come.
pub open spec fn stage_after(stage: SmokeStage, cut: bool, event: SmokeEvent) -> SmokeStage {
    if !fits(stage, event) {
        stage
    } else if event_problem(stage, event) is Some {
        SmokeStage::Stop
    } else if event is Failed || (stage == SmokeStage::Stop && cut) {
        SmokeStage::FinalStop
    } else {
        following(stage)
    }
}

/// Text that is not there is empty.
pub open spec fn is_filled(id: Option<String>) -> bool {
    id matches Some(id) && id@.len() > 0
}

/// The name of the check that a stage makes.
pub open spec fn check_name(stage: SmokeStage) -> Seq<char> {
    match stage {
        SmokeStage::Start => "daemon-running"@,
        SmokeStage::Ping => "socket-ping"@,
        SmokeStage::NewPane => "new-pane"@,
        SmokeStage::WaitPane => "wait-pane"@,
        SmokeStage::ReadScreen => "read-screen-output"@,
        SmokeStage::Notify => "notify"@,
        SmokeStage::Snapshot => "snapshot-notification"@,
        SmokeStage::LivePane => "live-pane"@,
        SmokeStage::LiveOutput => "live-pane-output"@,
        SmokeStage::Metadata => "metadata-set"@,
        SmokeStage::Identify => "metadata-identify"@,
        SmokeStage::Events => "events-notification"@,
        SmokeStage::Follow => "events-follow"@,
        SmokeStage::HangUp => ""@,
        SmokeStage::Survives => "daemon-survives-sighup"@,
        SmokeStage::LiveAfterHangUp => "live-pane-after-sighup"@,
        SmokeStage::NewTab => "workspace-tab-add"@,
        SmokeStage::TabOutput => "workspace-tab-active-output"@,
        SmokeStage::SwitchBase => "workspace-tab-switch-base"@,
        SmokeStage::BaseOutput => "workspace-tab-base-output"@,
        SmokeStage::LateOutput => "workspace-tab-inactive-output"@,
        SmokeStage::SwitchBack => "workspace-tab-switch-back"@,
        SmokeStage::RestoredOutput => "workspace-tab-restored-output"@,
        SmokeStage::RestoreBase => "workspace-tab-restore-base"@,
        SmokeStage::Attach => "attach-pty-render"@,
        SmokeStage::Files => "socket-file"@,
        SmokeStage::Stop => "shutdown-before-restore"@,
        SmokeStage::Restart => "restart-daemon"@,
        SmokeStage::RestartPing => "restart-socket-ping"@,
        SmokeStage::RestoredPane => "restore-pane-output"@,
        SmokeStage::FinalStop => "shutdown-after-restore"@,
        SmokeStage::Over => ""@,
    }
}

/// The name of the check that a stage makes.
fn name_of_check(stage: SmokeStage) -> (r: &'static str)
    ensures
        r@ == check_name(stage),
{
    match stage {
        SmokeStage::Start => "daemon-running",
        SmokeStage::Ping => "socket-ping",
        SmokeStage::NewPane => "new-pane",
        SmokeStage::WaitPane => "wait-pane",
        SmokeStage::ReadScreen => "read-screen-output",
        SmokeStage::Notify => "notify",
        SmokeStage::Snapshot => "snapshot-notification",
        SmokeStage::LivePane => "live-pane",
        SmokeStage::LiveOutput => "live-pane-output",
        SmokeStage::Metadata => "metadata-set",
        SmokeStage::Identify => "metadata-identify",
        SmokeStage::Events => "events-notification",
        SmokeStage::Follow => "events-follow",
        SmokeStage::HangUp => "",
        SmokeStage::Survives => "daemon-survives-sighup",
        SmokeStage::LiveAfterHangUp => "live-pane-after-sighup",
        SmokeStage::NewTab => "workspace-tab-add",
        SmokeStage::TabOutput => "workspace-tab-active-output",
        SmokeStage::SwitchBase => "workspace-tab-switch-base",
        SmokeStage::BaseOutput => "workspace-tab-base-output",
        SmokeStage::LateOutput => "workspace-tab-inactive-output",
        SmokeStage::SwitchBack => "workspace-tab-switch-back",
        SmokeStage::RestoredOutput => "workspace-tab-restored-output",
        SmokeStage::RestoreBase => "workspace-tab-restore-base",
        SmokeStage::Attach => "attach-pty-render",
        SmokeStage::Files => "socket-file",
        SmokeStage::Stop => "shutdown-before-restore",
        SmokeStage::Restart => "restart-daemon",
        SmokeStage::RestartPing => "restart-socket-ping",
        SmokeStage::RestoredPane => "restore-pane-output",
        SmokeStage::FinalStop => "shutdown-after-restore",
        SmokeStage::Over => "",
    }
}

/// The stage behind a stage.
fn stage_behind(stage: SmokeStage) -> (r: SmokeStage)
    ensures
        r == following(stage),
{
    match stage {
        SmokeStage::Start => SmokeStage::Ping,
        SmokeStage::Ping => SmokeStage::NewPane,
        SmokeStage::NewPane => SmokeStage::WaitPane,
        SmokeStage::WaitPane => SmokeStage::ReadScreen,
        SmokeStage::ReadScreen => SmokeStage::Notify,
        SmokeStage::Notify => SmokeStage::Snapshot,
        SmokeStage::Snapshot => SmokeStage::LivePane,
        SmokeStage::LivePane => SmokeStage::LiveOutput,
        SmokeStage::LiveOutput => SmokeStage::Metadata,
        SmokeStage::Metadata => SmokeStage::Identify,
        SmokeStage::Identify => SmokeStage::Events,
        SmokeStage::Events => SmokeStage::Follow,
        SmokeStage::Follow => SmokeStage::HangUp,
        SmokeStage::HangUp => SmokeStage::Survives,
        SmokeStage::Survives => SmokeStage::LiveAfterHangUp,
        SmokeStage::LiveAfterHangUp => SmokeStage::NewTab,
        SmokeStage::NewTab => SmokeStage::TabOutput,
        SmokeStage::TabOutput => SmokeStage::SwitchBase,
        SmokeStage::SwitchBase => SmokeStage::BaseOutput,
        SmokeStage::BaseOutput => SmokeStage::LateOutput,
        SmokeStage::LateOutput => SmokeStage::SwitchBack,
        SmokeStage::SwitchBack => SmokeStage::RestoredOutput,
        SmokeStage::RestoredOutput => SmokeStage::RestoreBase,
        SmokeStage::RestoreBase => SmokeStage::Attach,
        SmokeStage::Attach => SmokeStage::Files,
        SmokeStage::Files => SmokeStage::Stop,
        SmokeStage::Stop => SmokeStage::Restart,
        SmokeStage::Restart => SmokeStage::RestartPing,
        SmokeStage::RestartPing => SmokeStage::RestoredPane,
        SmokeStage::RestoredPane => SmokeStage::FinalStop,
        SmokeStage::FinalStop => SmokeStage::Over,
        SmokeStage::Over => SmokeStage::Over,
    }
}

/// A stage whose check is good where the answer shows what is looked for. Of other answers
/// it is asked that they are no errors.
pub open spec fn looks_for_text(stage: SmokeStage) -> bool {
    stage == SmokeStage::ReadScreen || stage == SmokeStage::Snapshot || stage
        == SmokeStage::Identify || stage == SmokeStage::Events
}

/// The checks that an event adds.
pub open spec fn new_checks(stage: SmokeStage, event: SmokeEvent) -> Seq<(Seq<char>, bool)> {
    if !fits(stage, event) {
        Seq::empty()
    } else if let SmokeEvent::Files { socket, pid, state, log, listed } = event {
        match listed {
            Ok(listed) => file_checks(socket, pid, state, log).push(("session-discovery"@, listed)),
            Err(_) => file_checks(socket, pid, state, log),
        }
    } else if event_problem(stage, event) is Some {
        Seq::empty()
    } else {
        match event {
            SmokeEvent::Failed(why) => seq![("restore-error:"@ + why@, false)],
            SmokeEvent::Ensured { running } => seq![(check_name(stage), running)],
            SmokeEvent::Answered(answer) => {
                let ok = if brings_id(stage) {
                    is_filled(answer.id)
                } else if looks_for_text(stage) {
                    answer.shown
                } else {
                    answer.ok
                };
                if stage == SmokeStage::Events {
                    seq![(check_name(stage), ok), ("events-metadata"@, answer.also_shown)]
                } else {
                    seq![(check_name(stage), ok)]
                }
            },
            SmokeEvent::Saw(seen) => seq![(check_name(stage), seen)],
            SmokeEvent::HungUp => Seq::empty(),
            SmokeEvent::Attached(Some(shown)) => seq![(check_name(stage), shown)],
            SmokeEvent::Attached(None) => seq![("attach-pty-skipped"@, true)],
            SmokeEvent::Files { .. } => Seq::empty(),
            SmokeEvent::Stopped { ok, running } => seq![(check_name(stage), ok && !running)],
        }
    }
}

/// The id that an answer brings for a stage.
pub open spec fn brought(
    stage: SmokeStage,
    event: SmokeEvent,
    wanted: SmokeStage,
    before: Seq<char>,
) -> Seq<char> {
    match event {
        SmokeEvent::Answered(answer) => if stage == wanted && answer_problem(stage, answer) is None {
            match answer.id {
                Some(id) => id@,
                None => before,
            }
        } else {
            before
        },
        _ => before,
    }
}

/// The pane of the tab: as the answer has it, or else the pane that stays.
pub open spec fn brought_tab_pane(run: SmokeRun, event: SmokeEvent) -> Seq<char> {
    match event {
        SmokeEvent::Answered(answer) => if run.stage == SmokeStage::NewTab && answer_problem(
            run.stage,
            answer,
        ) is None {
            match answer.pane {
                Some(pane) => pane@,
                None => run.live_pane@,
            }
        } else {
            run.tab_pane@
        },
        _ => run.tab_pane@,
    }
}

/// A run that is to begin.
pub fn smoke_start() -> (r: SmokeRun)
    ensures
        r.stage == SmokeStage::Start,
        r.checks@.len() == 0,
        r.problem is None,
        r.pane@.len() == 0,
        r.live_pane@.len() == 0,
        r.tab@.len() == 0,
        r.tab_pane@.len() == 0,
{
    SmokeRun {
        stage: SmokeStage::Start,
        pane: String::new(),
        live_pane: String::new(),
        tab: String::new(),
        tab_pane: String::new(),
        checks: Vec::new(),
        problem: None,
    }
}

/// Adds a check.
fn add_check(checks: &mut Vec<SmokeCheck>, name: &str, ok: bool)
    ensures
        check_pairs(final(checks)@) == check_pairs(old(checks)@).push((name@, ok)),
{
    let ghost before = checks@;
    checks.push(SmokeCheck { name: name.to_string(), ok });
    assert(check_pairs(checks@) =~= check_pairs(before).push((name@, ok)));
}

/// Whether a stage asks the daemon.
fn asking(stage: SmokeStage) -> (r: bool)
    ensures
        r == is_asking(stage),
{
    match stage {
        SmokeStage::Ping | SmokeStage::NewPane | SmokeStage::WaitPane | SmokeStage::ReadScreen
        | SmokeStage::Notify | SmokeStage::Snapshot | SmokeStage::LivePane | SmokeStage::Metadata
        | SmokeStage::Identify | SmokeStage::Events | SmokeStage::NewTab | SmokeStage::SwitchBase
        | SmokeStage::SwitchBack | SmokeStage::RestoreBase | SmokeStage::RestartPing => true,
        _ => false,
    }
}

/// Whether a stage looks for something over some time.
fn watching(stage: SmokeStage) -> (r: bool)
    ensures
        r == is_watching(stage),
{
    match stage {
        SmokeStage::LiveOutput | SmokeStage::Follow | SmokeStage::Survives
        | SmokeStage::LiveAfterHangUp | SmokeStage::TabOutput | SmokeStage::BaseOutput
        | SmokeStage::LateOutput | SmokeStage::RestoredOutput | SmokeStage::RestoredPane => true,
        _ => false,
    }
}

/// Whether the event can come of what the stage does.
fn event_fits(stage: SmokeStage, event: &SmokeEvent) -> (r: bool)
    ensures
        r == fits(stage, *event),
{
    match event {
        SmokeEvent::Failed(_) => stage != SmokeStage::Stop && stage != SmokeStage::FinalStop
            && stage != SmokeStage::Over,
        SmokeEvent::Ensured { .. } => stage == SmokeStage::Start || stage == SmokeStage::Restart,
        SmokeEvent::Answered(_) => asking(stage),
        SmokeEvent::Saw(_) => watching(stage),
        SmokeEvent::HungUp => stage == SmokeStage::HangUp,
        SmokeEvent::Attached(_) => stage == SmokeStage::Attach,
        SmokeEvent::Files { .. } => stage == SmokeStage::Files,
        SmokeEvent::Stopped { .. } => stage == SmokeStage::Stop || stage == SmokeStage::FinalStop,
    }
}

/// Takes in what an answer brings.
fn take_answer(run: &mut SmokeRun, answer: SmokeAnswer)
    requires
        is_asking(old(run).stage),
        old(run).problem is None || is_second_part(old(run).stage),
    ensures
        final(run).stage == stage_after(
            old(run).stage,
            old(run).problem is Some,
            SmokeEvent::Answered(answer),
        ),
        check_pairs(final(run).checks@) == check_pairs(old(run).checks@) + new_checks(
            old(run).stage,
            SmokeEvent::Answered(answer),
        ),
        final(run).problem == match answer_problem(old(run).stage, answer) {
            Some(p) => Some(p),
            None => old(run).problem,
        },
        final(run).pane@ == brought(
            old(run).stage,
            SmokeEvent::Answered(answer),
            SmokeStage::NewPane,
            old(run).pane@,
        ),
        final(run).live_pane@ == brought(
            old(run).stage,
            SmokeEvent::Answered(answer),
            SmokeStage::LivePane,
            old(run).live_pane@,
        ),
        final(run).tab@ == brought(
            old(run).stage,
            SmokeEvent::Answered(answer),
            SmokeStage::NewTab,
            old(run).tab@,
        ),
        final(run).tab_pane@ == brought_tab_pane(*old(run), SmokeEvent::Answered(answer)),
{
    let stage = run.stage;
    let ghost event = SmokeEvent::Answered(answer);
    let ghost checks = check_pairs(run.checks@);
    if stage == SmokeStage::NewPane || stage == SmokeStage::LivePane || stage == SmokeStage::NewTab {
        if !answer.ok {
            run.problem = Some(SmokeProblem::Refused { stage, error: answer.error });
            run.stage = SmokeStage::Stop;
            assert(check_pairs(run.checks@) =~= checks + new_checks(stage, event));
            return ;
        }
        if !answer.has_data && stage != SmokeStage::NewTab {
            run.problem = Some(SmokeProblem::NoData { stage });
            run.stage = SmokeStage::Stop;
            assert(check_pairs(run.checks@) =~= checks + new_checks(stage, event));
            return ;
        }
        match answer.id {
            None => {
                run.problem = Some(SmokeProblem::NoId { stage });
                run.stage = SmokeStage::Stop;
                assert(check_pairs(run.checks@) =~= checks + new_checks(stage, event));
            },
            Some(id) => {
                let filled = id.as_str().unicode_len() > 0;
                add_check(&mut run.checks, name_of_check(stage), filled);
                assert(check_pairs(run.checks@) =~= checks + new_checks(stage, event));
                if stage == SmokeStage::NewPane {
                    run.pane = id;
                } else if stage == SmokeStage::LivePane {
                    run.live_pane = id;
                } else {
                    run.tab = id;
                    run.tab_pane = match answer.pane {
                        Some(pane) => pane,
                        None => run.live_pane.clone(),
                    };
                }
                run.stage = stage_behind(stage);
            },
        }
        return ;
    }
    let ok = if stage == SmokeStage::ReadScreen || stage == SmokeStage::Snapshot || stage
        == SmokeStage::Identify || stage == SmokeStage::Events {
        answer.shown
    } else {
        answer.ok
    };
    add_check(&mut run.checks, name_of_check(stage), ok);
    if stage == SmokeStage::Events {
        add_check(&mut run.checks, "events-metadata", answer.also_shown);
    }
    assert(check_pairs(run.checks@) =~= checks + new_checks(stage, event));
    run.stage = stage_behind(stage);
}

/// A run that can go on: only a run that was cut short is past its first part with a problem.
pub open spec fn is_sound(run: SmokeRun) -> bool {
    run.problem is Some ==> run.stage == SmokeStage::Stop || run.stage == SmokeStage::FinalStop
        || run.stage == SmokeStage::Over
}

/// Takes in what came of what the run did. What cannot have come of it changes nothing.
pub fn smoke_step(run: &mut SmokeRun, event: SmokeEvent)
    requires
        is_sound(*old(run)),
    ensures
        is_sound(*final(run)),
        final(run).stage == stage_after(old(run).stage, old(run).problem is Some, event),
        check_pairs(final(run).checks@) == check_pairs(old(run).checks@) + new_checks(
            old(run).stage,
            event,
        ),
        final(run).problem == if fits(old(run).stage, event) {
            match event_problem(old(run).stage, event) {
                Some(p) => Some(p),
                None => old(run).problem,
            }
        } else {
            old(run).problem
        },
        final(run).pane@ == brought(old(run).stage, event, SmokeStage::NewPane, old(run).pane@),
        final(run).live_pane@ == brought(
            old(run).stage,
            event,
            SmokeStage::LivePane,
            old(run).live_pane@,
        ),
        final(run).tab@ == brought(old(run).stage, event, SmokeStage::NewTab, old(run).tab@),
        final(run).tab_pane@ == brought_tab_pane(*old(run), event),
{
    let ghost all = event;
    let stage = run.stage;
    let ghost checks = check_pairs(run.checks@);
    if !event_fits(stage, &event) {
        assert(check_pairs(run.checks@) =~= checks + new_checks(stage, all));
        return ;
    }
    match event {
        SmokeEvent::Answered(answer) => {
            take_answer(run, answer);
        },
        SmokeEvent::Failed(why) => {
            if stage == SmokeStage::Restart || stage == SmokeStage::RestartPing || stage
                == SmokeStage::RestoredPane {
                let mut name = "restore-error:".to_string();
                name.append(why.as_str());
                add_check(&mut run.checks, name.as_str(), false);
                run.stage = SmokeStage::FinalStop;
            } else {
                run.problem = Some(SmokeProblem::Outside(why));
                run.stage = SmokeStage::Stop;
            }
            assert(check_pairs(run.checks@) =~= checks + new_checks(stage, all));
        },
        SmokeEvent::Ensured { running } => {
            add_check(&mut run.checks, name_of_check(stage), running);
            run.stage = stage_behind(stage);
            assert(check_pairs(run.checks@) =~= checks + new_checks(stage, all));
        },
        SmokeEvent::Saw(seen) => {
            add_check(&mut run.checks, name_of_check(stage), seen);
            run.stage = stage_behind(stage);
            assert(check_pairs(run.checks@) =~= checks + new_checks(stage, all));
        },
        SmokeEvent::HungUp => {
            run.stage = stage_behind(stage);
            assert(check_pairs(run.checks@) =~= checks + new_checks(stage, all));
        },
        SmokeEvent::Attached(shown) => {
            match shown {
                Some(shown) => add_check(&mut run.checks, name_of_check(stage), shown),
                None => add_check(&mut run.checks, "attach-pty-skipped", true),
            }
            run.stage = stage_behind(stage);
            assert(check_pairs(run.checks@) =~= checks + new_checks(stage, all));
        },
        SmokeEvent::Files { socket, pid, state, log, listed } => {
            add_check(&mut run.checks, "socket-file", socket);
            add_check(&mut run.checks, "pid-file", pid);
            add_check(&mut run.checks, "state-file", state);
            add_check(&mut run.checks, "log-file", log);
            match listed {
                Ok(listed) => {
                    add_check(&mut run.checks, "session-discovery", listed);
                    run.stage = stage_behind(stage);
                },
                Err(why) => {
                    run.problem = Some(SmokeProblem::Outside(why));
                    run.stage = SmokeStage::Stop;
                },
            }
            assert(check_pairs(run.checks@) =~= checks + new_checks(stage, all));
        },
        SmokeEvent::Stopped { ok, running } => {
            add_check(&mut run.checks, name_of_check(stage), ok && !running);
            let cut = run.problem.is_some();
            run.stage = if stage == SmokeStage::Stop && cut {
                SmokeStage::FinalStop
            } else {
                stage_behind(stage)
            };
            assert(check_pairs(run.checks@) =~= checks + new_checks(stage, all));
        },
    }
}

/// Every check went well.
pub open spec fn all_well(checks: Seq<SmokeCheck>) -> bool {
    forall|i: int| 0 <= i < checks.len() ==> (#[trigger] checks[i]).ok
}

/// How a run ended.
pub open spec fn judged(run: SmokeRun) -> SmokeVerdict {
    if run.problem is Some {
        SmokeVerdict::CutShort
    } else if all_well(run.checks@) {
        SmokeVerdict::Passed
    } else {
        SmokeVerdict::ChecksFailed
    }
}

/// How a run ended.
pub fn smoke_verdict(run: &SmokeRun) -> (r: SmokeVerdict)
    ensures
        r == judged(*run),
{
    if run.problem.is_some() {
        return SmokeVerdict::CutShort;
    }
    let mut i: usize = 0;
    while i < run.checks.len()
        invariant
            i <= run.checks.len(),
            run.problem is None,
            forall|j: int| 0 <= j < i ==> (#[trigger] run.checks@[j]).ok,
        decreases run.checks.len() - i,
    {
        if !run.checks[i].ok {
            return SmokeVerdict::ChecksFailed;
        }
        i += 1;
    }
    SmokeVerdict::Passed
}

/// The action watches a pane for a text.
pub open spec fn watches(
    action: SmokeAction,
    pane: Seq<char>,
    needle: Seq<char>,
    attempts: int,
) -> bool {
    action matches SmokeAction::Watch { pane: p, needle: n, attempts: a } && p@ == pane && n@
        == needle && a == attempts
}

/// The action asks for a pane with a command.
pub open spec fn asks_for_pane(
    action: SmokeAction,
    command: Seq<char>,
    title: Seq<char>,
) -> bool {
    action matches SmokeAction::Ask(
        Request::NewPane { direction, command: c, title: t, workspace, surface_kind },
    ) && direction == SplitDirection::Right && c@ == command && opt_text(t) == Some(title)
        && workspace is None && surface_kind is None
}

/// The action asks to switch to a tab.
pub open spec fn asks_for_tab(action: SmokeAction, tab: Seq<char>) -> bool {
    action matches SmokeAction::Ask(Request::SwitchTab { workspace, tab: t }) && workspace is None
        && t@ == tab
}

/// The action is the one that a run does next.
pub open spec fn is_next(run: SmokeRun, action: SmokeAction) -> bool {
    match run.stage {
        SmokeStage::Start | SmokeStage::Restart => action is Ensure,
        SmokeStage::Ping | SmokeStage::RestartPing => action == SmokeAction::Ask(Request::Ping),
        SmokeStage::NewPane => asks_for_pane(
            action,
            "/bin/sh -c 'printf vmux-smoke'"@,
            "smoke"@,
        ),
        SmokeStage::WaitPane => action matches SmokeAction::Ask(
            Request::WaitPane { pane, workspace, all, timeout_ms },
        ) && opt_text(pane) == Some(run.pane@) && workspace is None && !all && timeout_ms == Some(
            3_000u64,
        ),
        SmokeStage::ReadScreen => action matches SmokeAction::Ask(
            Request::ReadScreen { pane, scrollback, limit_bytes, ansi, history_lines },
        ) && opt_text(pane) == Some(run.pane@) && scrollback && limit_bytes == Some(16_000usize)
            && !ansi && history_lines == 0,
        SmokeStage::Notify => action matches SmokeAction::Ask(
            Request::Notify { pane, workspace, status, color, clear, message, title },
        ) && opt_text(pane) == Some(run.pane@) && workspace is None && opt_text(status) == Some(
            "attention"@,
        ) && opt_text(color) == Some("blue"@) && !clear && message@ == "smoke notification"@
            && title is None,
        SmokeStage::Snapshot => action matches SmokeAction::Ask(
            Request::Snapshot { since, full, lean, scrollback_panes },
        ) && since is None && full && !lean && scrollback_panes@.len() == 0,
        SmokeStage::LivePane => asks_for_pane(
            action,
            "/bin/sh -c 'printf vmux-live; sleep 20'"@,
            "smoke-live"@,
        ),
        SmokeStage::LiveOutput | SmokeStage::LiveAfterHangUp | SmokeStage::BaseOutput => watches(
            action,
            run.live_pane@,
            "vmux-live"@,
            20,
        ),
        SmokeStage::Metadata => action matches SmokeAction::Ask(
            Request::SetPaneMetadata { pane, key, value },
        ) && opt_text(pane) == Some(run.live_pane@) && key@ == "task"@ && opt_text(value) == Some(
            "smoke-agent"@,
        ),
        SmokeStage::Identify => action matches SmokeAction::Ask(Request::Identify { pane })
            && opt_text(pane) == Some(run.live_pane@),
        SmokeStage::Events => action == SmokeAction::Ask(Request::Events { limit: 20 }),
        SmokeStage::Follow => action matches SmokeAction::Follow { pane } && pane@
            == run.live_pane@,
        SmokeStage::HangUp => action is HangUp,
        SmokeStage::Survives => action matches SmokeAction::PingUntil { attempts } && attempts
            == 20,
        SmokeStage::NewTab => action matches SmokeAction::Ask(
            Request::NewTab { workspace, title, command },
        ) && workspace is None && opt_text(title) == Some("smoke-tab"@) && opt_text(command)
            == Some(
            "/bin/sh -c 'printf vmux-tab-start; sleep 1; printf vmux-tab-late; sleep 20'"@,
        ),
        SmokeStage::TabOutput => watches(action, run.tab_pane@, "vmux-tab-start"@, 20),
        SmokeStage::SwitchBase | SmokeStage::RestoreBase => asks_for_tab(action, "tab-1"@),
        SmokeStage::LateOutput => watches(action, run.tab_pane@, "vmux-tab-late"@, 40),
        SmokeStage::SwitchBack => asks_for_tab(action, run.tab@),
        SmokeStage::RestoredOutput => watches(action, run.tab_pane@, "vmux-tab-late"@, 20),
        SmokeStage::Attach => action matches SmokeAction::Attach { needle } && needle@
            == "vmux-live"@,
        SmokeStage::Files => action is LookAtFiles,
        SmokeStage::Stop | SmokeStage::FinalStop => action matches SmokeAction::ShutDown { attempts }
            && attempts == 40,
        SmokeStage::RestoredPane => watches(action, run.live_pane@, "vmux-live"@, 30),
        SmokeStage::Over => action == SmokeAction::Finish(judged(run)),
    }
}

/// What a run does next.
pub fn smoke_action(run: &SmokeRun) -> (r: SmokeAction)
    ensures
        is_next(*run, r),
{
    match run.stage {
        SmokeStage::Start | SmokeStage::Restart => SmokeAction::Ensure,
        SmokeStage::Ping | SmokeStage::RestartPing => SmokeAction::Ask(Request::Ping),
        SmokeStage::NewPane => SmokeAction::Ask(
            Request::NewPane {
                direction: SplitDirection::Right,
                command: "/bin/sh -c 'printf vmux-smoke'".to_string(),
                title: Some("smoke".to_string()),
                workspace: None,
                surface_kind: None,
            },
        ),
        SmokeStage::WaitPane => SmokeAction::Ask(
            Request::WaitPane {
                pane: Some(run.pane.clone()),
                workspace: None,
                all: false,
                timeout_ms: Some(3_000),
            },
        ),
        SmokeStage::ReadScreen => SmokeAction::Ask(
            Request::ReadScreen {
                pane: Some(run.pane.clone()),
                scrollback: true,
                limit_bytes: Some(16_000),
                ansi: false,
                history_lines: 0,
            },
        ),
        SmokeStage::Notify => SmokeAction::Ask(
            Request::Notify {
                pane: Some(run.pane.clone()),
                workspace: None,
                status: Some("attention".to_string()),
                color: Some("blue".to_string()),
                clear: false,
                message: "smoke notification".to_string(),
                title: None,
            },
        ),
        SmokeStage::Snapshot => SmokeAction::Ask(
            Request::Snapshot { since: None, full: true, lean: false, scrollback_panes: Vec::new() },
        ),
        SmokeStage::LivePane => SmokeAction::Ask(
            Request::NewPane {
                direction: SplitDirection::Right,
                command: "/bin/sh -c 'printf vmux-live; sleep 20'".to_string(),
                title: Some("smoke-live".to_string()),
                workspace: None,
                surface_kind: None,
            },
        ),
        SmokeStage::LiveOutput | SmokeStage::LiveAfterHangUp | SmokeStage::BaseOutput => {
            SmokeAction::Watch { pane: run.live_pane.clone(), needle: "vmux-live", attempts: 20 }
        },
        SmokeStage::Metadata => SmokeAction::Ask(
            Request::SetPaneMetadata {
                pane: Some(run.live_pane.clone()),
                key: "task".to_string(),
                value: Some("smoke-agent".to_string()),
            },
        ),
        SmokeStage::Identify => SmokeAction::Ask(
            Request::Identify { pane: Some(run.live_pane.clone()) },
        ),
        SmokeStage::Events => SmokeAction::Ask(Request::Events { limit: 20 }),
        SmokeStage::Follow => SmokeAction::Follow { pane: run.live_pane.clone() },
        SmokeStage::HangUp => SmokeAction::HangUp,
        SmokeStage::Survives => SmokeAction::PingUntil { attempts: 20 },
        SmokeStage::NewTab => SmokeAction::Ask(
            Request::NewTab {
                workspace: None,
                title: Some("smoke-tab".to_string()),
                command: Some(
                    "/bin/sh -c 'printf vmux-tab-start; sleep 1; printf vmux-tab-late; sleep 20'".to_string(),
                ),
            },
        ),
        SmokeStage::TabOutput => SmokeAction::Watch {
            pane: run.tab_pane.clone(),
            needle: "vmux-tab-start",
            attempts: 20,
        },
        SmokeStage::SwitchBase | SmokeStage::RestoreBase => SmokeAction::Ask(
            Request::SwitchTab { workspace: None, tab: "tab-1".to_string() },
        ),
        SmokeStage::LateOutput => SmokeAction::Watch {
            pane: run.tab_pane.clone(),
            needle: "vmux-tab-late",
            attempts: 40,
        },
        SmokeStage::SwitchBack => SmokeAction::Ask(
            Request::SwitchTab { workspace: None, tab: run.tab.clone() },
        ),
        SmokeStage::RestoredOutput => SmokeAction::Watch {
            pane: run.tab_pane.clone(),
            needle: "vmux-tab-late",
            attempts: 20,
        },
        SmokeStage::Attach => SmokeAction::Attach { needle: "vmux-live" },
        SmokeStage::Files => SmokeAction::LookAtFiles,
        SmokeStage::Stop | SmokeStage::FinalStop => SmokeAction::ShutDown { attempts: 40 },
        SmokeStage::RestoredPane => SmokeAction::Watch {
            pane: run.live_pane.clone(),
            needle: "vmux-live",
            attempts: 30,
        },
        SmokeStage::Over => SmokeAction::Finish(smoke_verdict(run)),
    }
}

/// How many stages are still to come.
pub open spec fn stages_left(stage: SmokeStage) -> nat {
    match stage {
        SmokeStage::Start => 31,
        SmokeStage::Ping => 30,
        SmokeStage::NewPane => 29,
        SmokeStage::WaitPane => 28,
        SmokeStage::ReadScreen => 27,
        SmokeStage::Notify => 26,
        SmokeStage::Snapshot => 25,
        SmokeStage::LivePane => 24,
        SmokeStage::LiveOutput => 23,
        SmokeStage::Metadata => 22,
        SmokeStage::Identify => 21,
        SmokeStage::Events => 20,
        SmokeStage::Follow => 19,
        SmokeStage::HangUp => 18,
        SmokeStage::Survives => 17,
        SmokeStage::LiveAfterHangUp => 16,
        SmokeStage::NewTab => 15,
        SmokeStage::TabOutput => 14,
        SmokeStage::SwitchBase => 13,
        SmokeStage::BaseOutput => 12,
        SmokeStage::LateOutput => 11,
        SmokeStage::SwitchBack => 10,
        SmokeStage::RestoredOutput => 9,
        SmokeStage::RestoreBase => 8,
        SmokeStage::Attach => 7,
        SmokeStage::Files => 6,
        SmokeStage::Stop => 5,
        SmokeStage::Restart => 4,
        SmokeStage::RestartPing => 3,
        SmokeStage::RestoredPane => 2,
        SmokeStage::FinalStop => 1,
        SmokeStage::Over => 0,
    }
}

/// A run comes to its end: each event that can come of what it does leaves fewer stages.
pub proof fn every_event_leads_on(stage: SmokeStage, cut: bool, event: SmokeEvent)
    requires
        fits(stage, event),
    ensures
        stages_left(stage_after(stage, cut, event)) < stages_left(stage),
{
}

/// Whatever happens, the daemon of a run is shut down before the run is over.
pub proof fn the_daemon_is_shut_down(stage: SmokeStage, cut: bool, event: SmokeEvent)
    requires
        stage != SmokeStage::Over,
        stage_after(stage, cut, event) == SmokeStage::Over,
    ensures
        stage == SmokeStage::FinalStop,
        event is Stopped,
{
}

/// Bytes stand in a transcript.
pub open spec fn stands_in(bytes: Seq<u8>, needle: Seq<u8>) -> bool {
    exists|i: int|
        0 <= i <= bytes.len() - needle.len() && #[trigger] bytes.subrange(i, i + needle.len())
            == needle
}

/// Whether bytes stand in a transcript.
fn finds_bytes(bytes: &[u8], needle: &[u8]) -> (r: bool)
    ensures
        r == stands_in(bytes@, needle@),
{
    if needle.len() > bytes.len() {
        return false;
    }
    let total = bytes.len();
    let last = total - needle.len();
    let mut i: usize = 0;
    while i <= last
        invariant
            total == bytes@.len(),
            last == bytes@.len() - needle@.len(),
            i <= last + 1,
            last < usize::MAX || i <= last,
            forall|j: int|
                0 <= j < i ==> #[trigger] bytes@.subrange(j, j + needle@.len()) != needle@,
        decreases last + 1 - i,
    {
        let mut k: usize = 0;
        let ghost here = bytes@.subrange(i as int, i + needle@.len());
        while k < needle.len() && bytes[i + k] == needle[k]
            invariant
                k <= needle@.len(),
                i <= last,
                total == bytes@.len(),
                last == bytes@.len() - needle@.len(),
                here == bytes@.subrange(i as int, i + needle@.len()),
                forall|j: int| 0 <= j < k ==> here[j] == needle@[j],
            decreases needle.len() - k,
        {
            assert(here[k as int] == bytes@[i + k]);
            k += 1;
        }
        if k == needle.len() {
            assert(here =~= needle@);
            return true;
        }
        assert(here[k as int] == bytes@[i + k]);
        if i == last {
            return false;
        }
        i += 1;
    }
    false
}

/// Whether a session was drawn in a terminal: the text and the program's name stand in what
/// the terminal showed, and it ended by itself or with the status of a timeout.
pub fn attach_rendered(
    transcript: &[u8],
    needle: &[u8],
    name: &[u8],
    success: bool,
    code: Option<i32>,
) -> (r: bool)
    ensures
        r == (stands_in(transcript@, needle@) && stands_in(transcript@, name@) && (success || code
            == Some(124i32))),
{
    let timed_out = match code {
        Some(code) => code == 124,
        None => false,
    };
    finds_bytes(transcript, needle) && finds_bytes(transcript, name) && (success || timed_out)
}

} // verus!

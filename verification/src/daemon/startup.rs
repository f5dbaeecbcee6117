//! How a daemon comes up.
use vstd::prelude::*;

verus! {

/// How far it is with having a daemon.
#[derive(Debug, Clone, Copy, PartialEq, Eq, Structural)]
pub enum EnsureState {
    /// Does one run?
    Asking,
    /// One is started. Did that go well?
    Starting,
    /// Does one run within three seconds? Whether its start went well is known.
    Waiting { started: bool },
    Running,
    /// It could not be started.
    StartFailed,
    /// It was started and did not come up.
    NotUp,
}

/// The next state of having a daemon, by the answer to the question that the state asks. A
/// daemon that runs in the end will do, whoever started it.
pub fn ensure_running(state: EnsureState, yes: bool) -> (r: EnsureState)
    ensures
        r == match state {
            EnsureState::Asking => if yes {
                EnsureState::Running
            } else {
                EnsureState::Starting
            },
            EnsureState::Starting => EnsureState::Waiting { started: yes },
            EnsureState::Waiting { started } => if yes {
                EnsureState::Running
            } else if started {
                EnsureState::NotUp
            } else {
                EnsureState::StartFailed
            },
            _ => state,
        },
{
    match state {
        EnsureState::Asking => if yes {
            EnsureState::Running
        } else {
            EnsureState::Starting
        },
        EnsureState::Starting => EnsureState::Waiting { started: yes },
        EnsureState::Waiting { started } => if yes {
            EnsureState::Running
        } else if started {
            EnsureState::NotUp
        } else {
            EnsureState::StartFailed
        },
        EnsureState::Running => EnsureState::Running,
        EnsureState::StartFailed => EnsureState::StartFailed,
        EnsureState::NotUp => EnsureState::NotUp,
    }
}

/// Whether a daemon runs: its socket is there, and answers a ping without an error.
pub fn is_running(socket_exists: bool, ping: Option<bool>) -> (r: bool)
    ensures
        r == (socket_exists && ping == Some(true)),
{
    socket_exists && match ping {
        Some(ok) => ok,
        None => false,
    }
}

/// What became of starting a daemon.
#[derive(Debug, Clone, Copy, PartialEq, Eq, Structural)]
pub enum StartOutcome {
    AlreadyRunning,
    Started,
    /// The helper that was to become the daemon has ended.
    HelperExited,
    NotUp,
}

/// What became of starting a daemon: whether one ran before, whether one runs in the end, and
/// whether the helper has ended.
pub fn start_outcome(ran_before: bool, runs: bool, helper_exited: bool) -> (r: StartOutcome)
    ensures
        r == if ran_before {
            StartOutcome::AlreadyRunning
        } else if runs {
            StartOutcome::Started
        } else if helper_exited {
            StartOutcome::HelperExited
        } else {
            StartOutcome::NotUp
        },
{
    if ran_before {
        StartOutcome::AlreadyRunning
    } else if runs {
        StartOutcome::Started
    } else if helper_exited {
        StartOutcome::HelperExited
    } else {
        StartOutcome::NotUp
    }
}

/// What a daemon does from its start on.
#[derive(Debug, Clone, Copy, PartialEq, Eq, Structural)]
pub enum ServeStep {
    Load,
    ReapOrphans,
    RestorePanes,
    EnsureInitialPane,
    Save,
    Serve,
}

/// What a daemon does from its start on; nothing where one runs already.
pub fn serve_foreground(running: bool) -> (r: Option<Vec<ServeStep>>)
    ensures
        match r {
            None => running,
            Some(steps) => !running && steps@ == seq![
                ServeStep::Load,
                ServeStep::ReapOrphans,
                ServeStep::RestorePanes,
                ServeStep::EnsureInitialPane,
                ServeStep::Save,
                ServeStep::Serve,
            ],
        },
{
    if running {
        return None;
    }
    let mut steps: Vec<ServeStep> = Vec::new();
    steps.push(ServeStep::Load);
    steps.push(ServeStep::ReapOrphans);
    steps.push(ServeStep::RestorePanes);
    steps.push(ServeStep::EnsureInitialPane);
    steps.push(ServeStep::Save);
    steps.push(ServeStep::Serve);
    assert(steps@ =~= seq![
        ServeStep::Load,
        ServeStep::ReapOrphans,
        ServeStep::RestorePanes,
        ServeStep::EnsureInitialPane,
        ServeStep::Save,
        ServeStep::Serve,
    ]);
    Some(steps)
}

/// Files of a daemon that is gone.
#[derive(Debug, Clone, Copy, PartialEq, Eq, Structural)]
pub struct StaleFiles {
    pub pid_file: bool,
    pub socket: bool,
}

/// The files that a daemon left behind: the file with its process's id, where there is no
/// such process or no id can be read, and the socket, where nothing answers.
pub fn stale_files(
    process_exists: Option<bool>,
    pid_file_exists: bool,
    socket_exists: bool,
    running: bool,
) -> (r: StaleFiles)
    ensures
        r.pid_file == match process_exists {
            Some(exists) => !exists,
            None => pid_file_exists,
        },
        r.socket == (socket_exists && !running),
{
    let pid_file = match process_exists {
        Some(exists) => !exists,
        None => pid_file_exists,
    };
    StaleFiles { pid_file, socket: socket_exists && !running }
}

/// What to do about a session that is to stop and whose socket does not answer.
#[derive(Debug, Clone, Copy, PartialEq, Eq, Structural)]
pub enum StopPlan {
    /// It does not run: its files go. The id in them is not that of its daemon.
    Forget { stale_pid: Option<u32> },
    /// The process with this id is told to end.
    Terminate { pid: u32 },
}

/// What to do about a session that is to stop and whose socket does not answer, where this
/// process id is on record. A process is told to end only where it is the recorded one, and
/// a daemon.
pub fn stop_plan(record: Option<u32>, is_recorded: bool, is_daemon: bool) -> (r: StopPlan)
    ensures
        r == match record {
            None => StopPlan::Forget { stale_pid: None },
            Some(pid) => if is_recorded && is_daemon {
                StopPlan::Terminate { pid }
            } else {
                StopPlan::Forget { stale_pid: Some(pid) }
            },
        },
{
    match record {
        None => StopPlan::Forget { stale_pid: None },
        Some(pid) => if is_recorded && is_daemon {
            StopPlan::Terminate { pid }
        } else {
            StopPlan::Forget { stale_pid: Some(pid) }
        },
    }
}

} // verus!

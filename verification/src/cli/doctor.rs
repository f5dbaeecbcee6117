//! The report on a session's surroundings.
use crate::daemon::panes::{listed, lists};
use crate::text::chars::push_chars;
use crate::text::numbers::{decimal, decimal_chars};
use vstd::prelude::*;

verus! {

/// How a session fares.
#[derive(Debug, Clone, Copy, PartialEq, Eq, Structural)]
pub enum DoctorStatus {
    Good,
    Warn,
    Error,
}

/// One finding.
#[derive(Debug)]
pub struct DoctorCheck {
    pub name: String,
    pub ok: bool,
    pub detail: String,
}

/// What a ping to the session's socket brought.
#[derive(Debug)]
pub enum SocketState {
    /// There is no socket.
    Absent,
    /// Nothing answers, for this reason.
    Unreachable(String),
    /// The answer is an error, with these words where it has any.
    Refused(Option<String>),
    Answered,
}

/// Whether the hooks of an agent are installed.
#[derive(Debug, Clone, Copy, PartialEq, Eq, Structural)]
pub enum InstallState {
    Installed,
    /// There is no such agent on the machine.
    NotDetected,
    /// They are missing, or not those that should be there.
    Lacking,
}

/// How the hooks of an agent are installed.
#[derive(Debug)]
pub struct IntegrationFacts {
    pub id: String,
    pub state: InstallState,
    /// The state in words.
    pub label: String,
    pub path: String,
    pub detail: String,
}

/// What is found of a session's surroundings.
#[derive(Debug)]
pub struct DoctorFacts {
    pub runtime_dir: String,
    pub runtime_dir_exists: bool,
    pub state_dir: String,
    pub state_dir_exists: bool,
    pub stdin_tty: bool,
    pub stdout_tty: bool,
    pub pid: Option<u32>,
    /// There is a process with that id.
    pub process_runs: bool,
    pub socket: SocketState,
    /// The programs that are installed.
    pub installed: Vec<String>,
    pub integrations: Vec<IntegrationFacts>,
}

/// A report.
#[derive(Debug)]
pub struct DoctorReport {
    pub status: DoctorStatus,
    pub checks: Vec<DoctorCheck>,
    /// Programs that help, by name, and whether they are installed.
    pub helpers: Vec<(String, bool)>,
}

/// A finding as plain values.
pub open spec fn check_view(c: DoctorCheck) -> (Seq<char>, bool, Seq<char>) {
    (c.name@, c.ok, c.detail@)
}

/// Findings as plain values.
pub open spec fn check_views(list: Seq<DoctorCheck>) -> Seq<(Seq<char>, bool, Seq<char>)> {
    Seq::new(list.len(), |i: int| check_view(list[i]))
}

/// A finding.
fn check(name: &str, ok: bool, detail: String) -> (r: DoctorCheck)
    ensures
        check_view(r) == (name@, ok, detail@),
{
    DoctorCheck { name: name.to_string(), ok, detail }
}

/// One of the programs that show a page is installed.
pub open spec fn has_browser(installed: Seq<String>) -> bool {
    lists(installed, "w3m"@) || lists(installed, "lynx"@) || lists(installed, "links"@) || lists(
        installed,
        "elinks"@,
    ) || lists(installed, "browsh"@) || lists(installed, "curl"@)
}

/// What is said of the daemon's process.
pub open spec fn pid_detail(pid: Option<u32>, runs: bool) -> Seq<char> {
    match pid {
        Some(pid) => "pid "@ + decimal(pid as nat) + " running="@ + if runs {
            "true"@
        } else {
            "false"@
        },
        None => "no pid file for this session"@,
    }
}

/// What is said of the daemon's process.
fn say_pid(pid: Option<u32>, runs: bool) -> (r: String)
    ensures
        r@ == pid_detail(pid, runs),
{
    match pid {
        Some(pid) => {
            let mut out = "pid ".to_string();
            push_chars(&mut out, decimal_chars(pid as u64).as_slice());
            out.append(" running=");
            out.append(if runs { "true" } else { "false" });
            out
        },
        None => "no pid file for this session".to_string(),
    }
}

/// What is said of the socket.
pub open spec fn socket_detail(socket: SocketState) -> Seq<char> {
    match socket {
        SocketState::Absent => "no socket file for this session"@,
        SocketState::Unreachable(why) => "socket exists but is not reachable: "@ + why@,
        SocketState::Refused(Some(error)) => error@,
        SocketState::Refused(None) => "socket returned an error response"@,
        SocketState::Answered => "socket responded to ping"@,
    }
}

/// What is said of the socket.
fn say_socket(socket: &SocketState) -> (r: String)
    ensures
        r@ == socket_detail(*socket),
{
    match socket {
        SocketState::Absent => "no socket file for this session".to_string(),
        SocketState::Unreachable(why) => {
            let mut out = "socket exists but is not reachable: ".to_string();
            out.append(why.as_str());
            out
        },
        SocketState::Refused(Some(error)) => error.clone(),
        SocketState::Refused(None) => "socket returned an error response".to_string(),
        SocketState::Answered => "socket responded to ping".to_string(),
    }
}

/// What is said of programs that show pages.
pub open spec fn browser_detail(found: bool) -> Seq<char> {
    if found {
        "at least one URL pane helper is installed"@
    } else {
        "install w3m, lynx, links, elinks, browsh, or curl for open-url/browser panes"@
    }
}

/// The findings on directories, terminals, the daemon and programs.
pub open spec fn base_checks(facts: DoctorFacts) -> Seq<(Seq<char>, bool, Seq<char>)> {
    seq![
        ("runtime-dir"@, facts.runtime_dir_exists, facts.runtime_dir@),
        ("state-dir"@, facts.state_dir_exists, facts.state_dir@),
        ("stdin-tty"@, facts.stdin_tty, "attach requires an interactive TTY"@),
        ("stdout-tty"@, facts.stdout_tty, "attach renders to stdout"@),
        (
            "daemon-pid"@,
            facts.pid is Some && facts.process_runs,
            pid_detail(facts.pid, facts.process_runs),
        ),
        ("daemon-socket"@, facts.socket is Answered, socket_detail(facts.socket)),
        (
            "terminal-browser-helper"@,
            has_browser(facts.installed@),
            browser_detail(has_browser(facts.installed@)),
        ),
    ]
}

/// The hooks of an agent are as they should be: installed, or there is no such agent.
pub open spec fn hooks_are_good(state: InstallState) -> bool {
    state is Installed || state is NotDetected
}

/// Whether the hooks of an agent are as they should be.
pub fn integration_ok(state: InstallState) -> (r: bool)
    ensures
        r == hooks_are_good(state),
{
    match state {
        InstallState::Installed | InstallState::NotDetected => true,
        InstallState::Lacking => false,
    }
}

/// The finding on an agent's hooks.
pub open spec fn integration_check(i: IntegrationFacts) -> (Seq<char>, bool, Seq<char>) {
    (
        "agent-hooks-"@ + i.id@,
        hooks_are_good(i.state),
        i.label@ + " ("@ + i.path@ + ") \u{2014} "@ + i.detail@,
    )
}

/// All findings.
pub open spec fn all_checks(facts: DoctorFacts) -> Seq<(Seq<char>, bool, Seq<char>)> {
    let hooks = facts.integrations@;
    base_checks(facts) + Seq::new(hooks.len(), |i: int| integration_check(hooks[i]))
}

/// Every finding is good.
pub open spec fn all_good(checks: Seq<(Seq<char>, bool, Seq<char>)>) -> bool {
    forall|i: int| 0 <= i < checks.len() ==> (#[trigger] checks[i]).1
}

/// How a session fares: badly without its directories, well where every finding is good.
pub open spec fn overall(facts: DoctorFacts) -> DoctorStatus {
    if !facts.runtime_dir_exists || !facts.state_dir_exists {
        DoctorStatus::Error
    } else if all_good(all_checks(facts)) {
        DoctorStatus::Good
    } else {
        DoctorStatus::Warn
    }
}

/// The programs that help, by name.
pub open spec fn helper_names() -> Seq<Seq<char>> {
    seq!["browsh"@, "curl"@, "elinks"@, "gh"@, "git"@, "links"@, "lynx"@, "w3m"@]
}

/// The list tells of each helper whether it is installed.
pub open spec fn tells_helpers(list: Seq<(String, bool)>, installed: Seq<String>) -> bool {
    &&& list.len() == helper_names().len()
    &&& forall|i: int|
        0 <= i < list.len() ==> (#[trigger] list[i]).0@ == helper_names()[i] && list[i].1 == lists(
            installed,
            helper_names()[i],
        )
}

/// A helper and whether it is installed.
fn helper(name: &str, installed: &Vec<String>) -> (r: (String, bool))
    ensures
        r.0@ == name@,
        r.1 == lists(installed@, name@),
{
    (name.to_string(), listed(installed, name))
}

/// The helpers and whether they are installed.
fn helper_list(installed: &Vec<String>) -> (r: Vec<(String, bool)>)
    ensures
        tells_helpers(r@, installed@),
{
    let mut list: Vec<(String, bool)> = Vec::new();
    list.push(helper("browsh", installed));
    list.push(helper("curl", installed));
    list.push(helper("elinks", installed));
    list.push(helper("gh", installed));
    list.push(helper("git", installed));
    list.push(helper("links", installed));
    list.push(helper("lynx", installed));
    list.push(helper("w3m", installed));
    list
}

/// Whether a program that shows a page is installed.
fn finds_browser(installed: &Vec<String>) -> (r: bool)
    ensures
        r == has_browser(installed@),
{
    listed(installed, "w3m") || listed(installed, "lynx") || listed(installed, "links") || listed(
        installed,
        "elinks",
    ) || listed(installed, "browsh") || listed(installed, "curl")
}

/// The findings on directories, terminals, the daemon and programs.
fn base_list(facts: &DoctorFacts) -> (r: Vec<DoctorCheck>)
    ensures
        check_views(r@) == base_checks(*facts),
{
    let answered = match facts.socket {
        SocketState::Answered => true,
        _ => false,
    };
    let browser = finds_browser(&facts.installed);
    let detail = if browser {
        "at least one URL pane helper is installed"
    } else {
        "install w3m, lynx, links, elinks, browsh, or curl for open-url/browser panes"
    };
    let a = check("runtime-dir", facts.runtime_dir_exists, facts.runtime_dir.clone());
    let b = check("state-dir", facts.state_dir_exists, facts.state_dir.clone());
    let c = check("stdin-tty", facts.stdin_tty, "attach requires an interactive TTY".to_string());
    let d = check("stdout-tty", facts.stdout_tty, "attach renders to stdout".to_string());
    let e = check(
        "daemon-pid",
        facts.pid.is_some() && facts.process_runs,
        say_pid(facts.pid, facts.process_runs),
    );
    let f = check("daemon-socket", answered, say_socket(&facts.socket));
    let g = check("terminal-browser-helper", browser, detail.to_string());
    let mut list: Vec<DoctorCheck> = Vec::new();
    list.push(a);
    list.push(b);
    list.push(c);
    list.push(d);
    list.push(e);
    list.push(f);
    list.push(g);
    assert(check_views(list@) =~= base_checks(*facts));
    list
}

/// The finding on an agent's hooks.
fn say_integration(item: &IntegrationFacts) -> (r: DoctorCheck)
    ensures
        check_view(r) == integration_check(*item),
{
    let mut name = "agent-hooks-".to_string();
    name.append(item.id.as_str());
    let mut detail = item.label.clone();
    detail.append(" (");
    detail.append(item.path.as_str());
    detail.append(") \u{2014} ");
    detail.append(item.detail.as_str());
    DoctorCheck { name, ok: integration_ok(item.state), detail }
}

/// Whether every finding is good.
fn every_good(checks: &Vec<DoctorCheck>) -> (r: bool)
    ensures
        r == all_good(check_views(checks@)),
{
    let mut k: usize = 0;
    while k < checks.len()
        invariant
            k <= checks.len(),
            forall|j: int| 0 <= j < k ==> (#[trigger] check_views(checks@)[j]).1,
        decreases checks.len() - k,
    {
        assert(check_views(checks@)[k as int].1 == checks@[k as int].ok);
        if !checks[k].ok {
            return false;
        }
        k += 1;
    }
    true
}

/// The report on what is found.
pub fn doctor(facts: &DoctorFacts) -> (r: DoctorReport)
    ensures
        check_views(r.checks@) == all_checks(*facts),
        r.status == overall(*facts),
        tells_helpers(r.helpers@, facts.installed@),
{
    let mut checks = base_list(facts);
    let ghost base = check_views(checks@);
    let ghost hooks = facts.integrations@;
    let mut i: usize = 0;
    assert(base + Seq::new(0, |j: int| integration_check(hooks[j])) =~= base);
    while i < facts.integrations.len()
        invariant
            i <= facts.integrations.len(),
            hooks == facts.integrations@,
            check_views(checks@) == base + Seq::new(i as nat, |j: int| integration_check(hooks[j])),
        decreases facts.integrations.len() - i,
    {
        let item = say_integration(&facts.integrations[i]);
        let ghost before = checks@;
        checks.push(item);
        proof {
            assert(check_views(checks@) =~= check_views(before).push(check_view(item)));
            assert(check_views(checks@) =~= base + Seq::new(
                (i + 1) as nat,
                |j: int| integration_check(hooks[j]),
            ));
        }
        i += 1;
    }
    let good = every_good(&checks);
    let status = if !facts.runtime_dir_exists || !facts.state_dir_exists {
        DoctorStatus::Error
    } else if good {
        DoctorStatus::Good
    } else {
        DoctorStatus::Warn
    };
    DoctorReport { status, checks, helpers: helper_list(&facts.installed) }
}

} // verus!

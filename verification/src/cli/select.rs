//! Which agents, workspaces, tabs and events a command is about.
use super::remote::WorkspacePlan;
use crate::daemon::handlers::{find_workspace, workspace_index};
use crate::model::{Session, SplitDirection, SurfaceKind};
use crate::protocol::Request;
use crate::text::chars::{
    blank, chars_of, is_blank, opt_text, same, string_of, texts, trim, trimmed,
};
use vstd::arithmetic::div_mod::{lemma_mod_sub_multiples_vanish};
use vstd::prelude::*;

verus! {

/// The names without the white space around them, each once, without blank ones.
pub open spec fn distinct_names(names: Seq<Seq<char>>) -> Seq<Seq<char>>
    decreases names.len(),
{
    if names.len() == 0 {
        Seq::empty()
    } else {
        let before = distinct_names(names.drop_last());
        let name = trimmed(names.last());
        if name.len() == 0 || before.contains(name) {
            before
        } else {
            before.push(name)
        }
    }
}

/// No agent is named.
#[derive(Debug, Clone, Copy, PartialEq, Eq, Structural)]
pub struct NoAgents;

/// The agents that are named, each once.
pub fn normalize_agent_names(agents: &Vec<String>) -> (r: Result<Vec<String>, NoAgents>)
    ensures
        match r {
            Ok(list) => texts(list@) == distinct_names(texts(agents@)) && list@.len() > 0,
            Err(_) => distinct_names(texts(agents@)).len() == 0,
        },
{
    let mut out: Vec<String> = Vec::new();
    let ghost all = texts(agents@);
    let mut i: usize = 0;
    assert(all.take(0) =~= Seq::empty());
    assert(texts(out@) =~= distinct_names(all.take(0)));
    while i < agents.len()
        invariant
            i <= agents.len(),
            all == texts(agents@),
            texts(out@) == distinct_names(all.take(i as int)),
        decreases agents.len() - i,
    {
        assert(all.take(i + 1).drop_last() =~= all.take(i as int));
        assert(all.take(i + 1).last() == agents@[i as int]@);
        let chars = chars_of(agents[i].as_str());
        let name = string_of(trim(chars.as_slice()));
        let ghost before = out@;
        if !blank(agents[i].as_str()) && !has_name(&out, name.as_str()) {
            out.push(name);
            assert(texts(out@) =~= texts(before).push(name@));
        }
        i += 1;
    }
    assert(all.take(i as int) =~= all);
    if out.len() == 0 {
        Err(NoAgents)
    } else {
        Ok(out)
    }
}

/// Whether a name is among the names.
fn has_name(names: &Vec<String>, name: &str) -> (r: bool)
    ensures
        r == texts(names@).contains(name@),
{
    let mut i: usize = 0;
    while i < names.len()
        invariant
            i <= names.len(),
            forall|j: int| 0 <= j < i ==> texts(names@)[j] != name@,
        decreases names.len() - i,
    {
        assert(texts(names@)[i as int] == names@[i as int]@);
        if same(names[i].as_str(), name) {
            return true;
        }
        i += 1;
    }
    false
}

/// Every agent is named once and by more than white space, and every name that is given
/// stands among them.
pub proof fn agents_are_distinct(names: Seq<Seq<char>>)
    ensures
        distinct_names(names).no_duplicates(),
        forall|i: int|
            0 <= i < distinct_names(names).len() ==> (#[trigger] distinct_names(names)[i]).len()
                > 0,
        forall|i: int|
            0 <= i < names.len() && trimmed(#[trigger] names[i]).len() > 0 ==> distinct_names(
                names,
            ).contains(trimmed(names[i])),
    decreases names.len(),
{
    if names.len() > 0 {
        agents_are_distinct(names.drop_last());
        let before = distinct_names(names.drop_last());
        let list = distinct_names(names);
        assert forall|i: int| 0 <= i < names.len() && trimmed(
            #[trigger] names[i],
        ).len() > 0 implies list.contains(trimmed(names[i])) by {
            let name = trimmed(names[i]);
            if i < names.len() - 1 {
                assert(names.drop_last()[i] == names[i]);
                assert(before.contains(name));
                let k = choose|k: int| 0 <= k < before.len() && before[k] == name;
                assert(list[k] == name);
            } else if before.contains(name) {
                let k = choose|k: int| 0 <= k < before.len() && before[k] == name;
                assert(list[k] == name);
            } else {
                assert(list[list.len() - 1] == name);
            }
        }
    }
}

/// The workspace that an agent of a team gets.
pub fn team_plan(agent: &str, cwd: &str, direction: SplitDirection) -> (r: WorkspacePlan)
    ensures
        r.name@ == "agent:"@ + agent@,
        opt_text(r.cwd) == Some(cwd@),
        r.command@ == agent@,
        opt_text(r.title) == Some(agent@ + "-agent"@),
        r.direction == direction,
        r.surface_kind == Some(SurfaceKind::Agent),
{
    let mut name = "agent:".to_string();
    name.append(agent);
    let mut title = agent.to_string();
    title.append("-agent");
    WorkspacePlan {
        name,
        cwd: Some(cwd.to_string()),
        command: agent.to_string(),
        title: Some(title),
        direction,
        surface_kind: Some(SurfaceKind::Agent),
    }
}

/// Where a pane is to go.
#[derive(Debug)]
pub enum MovePaneWorkspaceTarget {
    Existing(String),
    New(String),
}

/// Why a pane goes nowhere.
#[derive(Debug, Clone, Copy, PartialEq, Eq, Structural)]
pub enum MoveArgsError {
    EmptyName,
    Both,
    Neither,
}

/// Where a pane is to go: to a workspace that is there, or to a new one.
pub fn validate_move_pane_workspace_args(
    workspace: Option<String>,
    new_workspace: Option<String>,
) -> (r: Result<MovePaneWorkspaceTarget, MoveArgsError>)
    ensures
        r == match (workspace, new_workspace) {
            (Some(workspace), None) => Ok::<MovePaneWorkspaceTarget, MoveArgsError>(
                MovePaneWorkspaceTarget::Existing(workspace),
            ),
            (None, Some(name)) => if is_blank(name@) {
                Err(MoveArgsError::EmptyName)
            } else {
                Ok(MovePaneWorkspaceTarget::New(name))
            },
            (Some(_), Some(_)) => Err(MoveArgsError::Both),
            (None, None) => Err(MoveArgsError::Neither),
        },
{
    match (workspace, new_workspace) {
        (Some(workspace), None) => Ok(MovePaneWorkspaceTarget::Existing(workspace)),
        (None, Some(name)) => if blank(name.as_str()) {
            Err(MoveArgsError::EmptyName)
        } else {
            Ok(MovePaneWorkspaceTarget::New(name))
        },
        (Some(_), Some(_)) => Err(MoveArgsError::Both),
        (None, None) => Err(MoveArgsError::Neither),
    }
}

/// The place so many steps from a place in a round of `n`.
pub open spec fn around(index: int, delta: int, n: int) -> int {
    (index + delta) % n
}

/// The place so many steps from a place in a round.
fn step_around(index: usize, delta: isize, n: usize) -> (r: usize)
    requires
        index < n,
    ensures
        r == around(index as int, delta as int, n as int),
        r < n,
{
    let size = n as u128;
    if delta >= 0 {
        let steps = delta as u128;
        ((index as u128 + steps) % size) as usize
    } else {
        let steps = (-(delta as i128)) as u128;
        let m = steps % size;
        let r = (index as u128 + (size - m)) % size;
        proof {
            let k = (steps / size) as int;
            let d = size as int;
            assert(steps == size * (steps / size) + m) by (nonlinear_arith)
                requires
                    size > 0,
                    m == steps % size,
            ;
            let a = index + (d - m);
            assert(index + delta == (0 - d * (k + 1)) + a) by (nonlinear_arith)
                requires
                    a == index + (d - m),
                    delta == 0 - (d * k + m),
            ;
            lemma_mod_sub_multiples_vanish_times(a, k + 1, d);
        }
        r as usize
    }
}

/// Whole rounds make no difference.
proof fn lemma_mod_sub_multiples_vanish_times(a: int, k: int, d: int)
    requires
        d > 0,
        k >= 0,
    ensures
        (0 - d * k + a) % d == a % d,
    decreases k,
{
    if k > 0 {
        lemma_mod_sub_multiples_vanish_times(a, k - 1, d);
        assert(0 - d * k + a == (0 - d) + (0 - d * (k - 1) + a)) by (nonlinear_arith);
        lemma_mod_sub_multiples_vanish(0 - d * (k - 1) + a, d);
    } else {
        assert(d * 0 == 0) by (nonlinear_arith);
    }
}

/// A session without workspaces.
#[derive(Debug, Clone, Copy, PartialEq, Eq, Structural)]
pub struct NoWorkspaces;

/// The place from which steps count: that of the active workspace, or the first.
pub open spec fn home_index(session: Session) -> int {
    match workspace_index(session.workspaces@, session.active_workspace@) {
        Some(i) => i,
        None => 0,
    }
}

/// The id of the workspace so many steps from the active one; behind the last comes the first.
pub fn relative_workspace_id(session: &Session, delta: isize) -> (r: Result<String, NoWorkspaces>)
    ensures
        match r {
            Ok(id) => session.workspaces@.len() > 0 && id@ == session.workspaces@[around(
                home_index(*session),
                delta as int,
                session.workspaces@.len() as int,
            )].id@,
            Err(_) => session.workspaces@.len() == 0,
        },
{
    if session.workspaces.len() == 0 {
        return Err(NoWorkspaces);
    }
    let index = match find_workspace(&session.workspaces, session.active_workspace.as_str()) {
        Some(i) => i,
        None => 0,
    };
    let next = step_around(index, delta, session.workspaces.len());
    Ok(session.workspaces[next].id.clone())
}

/// A step to the next workspace and one back lead to where they began.
pub proof fn next_and_previous_meet(index: int, n: int)
    requires
        0 <= index < n,
    ensures
        around(around(index, 1, n), -1, n) == index,
        around(around(index, -1, n), 1, n) == index,
{
    if index + 1 < n {
        assert((index + 1) % n == index + 1) by (nonlinear_arith)
            requires
                0 <= index + 1 < n,
        ;
    } else {
        assert(n % n == 0) by (nonlinear_arith)
            requires
                n > 0,
        ;
        assert((0 - 1) % n == n - 1) by (nonlinear_arith)
            requires
                n > 0,
        ;
    }
    if index > 0 {
        assert((index - 1) % n == index - 1) by (nonlinear_arith)
            requires
                0 <= index - 1 < n,
        ;
    } else {
        assert((0 - 1) % n == n - 1) by (nonlinear_arith)
            requires
                n > 0,
        ;
        assert((n - 1 + 1) % n == 0) by (nonlinear_arith)
            requires
                n > 0,
        ;
    }
    assert(index % n == index) by (nonlinear_arith)
        requires
            0 <= index < n,
    ;
}

/// Why no tab is switched to.
#[derive(Debug, Clone, Copy, PartialEq, Eq, Structural)]
pub enum TabStepError {
    NoTabs,
    /// The tab in that place has no id.
    NoId,
}

/// The place of the first tab with an id, or the first place.
pub open spec fn tab_place(ids: Seq<Option<String>>, active: Seq<char>) -> int
    decreases ids.len(),
{
    match first_id(ids, active) {
        Some(i) => i,
        None => 0,
    }
}

/// The place of the first tab with an id.
pub open spec fn first_id(ids: Seq<Option<String>>, id: Seq<char>) -> Option<int>
    decreases ids.len(),
{
    if ids.len() == 0 {
        None
    } else if opt_text(ids[0]) == Some(id) {
        Some(0)
    } else {
        match first_id(ids.drop_first(), id) {
            Some(i) => Some(i + 1),
            None => None,
        }
    }
}

/// The request to switch to the tab behind the active one, or to the one before it, where the
/// tabs have these ids.
pub fn relative_tab_switch(
    ids: &Vec<Option<String>>,
    active: &str,
    workspace: Option<String>,
    going_next: bool,
) -> (r: Result<Request, TabStepError>)
    ensures
        if ids@.len() == 0 {
            r == Err::<Request, TabStepError>(TabStepError::NoTabs)
        } else {
            let step = if going_next {
                1int
            } else {
                -1int
            };
            match ids@[around(tab_place(ids@, active@), step, ids@.len() as int)] {
                Some(tab) => r == Ok::<Request, TabStepError>(
                    Request::SwitchTab { workspace, tab },
                ),
                None => r == Err::<Request, TabStepError>(TabStepError::NoId),
            }
        },
{
    if ids.len() == 0 {
        return Err(TabStepError::NoTabs);
    }
    let mut place: usize = 0;
    let mut i: usize = 0;
    let mut found = false;
    assert(ids@.skip(0) =~= ids@);
    while i < ids.len() && !found
        invariant
            i <= ids.len(),
            !found ==> place == 0 && first_id(ids@, active@) == match first_id(
                ids@.skip(i as int),
                active@,
            ) {
                Some(k) => Some(k + i),
                None => None::<int>,
            },
            found ==> place < ids.len() && first_id(ids@, active@) == Some(place as int),
        decreases ids.len() - i,
    {
        assert(ids@.skip(i as int).drop_first() =~= ids@.skip(i + 1));
        assert(ids@.skip(i as int)[0] == ids@[i as int]);
        if let Some(id) = &ids[i] {
            if same(id.as_str(), active) {
                found = true;
                place = i;
            }
        }
        i += 1;
    }
    let next = step_around(
        place,
        if going_next {
            1
        } else {
            -1
        },
        ids.len(),
    );
    match &ids[next] {
        Some(tab) => Ok(Request::SwitchTab { workspace, tab: tab.clone() }),
        None => Err(TabStepError::NoId),
    }
}

/// Commands on workspaces.
#[derive(Debug)]
#[allow(inconsistent_fields)]
pub enum WorkspaceCommand {
    New {
        name: String,
        cwd: Option<String>,
        command: String,
        title: Option<String>,
        direction: SplitDirection,
    },
    Switch { workspace: String },
    Next,
    Previous,
    Rename { workspace: String, name: String },
    Close { workspace: Option<String> },
    Cwd { workspace: String, cwd: String },
    Pin { workspace: String },
    Unpin { workspace: String },
    Move { workspace: String, position: usize },
    List,
}

/// What a command on workspaces asks for.
#[derive(Debug)]
pub enum WorkspaceStep {
    Ask(Request),
    /// Make a workspace with a pane.
    Create(WorkspacePlan),
    /// Switch to the workspace so many steps away.
    Relative(isize),
}

/// What a command on workspaces asks for.
pub fn workspace_command(command: WorkspaceCommand) -> (r: WorkspaceStep)
    ensures
        r == match command {
            WorkspaceCommand::New { name, cwd, command, title, direction } => if is_blank(command@) {
                WorkspaceStep::Ask(Request::NewWorkspace { name, cwd })
            } else {
                WorkspaceStep::Create(
                    WorkspacePlan { name, cwd, command, title, direction, surface_kind: None },
                )
            },
            WorkspaceCommand::Switch { workspace } => WorkspaceStep::Ask(
                Request::SwitchWorkspace { workspace },
            ),
            WorkspaceCommand::Next => WorkspaceStep::Relative(1),
            WorkspaceCommand::Previous => WorkspaceStep::Relative((-1) as isize),
            WorkspaceCommand::Rename { workspace, name } => WorkspaceStep::Ask(
                Request::RenameWorkspace { workspace, name },
            ),
            WorkspaceCommand::Close { workspace } => WorkspaceStep::Ask(
                Request::CloseWorkspace { workspace },
            ),
            WorkspaceCommand::Cwd { workspace, cwd } => WorkspaceStep::Ask(
                Request::SetWorkspaceCwd { workspace, cwd },
            ),
            WorkspaceCommand::Pin { workspace } => WorkspaceStep::Ask(
                Request::SetWorkspacePinned { workspace, pinned: true },
            ),
            WorkspaceCommand::Unpin { workspace } => WorkspaceStep::Ask(
                Request::SetWorkspacePinned { workspace, pinned: false },
            ),
            WorkspaceCommand::Move { workspace, position } => WorkspaceStep::Ask(
                Request::MoveWorkspace { workspace, position },
            ),
            WorkspaceCommand::List => WorkspaceStep::Ask(Request::List),
        },
{
    match command {
        WorkspaceCommand::New { name, cwd, command, title, direction } => {
            if blank(command.as_str()) {
                WorkspaceStep::Ask(Request::NewWorkspace { name, cwd })
            } else {
                WorkspaceStep::Create(
                    WorkspacePlan { name, cwd, command, title, direction, surface_kind: None },
                )
            }
        },
        WorkspaceCommand::Switch { workspace } => WorkspaceStep::Ask(
            Request::SwitchWorkspace { workspace },
        ),
        WorkspaceCommand::Next => WorkspaceStep::Relative(1),
        WorkspaceCommand::Previous => WorkspaceStep::Relative(-1),
        WorkspaceCommand::Rename { workspace, name } => WorkspaceStep::Ask(
            Request::RenameWorkspace { workspace, name },
        ),
        WorkspaceCommand::Close { workspace } => WorkspaceStep::Ask(
            Request::CloseWorkspace { workspace },
        ),
        WorkspaceCommand::Cwd { workspace, cwd } => WorkspaceStep::Ask(
            Request::SetWorkspaceCwd { workspace, cwd },
        ),
        WorkspaceCommand::Pin { workspace } => WorkspaceStep::Ask(
            Request::SetWorkspacePinned { workspace, pinned: true },
        ),
        WorkspaceCommand::Unpin { workspace } => WorkspaceStep::Ask(
            Request::SetWorkspacePinned { workspace, pinned: false },
        ),
        WorkspaceCommand::Move { workspace, position } => WorkspaceStep::Ask(
            Request::MoveWorkspace { workspace, position },
        ),
        WorkspaceCommand::List => WorkspaceStep::Ask(Request::List),
    }
}

} // verus!

//! What a daemon is to do next, decided from a session.
use crate::daemon::handlers::{find_pane_location, find_workspace, holder_index, workspace_index};
use crate::daemon::navigate::workspace_pane_ids;
use crate::daemon::panes::{normalize_pane_title, TitleError};
use crate::model::{
    find_pane, is_new_pane, pane_index, touch_agent_status, AgentStatus, Pane, PaneStatus, Session,
    SplitDirection, SurfaceKind, Workspace,
};
use crate::text::chars::{
    blank, chars_of, clone_opt, is_blank, opt_text, push_chars, same, string_of, texts, trim,
    trim_text, trimmed, views,
};
use crate::text::lines::{line_list, split_lines};
use crate::text::numbers::{decimal, decimal_chars};
use vstd::prelude::*;

verus! {

/// A pane that is to be started.
#[derive(Debug)]
pub struct PanePlan {
    pub direction: SplitDirection,
    pub command: String,
    pub title: Option<String>,
    pub surface_kind: Option<SurfaceKind>,
    /// The id of the workspace that it goes to.
    pub workspace: String,
    /// The directory of that workspace.
    pub cwd: String,
}

/// The command, or the shell where it is blank.
pub open spec fn command_or_shell(command: Seq<char>, shell: Seq<char>) -> Seq<char> {
    if is_blank(command) {
        shell
    } else {
        command
    }
}

/// The command, or the shell where it is blank.
pub fn choose_command(command: &str, shell: &str) -> (r: String)
    ensures
        r@ == command_or_shell(command@, shell@),
{
    if blank(command) {
        shell.to_string()
    } else {
        command.to_string()
    }
}

/// The record of a pane that is to be started. It takes the next number, also where its title
/// is blank, which it may not be.
pub fn new_pane(next: &mut u64, plan: &PanePlan, shell: &str, now: u64) -> (r: Result<
    Pane,
    TitleError,
>)
    requires
        *old(next) < u64::MAX,
    ensures
        *final(next) == *old(next) + 1,
        match r {
            Err(_) => plan.title matches Some(t) && is_blank(t@),
            Ok(pane) => {
                let command = command_or_shell(plan.command@, shell@);
                &&& !(plan.title matches Some(t) && is_blank(t@))
                &&& is_new_pane(
                    pane,
                    "pane-"@ + decimal(*old(next) as nat),
                    match plan.title {
                        Some(t) => trimmed(t@),
                        None => command,
                    },
                    command,
                    match plan.surface_kind {
                        Some(kind) => kind,
                        None => SurfaceKind::Terminal,
                    },
                    now,
                )
            },
        },
{
    let command = choose_command(plan.command.as_str(), shell);
    let mut id = "pane-".to_string();
    push_chars(&mut id, decimal_chars(*next).as_slice());
    *next = *next + 1;
    let mut pane = Pane::new(id, command, now);
    if let Some(kind) = plan.surface_kind {
        pane.surface_kind = kind;
    }
    match normalize_pane_title(clone_opt(&plan.title)) {
        Err(e) => Err(e),
        Ok(title) => {
            if let Some(title) = title {
                pane.title = title;
            }
            Ok(pane)
        },
    }
}

/// Why a pane is not copied.
#[derive(Debug)]
pub enum DuplicateError {
    Unknown(String),
    /// No workspace has it.
    Detached(String),
}

/// A pane like another, in the workspace of that one.
pub fn duplicate_plan(session: &Session, pane: &str, direction: SplitDirection) -> (r: Result<
    PanePlan,
    DuplicateError,
>)
    ensures
        match pane_index(session.panes@, pane@) {
            None => r matches Err(DuplicateError::Unknown(p)) && p@ == pane@,
            Some(i) => match holder_index(session.workspaces@, pane@) {
                None => r matches Err(DuplicateError::Detached(p)) && p@ == pane@,
                Some(w) => r == Ok::<PanePlan, DuplicateError>(
                    PanePlan {
                        direction,
                        command: session.panes@[i].command,
                        title: Some(session.panes@[i].title),
                        surface_kind: Some(session.panes@[i].surface_kind),
                        workspace: session.workspaces@[w].id,
                        cwd: session.workspaces@[w].cwd,
                    },
                ),
            },
        },
{
    let i = match find_pane(&session.panes, pane) {
        Some(i) => i,
        None => {
            return Err(DuplicateError::Unknown(pane.to_string()));
        },
    };
    match find_pane_location(&session.workspaces, pane) {
        None => Err(DuplicateError::Detached(pane.to_string())),
        Some(l) => Ok(
            PanePlan {
                direction,
                command: session.panes[i].command.clone(),
                title: Some(session.panes[i].title.clone()),
                surface_kind: Some(session.panes[i].surface_kind),
                workspace: session.workspaces[l.workspace].id.clone(),
                cwd: session.workspaces[l.workspace].cwd.clone(),
            },
        ),
    }
}

/// The active workspace is without panes, so that it gets a first one: the shell.
pub open spec fn is_first_pane(session: Session, shell: Seq<char>, r: Option<PanePlan>) -> bool {
    match workspace_index(session.workspaces@, session.active_workspace@) {
        Some(i) if session.workspaces@[i].panes@.len() == 0 => {
            &&& r matches Some(plan)
            &&& plan.direction == SplitDirection::Right
            &&& plan.command@ == shell
            &&& plan.title is None
            &&& plan.surface_kind is None
            &&& plan.workspace@ == session.workspaces@[i].id@
            &&& plan.cwd@ == session.workspaces@[i].cwd@
        },
        _ => r is None,
    }
}

/// The first pane of the active workspace, where it has none.
pub fn ensure_initial_pane(session: &Session, shell: &str) -> (r: Option<PanePlan>)
    ensures
        is_first_pane(*session, shell@, r),
{
    match find_workspace(&session.workspaces, session.active_workspace.as_str()) {
        Some(i) => {
            let w = &session.workspaces[i];
            if w.panes.len() > 0 {
                return None;
            }
            Some(
                PanePlan {
                    direction: SplitDirection::Right,
                    command: shell.to_string(),
                    title: None,
                    surface_kind: None,
                    workspace: w.id.clone(),
                    cwd: w.cwd.clone(),
                },
            )
        },
        None => None,
    }
}

/// A command that a project offers.
#[derive(Debug)]
pub struct CustomAction {
    pub name: String,
    pub command: String,
    pub title: Option<String>,
    pub direction: Option<SplitDirection>,
}

/// Why the commands of a project are not taken.
#[derive(Debug)]
pub enum ActionError {
    EmptyName,
    /// The one with this name has no command.
    EmptyCommand(String),
}

/// A command with a name and something to run.
pub open spec fn is_action(a: CustomAction) -> bool {
    !is_blank(a.name@) && !is_blank(a.command@)
}

/// What is wrong with the first command that is none.
pub open spec fn is_action_error(actions: Seq<CustomAction>, e: ActionError) -> bool {
    exists|i: int|
        0 <= i < actions.len() && !is_action(#[trigger] actions[i]) && (forall|j: int|
            0 <= j < i ==> is_action(#[trigger] actions[j])) && if is_blank(actions[i].name@) {
            e is EmptyName
        } else {
            e matches ActionError::EmptyCommand(name) && name@ == actions[i].name@
        }
}

/// Checks the commands of a project: each needs a name and something to run.
pub fn check_actions(actions: &Vec<CustomAction>) -> (r: Result<(), ActionError>)
    ensures
        match r {
            Ok(_) => forall|i: int| 0 <= i < actions@.len() ==> is_action(#[trigger] actions@[i]),
            Err(e) => is_action_error(actions@, e),
        },
{
    let mut i: usize = 0;
    while i < actions.len()
        invariant
            i <= actions.len(),
            forall|j: int| 0 <= j < i ==> is_action(#[trigger] actions@[j]),
        decreases actions.len() - i,
    {
        if blank(actions[i].name.as_str()) {
            assert(!is_action(actions@[i as int]));
            return Err(ActionError::EmptyName);
        }
        if blank(actions[i].command.as_str()) {
            assert(!is_action(actions@[i as int]));
            return Err(ActionError::EmptyCommand(actions[i].name.clone()));
        }
        i += 1;
    }
    Ok(())
}

/// The place of the first command with the name.
pub open spec fn action_index(actions: Seq<CustomAction>, name: Seq<char>) -> Option<int>
    decreases actions.len(),
{
    if actions.len() == 0 {
        None
    } else if actions[0].name@ == name {
        Some(0)
    } else {
        match action_index(actions.drop_first(), name) {
            Some(i) => Some(i + 1),
            None => None,
        }
    }
}

/// The pane that runs the command with the name, in a workspace.
pub fn action_plan(
    actions: &Vec<CustomAction>,
    name: &str,
    workspace: String,
    cwd: String,
) -> (r: Option<PanePlan>)
    ensures
        match action_index(actions@, name@) {
            None => r is None,
            Some(i) => r == Some(
                PanePlan {
                    direction: match actions@[i].direction {
                        Some(d) => d,
                        None => SplitDirection::Right,
                    },
                    command: actions@[i].command,
                    title: actions@[i].title,
                    surface_kind: None,
                    workspace,
                    cwd,
                },
            ),
        },
{
    let mut i: usize = 0;
    assert(actions@.skip(0) =~= actions@);
    while i < actions.len() && !same(actions[i].name.as_str(), name)
        invariant
            i <= actions.len(),
            action_index(actions@, name@) == match action_index(actions@.skip(i as int), name@) {
                Some(k) => Some(k + i),
                None => None::<int>,
            },
        decreases actions.len() - i,
    {
        assert(actions@.skip(i as int).drop_first() =~= actions@.skip(i + 1));
        assert(actions@.skip(i as int)[0] == actions@[i as int]);
        i += 1;
    }
    if i == actions.len() {
        assert(actions@.skip(i as int).len() == 0);
        return None;
    }
    assert(actions@.skip(i as int)[0] == actions@[i as int]);
    Some(
        PanePlan {
            direction: match actions[i].direction {
                Some(d) => d,
                None => SplitDirection::Right,
            },
            command: actions[i].command.clone(),
            title: clone_opt(&actions[i].title),
            surface_kind: None,
            workspace,
            cwd,
        },
    )
}

/// A pane that is to run again, and the place of its workspace.
#[derive(Debug)]
pub struct RestoreTarget {
    pub pane: String,
    pub workspace: usize,
}

/// The pane was read back and does not run yet.
pub open spec fn waits_for_restore(panes: Seq<Pane>, id: Seq<char>) -> bool {
    pane_index(panes, id) matches Some(i) && panes[i].status == PaneStatus::Restored
}

/// Those of the panes that were read back, with the place of their workspace.
pub open spec fn restorable(
    panes: Seq<Pane>,
    ids: Seq<Seq<char>>,
    w: int,
) -> Seq<(Seq<char>, int)>
    decreases ids.len(),
{
    if ids.len() == 0 {
        Seq::empty()
    } else {
        let before = restorable(panes, ids.drop_last(), w);
        if waits_for_restore(panes, ids.last()) {
            before.push((ids.last(), w))
        } else {
            before
        }
    }
}

/// The panes of the first workspaces that were read back, on whatever tab they are.
pub open spec fn restore_list(session: Session, n: int) -> Seq<(Seq<char>, int)>
    decreases n,
{
    if n <= 0 {
        Seq::empty()
    } else {
        restore_list(session, n - 1) + restorable(
            session.panes@,
            workspace_pane_ids(session.workspaces@[n - 1]),
            n - 1,
        )
    }
}

/// Targets as plain values.
pub open spec fn target_views(list: Seq<RestoreTarget>) -> Seq<(Seq<char>, int)> {
    Seq::new(list.len(), |i: int| (list[i].pane@, list[i].workspace as int))
}

/// The panes that are to run again: those that were read back, on every tab of every workspace.
pub fn restore_targets(session: &Session) -> (r: Vec<RestoreTarget>)
    ensures
        target_views(r@) == restore_list(*session, session.workspaces@.len() as int),
{
    let mut out: Vec<RestoreTarget> = Vec::new();
    let mut w: usize = 0;
    assert(target_views(out@) =~= restore_list(*session, 0));
    while w < session.workspaces.len()
        invariant
            w <= session.workspaces@.len(),
            target_views(out@) == restore_list(*session, w as int),
        decreases session.workspaces@.len() - w,
    {
        let ids = session.workspaces[w].all_pane_ids();
        let ghost all = texts(ids@);
        let ghost start = target_views(out@);
        let mut k: usize = 0;
        assert(all.take(0) =~= Seq::empty());
        assert(start + restorable(session.panes@, all.take(0), w as int) =~= start);
        while k < ids.len()
            invariant
                k <= ids@.len(),
                all == texts(ids@),
                target_views(out@) == start + restorable(
                    session.panes@,
                    all.take(k as int),
                    w as int,
                ),
            decreases ids@.len() - k,
        {
            assert(all.take(k + 1).drop_last() =~= all.take(k as int));
            assert(all.take(k + 1).last() == ids@[k as int]@);
            let ghost before = out@;
            let waits = match find_pane(&session.panes, ids[k].as_str()) {
                Some(i) => session.panes[i].status == PaneStatus::Restored,
                None => false,
            };
            if waits {
                out.push(RestoreTarget { pane: ids[k].clone(), workspace: w });
                assert(target_views(out@) =~= target_views(before).push(
                    (ids@[k as int]@, w as int),
                ));
            }
            assert(target_views(out@) =~= start + restorable(
                session.panes@,
                all.take(k + 1),
                w as int,
            ));
            k += 1;
        }
        assert(all.take(k as int) =~= all);
        w += 1;
    }
    out
}

/// The process of a pane, where it runs.
pub open spec fn pid_of(pids: Seq<(String, u32)>, id: Seq<char>) -> Option<u32>
    decreases pids.len(),
{
    if pids.len() == 0 {
        None
    } else if pids[0].0@ == id {
        Some(pids[0].1)
    } else {
        pid_of(pids.drop_first(), id)
    }
}

/// The process of a pane, where it runs.
pub fn find_pid(pids: &Vec<(String, u32)>, id: &str) -> (r: Option<u32>)
    ensures
        r == pid_of(pids@, id@),
{
    let mut i: usize = 0;
    assert(pids@.skip(0) =~= pids@);
    while i < pids.len()
        invariant
            i <= pids.len(),
            pid_of(pids@, id@) == pid_of(pids@.skip(i as int), id@),
        decreases pids.len() - i,
    {
        assert(pids@.skip(i as int).drop_first() =~= pids@.skip(i + 1));
        assert(pids@.skip(i as int)[0] == pids@[i as int]);
        if same(pids[i].0.as_str(), id) {
            return Some(pids[i].1);
        }
        i += 1;
    }
    None
}

/// The processes of panes.
pub open spec fn pids_of(pids: Seq<(String, u32)>, ids: Seq<Seq<char>>) -> Seq<u32>
    decreases ids.len(),
{
    if ids.len() == 0 {
        Seq::empty()
    } else {
        let before = pids_of(pids, ids.drop_last());
        match pid_of(pids, ids.last()) {
            Some(pid) => before.push(pid),
            None => before,
        }
    }
}

/// What is looked at for what a workspace shows of its surroundings.
#[derive(Debug)]
pub struct MetaTarget {
    /// The process whose directory counts: that of the active pane, or else of the first.
    pub live: Option<u32>,
    /// The processes of all panes.
    pub roots: Vec<u32>,
}

/// The pane whose directory counts.
pub open spec fn leading_pane(w: Workspace) -> Option<Seq<char>> {
    if w.active_pane is Some {
        opt_text(w.active_pane)
    } else if w.panes@.len() > 0 {
        Some(w.panes@[0]@)
    } else {
        None
    }
}

/// What is looked at for what a workspace shows of its surroundings, where panes have these
/// processes.
pub fn meta_target(workspace: &Workspace, pids: &Vec<(String, u32)>) -> (r: MetaTarget)
    ensures
        r.live == match leading_pane(*workspace) {
            Some(pane) => pid_of(pids@, pane),
            None => None,
        },
        r.roots@ == pids_of(pids@, workspace_pane_ids(*workspace)),
{
    let live = match &workspace.active_pane {
        Some(pane) => find_pid(pids, pane.as_str()),
        None => if workspace.panes.len() > 0 {
            find_pid(pids, workspace.panes[0].as_str())
        } else {
            None
        },
    };
    let ids = workspace.all_pane_ids();
    let ghost all = texts(ids@);
    let mut roots: Vec<u32> = Vec::new();
    let mut i: usize = 0;
    assert(all.take(0) =~= Seq::empty());
    while i < ids.len()
        invariant
            i <= ids@.len(),
            all == texts(ids@),
            roots@ == pids_of(pids@, all.take(i as int)),
        decreases ids@.len() - i,
    {
        assert(all.take(i + 1).drop_last() =~= all.take(i as int));
        assert(all.take(i + 1).last() == ids@[i as int]@);
        if let Some(pid) = find_pid(pids, ids[i].as_str()) {
            roots.push(pid);
        }
        i += 1;
    }
    assert(all.take(i as int) =~= all);
    MetaTarget { live, roots }
}

/// The branch that git names: none where it names nothing, or a commit that is on none.
pub fn branch_name(stdout: &str) -> (r: Option<String>)
    ensures
        opt_text(r) == if trimmed(stdout@).len() == 0 || trimmed(stdout@) == "HEAD"@ {
            None
        } else {
            Some(trimmed(stdout@))
        },
{
    let name = trim_text(stdout);
    if name.as_str().unicode_len() == 0 || same(name.as_str(), "HEAD") {
        None
    } else {
        Some(name)
    }
}

/// The longest request, in bytes.
pub const MAX_REQUEST_BYTES: u64 = 16_777_216;

/// Whether a request was cut off: the bytes that it may have are used up, and its line does
/// not end.
pub fn over_limit(left: u64, line: &str) -> (r: bool)
    ensures
        r == (left == 0 && !(line@.len() > 0 && line@.last() == '\n')),
{
    let chars = chars_of(line);
    left == 0 && !(chars.len() > 0 && chars[chars.len() - 1] == '\n')
}

/// How long a status of work that was only inferred lasts without output, in seconds.
pub const BUSY_IDLE_DECAY_SECS: u64 = 20;

/// The pane shows work that was only inferred, and has been quiet for so long.
pub open spec fn is_stale_busy(pane: Pane, now: u64, secs: u64) -> bool {
    pane.agent_status == AgentStatus::Busy && !pane.agent_status_pinned && now
        - pane.updated_at >= secs
}

/// The pane once work that was only inferred counts no more.
pub open spec fn decayed(pane: Pane, now: u64, secs: u64) -> Pane {
    if is_stale_busy(pane, now, secs) {
        pane.touched(AgentStatus::Idle, false, now)
    } else {
        pane
    }
}

/// Lets work that was only inferred count no more where a pane has been quiet. Says whether it
/// did.
pub fn decay_stale_busy(pane: &mut Pane, now: u64, secs: u64) -> (changed: bool)
    ensures
        changed == is_stale_busy(*old(pane), now, secs),
        *final(pane) == decayed(*old(pane), now, secs),
{
    let quiet = if now >= pane.updated_at {
        now - pane.updated_at >= secs
    } else {
        false
    };
    if pane.agent_status == AgentStatus::Busy && !pane.agent_status_pinned && quiet {
        touch_agent_status(pane, AgentStatus::Idle, false, now);
        true
    } else {
        false
    }
}

/// Lets work that was only inferred count no more in quiet panes. Says whether there was such
/// a pane.
pub fn decay_panes(panes: &mut Vec<Pane>, now: u64) -> (changed: bool)
    ensures
        final(panes)@ == old(panes)@.map_values(|p: Pane| decayed(p, now, BUSY_IDLE_DECAY_SECS)),
        changed == exists|i: int|
            0 <= i < old(panes)@.len() && is_stale_busy(
                #[trigger] old(panes)@[i],
                now,
                BUSY_IDLE_DECAY_SECS,
            ),
{
    let ghost all = panes@;
    let mut changed = false;
    let mut i: usize = 0;
    while i < panes.len()
        invariant
            i <= panes@.len(),
            panes@.len() == all.len(),
            all == old(panes)@,
            forall|k: int|
                0 <= k < i ==> #[trigger] panes@[k] == decayed(all[k], now, BUSY_IDLE_DECAY_SECS),
            forall|k: int| i <= k < all.len() ==> #[trigger] panes@[k] == all[k],
            changed == exists|k: int|
                0 <= k < i && is_stale_busy(#[trigger] all[k], now, BUSY_IDLE_DECAY_SECS),
        decreases panes@.len() - i,
    {
        let ghost was = all[i as int];
        if decay_stale_busy(&mut panes[i], now, BUSY_IDLE_DECAY_SECS) {
            assert(is_stale_busy(all[i as int], now, BUSY_IDLE_DECAY_SECS));
            changed = true;
        }
        i += 1;
    }
    assert(panes@ =~= all.map_values(|p: Pane| decayed(p, now, BUSY_IDLE_DECAY_SECS)));
    changed
}

/// A status that a hook or a command set does not decay: an agent that thinks in silence stays
/// busy.
pub proof fn pinned_status_stays(pane: Pane, now: u64, secs: u64)
    requires
        pane.agent_status_pinned,
    ensures
        decayed(pane, now, secs) == pane,
{
}

/// The last line that is not blank.
pub open spec fn last_filled_line(lines: Seq<Seq<char>>) -> Option<Seq<char>>
    decreases lines.len(),
{
    if lines.len() == 0 {
        None
    } else if !is_blank(lines.last()) {
        Some(lines.last())
    } else {
        last_filled_line(lines.drop_last())
    }
}

/// What a program answered: its last line that is not blank. What stands before may be talk.
pub fn answer_line(stdout: &str) -> (r: Option<String>)
    ensures
        opt_text(r) == last_filled_line(line_list(stdout@)),
{
    let chars = chars_of(stdout);
    let lines = split_lines(chars.as_slice());
    let ghost all = views(lines@);
    let mut n = lines.len();
    assert(all.take(n as int) =~= all);
    while n > 0
        invariant
            n <= lines@.len(),
            all == views(lines@),
            all == line_list(stdout@),
            last_filled_line(all) == last_filled_line(all.take(n as int)),
        decreases n,
    {
        assert(all.take(n as int).drop_last() =~= all.take(n - 1));
        assert(all.take(n as int).last() == lines@[n - 1]@);
        if trim(lines[n - 1]).len() > 0 {
            return Some(string_of(lines[n - 1]));
        }
        n -= 1;
    }
    None
}

} // verus!

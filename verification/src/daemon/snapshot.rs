//! Snapshots: what a session and its running panes show at one time.
use crate::daemon::capture::{facts_of, screen_facts};
use crate::daemon::handlers::{find_pane_location, find_workspace, holder_index, workspace_index};
use crate::daemon::lifecycle::{run_taken, take_run};
use crate::daemon::emulator::{screen_of, screen_of_mut, shown};
use crate::daemon::live::{note_screen, screen_noted, PaneRuntime};
use crate::daemon::navigate::workspace_pane_ids;
use crate::daemon::output::{chunked_line_count, flat, joined_output, trim_output};
use crate::daemon::panes::{listed, lists};
use crate::daemon::screen::{
    can_draw, can_draw_history, formatted_screen, formatted_scrollback, has_cells, is_drawable,
    screen_contents_formatted, screen_scrollback_formatted, screen_text,
};
use crate::model::{
    clone_pane, find_pane, insert_pane, pane_index, same_pane, with_pane, EventRecord, EventView,
    ListeningPort, Pane, PaneTab, Session, Workspace,
};
use crate::text::chars::{chars_of, clone_opt, opt_str, opt_text, same, texts};
use crate::text::lines::{line_list, split_lines};
use crate::text::utf8::tail_within;
use vstd::prelude::*;

verus! {

/// What is known of a workspace from outside the session.
pub struct WorkspaceMeta {
    pub workspace: String,
    pub git_branch: Option<String>,
    pub ports: Vec<ListeningPort>,
    /// Where its shell is now.
    pub cwd: Option<String>,
}

/// What a listening port is.
#[verifier::ext_equal]
pub struct PortFacts {
    pub host: Seq<char>,
    pub port: u16,
    pub pids: Seq<u32>,
    pub process: Option<Seq<char>>,
    pub pane: Option<Seq<char>>,
}

impl View for ListeningPort {
    type V = PortFacts;

    open spec fn view(&self) -> PortFacts {
        PortFacts {
            host: self.host@,
            port: self.port,
            pids: self.pids@,
            process: opt_text(self.process),
            pane: opt_text(self.pane),
        }
    }
}

/// What a list of listening ports is.
pub open spec fn port_facts(v: Seq<ListeningPort>) -> Seq<PortFacts> {
    Seq::new(v.len(), |i: int| v[i]@)
}

fn clone_ports(ports: &Vec<ListeningPort>) -> (r: Vec<ListeningPort>)
    ensures
        port_facts(r@) == port_facts(ports@),
{
    let mut out: Vec<ListeningPort> = Vec::new();
    let mut i: usize = 0;
    while i < ports.len()
        invariant
            i <= ports.len(),
            out@.len() == i,
            forall|k: int| 0 <= k < i ==> (#[trigger] out@[k])@ == ports@[k]@,
        decreases ports.len() - i,
    {
        let p = &ports[i];
        let mut pids: Vec<u32> = Vec::new();
        let mut n: usize = 0;
        while n < p.pids.len()
            invariant
                n <= p.pids.len(),
                pids@ == p.pids@.take(n as int),
            decreases p.pids.len() - n,
        {
            pids.push(p.pids[n]);
            n += 1;
            assert(p.pids@.take(n as int) =~= p.pids@.take(n - 1).push(p.pids@[n - 1]));
        }
        assert(p.pids@.take(n as int) =~= p.pids@);
        let copy = ListeningPort {
            host: p.host.clone(),
            port: p.port,
            pids,
            process: clone_opt(&p.process),
            pane: clone_opt(&p.pane),
        };
        assert(copy@ =~= p@);
        out.push(copy);
        i += 1;
    }
    assert(port_facts(out@) =~= port_facts(ports@));
    out
}

/// The place of what is known of the workspace with the id.
pub open spec fn meta_index(metas: Seq<WorkspaceMeta>, id: Seq<char>) -> Option<int>
    decreases metas.len(),
{
    if metas.len() == 0 {
        None
    } else if metas[0].workspace@ == id {
        Some(0)
    } else {
        match meta_index(metas.drop_first(), id) {
            Some(i) => Some(i + 1),
            None => None,
        }
    }
}

fn find_meta(metas: &Vec<WorkspaceMeta>, id: &str) -> (r: Option<usize>)
    ensures
        r matches Some(i) ==> meta_index(metas@, id@) == Some(i as int) && i < metas@.len(),
        r is None ==> meta_index(metas@, id@) is None,
{
    let mut i: usize = 0;
    assert(metas@.skip(0) =~= metas@);
    while i < metas.len()
        invariant
            i <= metas.len(),
            meta_index(metas@, id@) == match meta_index(metas@.skip(i as int), id@) {
                Some(k) => Some(k + i),
                None => None,
            },
        decreases metas.len() - i,
    {
        assert(metas@.skip(i as int).drop_first() =~= metas@.skip(i + 1));
        if same(metas[i].workspace.as_str(), id) {
            return Some(i);
        }
        i += 1;
    }
    None
}

/// `after` is the workspace `before` with what is known of it; unchanged where nothing is.
pub open spec fn overlaid(before: Workspace, after: Workspace, metas: Seq<WorkspaceMeta>) -> bool {
    match meta_index(metas, before.id@) {
        None => after == before,
        Some(i) => {
            let meta = metas[i];
            &&& after == Workspace {
                git_branch: meta.git_branch,
                pull_request: None,
                ports: after.ports,
                cwd: match meta.cwd {
                    Some(cwd) => cwd,
                    None => before.cwd,
                },
                ..before
            }
            &&& port_facts(after.ports@) == port_facts(meta.ports@)
        },
    }
}

/// Lays over the workspaces what is known of them from outside.
pub fn overlay_meta(workspaces: &mut Vec<Workspace>, metas: &Vec<WorkspaceMeta>)
    ensures
        final(workspaces)@.len() == old(workspaces)@.len(),
        forall|i: int|
            0 <= i < old(workspaces)@.len() ==> overlaid(
                old(workspaces)@[i],
                #[trigger] final(workspaces)@[i],
                metas@,
            ),
{
    let ghost all = workspaces@;
    let mut i: usize = 0;
    while i < workspaces.len()
        invariant
            i <= workspaces.len(),
            workspaces@.len() == all.len(),
            forall|k: int|
                0 <= k < i ==> overlaid(all[k], #[trigger] workspaces@[k], metas@),
            forall|k: int| i <= k < all.len() ==> #[trigger] workspaces@[k] == all[k],
        decreases workspaces.len() - i,
    {
        if let Some(m) = find_meta(metas, workspaces[i].id.as_str()) {
            let meta = &metas[m];
            let w = &mut workspaces[i];
            w.git_branch = clone_opt(&meta.git_branch);
            w.pull_request = None;
            w.ports = clone_ports(&meta.ports);
            if let Some(cwd) = &meta.cwd {
                w.cwd = cwd.clone();
            }
        }
        i += 1;
    }
}

/// The texts of a running pane.
pub struct ScreenTexts {
    pub contents: String,
    pub formatted: String,
    pub raw: String,
    pub scrollback_formatted: String,
}

/// What a snapshot takes from a running pane.
pub struct Collected {
    pub runtime_key: String,
    pub pane: Pane,
    /// The texts, where they are asked for.
    pub output: Option<ScreenTexts>,
}

/// How much a snapshot takes of a pane.
#[derive(Debug, Clone, Copy, PartialEq, Eq, Structural)]
pub enum Depth {
    /// No texts.
    Light,
    /// The screen, and how many lines scrolled off.
    Lean,
    /// The screen and all that scrolled off.
    Full,
}

/// How much a snapshot takes of the pane: no texts where none are asked for; and where it is
/// lean, what scrolled off only for the panes to keep.
pub fn depth_for(include_output: bool, keep: Option<&Vec<String>>, pane: &str) -> (r: Depth)
    ensures
        r == if !include_output {
            Depth::Light
        } else if keep matches Some(ids) && !lists(ids@, pane@) {
            Depth::Lean
        } else {
            Depth::Full
        },
{
    if !include_output {
        return Depth::Light;
    }
    match keep {
        Some(ids) => if listed(ids, pane) {
            Depth::Full
        } else {
            Depth::Lean
        },
        None => Depth::Full,
    }
}

/// The rows of styled history that are kept.
pub const SCROLLBACK_FORMATTED_ROW_CAP: usize = 500;

/// The styled history of a running pane: what was made of the same output before, or anew.
pub open spec fn styled_history(runtime: PaneRuntime, screen: vt100::Screen) -> Seq<char> {
    if runtime.scrollback_formatted_generation == runtime.output_generation {
        runtime.scrollback_formatted_cache@
    } else {
        formatted_scrollback(screen, SCROLLBACK_FORMATTED_ROW_CAP)
    }
}

/// `after` is the pane `before` with what its screen says now.
pub open spec fn pane_collected(
    runtime: PaneRuntime,
    screen: vt100::Screen,
    depth: Depth,
    pane: Pane,
) -> bool {
    exists|base: Pane, noted: Pane| #[trigger]
        same_pane(base, runtime.pane) && #[trigger] screen_noted(
            base,
            noted,
            facts_of(screen),
            runtime.terminal_modes.alternate_scroll,
        ) && pane == if depth == Depth::Lean {
            Pane {
                scrollback_lines: Some(
                    line_list(flat(texts(runtime.output@))).len() as usize,
                ),
                ..noted
            }
        } else {
            noted
        }
}

/// The texts that a snapshot takes.
pub open spec fn texts_collected(
    runtime: PaneRuntime,
    screen: vt100::Screen,
    depth: Depth,
    output: Option<ScreenTexts>,
) -> bool {
    match depth {
        Depth::Light => output is None,
        Depth::Lean => output matches Some(t) && t.contents@ == screen_text(screen)
            && t.formatted@ == formatted_screen(screen) && t.raw@.len() == 0
            && t.scrollback_formatted@.len() == 0,
        Depth::Full => output matches Some(t) && t.contents@ == screen_text(screen)
            && t.formatted@ == formatted_screen(screen) && t.raw@ == flat(texts(runtime.output@))
            && t.scrollback_formatted@ == styled_history(runtime, screen),
    }
}

/// `after` is the running pane `before` once a snapshot was taken of it: a full one is kept.
pub open spec fn runtime_kept(
    before: PaneRuntime,
    after: PaneRuntime,
    screen: vt100::Screen,
    depth: Depth,
) -> bool {
    if depth != Depth::Full {
        after == before
    } else {
        &&& after == PaneRuntime {
            pane: after.pane,
            scrollback_formatted_cache: after.scrollback_formatted_cache,
            scrollback_formatted_generation: before.output_generation,
            ..before
        }
        &&& after.scrollback_formatted_cache@ == styled_history(before, screen)
        &&& after.pane == Pane {
            output: after.pane.output,
            output_formatted: after.pane.output_formatted,
            scrollback: after.pane.scrollback,
            scrollback_formatted: after.pane.scrollback_formatted,
            ..before.pane
        }
        &&& after.pane.output@ == screen_text(screen)
        &&& after.pane.output_formatted@ == formatted_screen(screen)
        &&& after.pane.scrollback@ == tail_within(
            flat(texts(before.output@)),
            before.scrollback_cap as int,
        )
        &&& after.pane.scrollback_formatted@ == styled_history(before, screen)
    }
}

/// Every row has a cell that the snapshot draws.
pub open spec fn can_collect(runtime: PaneRuntime, screen: vt100::Screen, depth: Depth) -> bool {
    &&& depth != Depth::Light ==> has_cells(screen)
    &&& depth == Depth::Full && runtime.scrollback_formatted_generation
        != runtime.output_generation ==> is_drawable(screen, SCROLLBACK_FORMATTED_ROW_CAP)
}

/// Takes from a running pane what a snapshot needs. The styled history is made anew only
/// where there was output since it was made.
pub fn collect_pane(
    runtime_key: &str,
    runtime: &mut PaneRuntime,
    depth: Depth,
) -> (r: Collected)
    requires
        old(runtime).wf(),
        can_collect(*old(runtime), shown(old(runtime).terminal), depth),
    ensures
        r.runtime_key@ == runtime_key@,
        pane_collected(*old(runtime), shown(old(runtime).terminal), depth, r.pane),
        texts_collected(*old(runtime), shown(old(runtime).terminal), depth, r.output),
        runtime_kept(*old(runtime), *final(runtime), shown(old(runtime).terminal), depth),
{
    let ghost start = *runtime;
    let mut pane = clone_pane(&runtime.pane);
    let ghost base = pane;
    let facts = screen_facts(screen_of(&runtime.terminal));
    note_screen(&mut pane, &facts, &runtime.terminal_modes);
    let ghost noted = pane;
    assert(same_pane(base, start.pane) && screen_noted(
        base,
        noted,
        facts_of(shown(start.terminal)),
        start.terminal_modes.alternate_scroll,
    ));
    match depth {
        Depth::Light => Collected { runtime_key: runtime_key.to_string(), pane, output: None },
        Depth::Lean => {
            pane.scrollback_lines = Some(chunked_line_count(&runtime.output));
            let output = ScreenTexts {
                contents: screen_of(&runtime.terminal).contents(),
                formatted: screen_contents_formatted(screen_of(&runtime.terminal)),
                raw: String::new(),
                scrollback_formatted: String::new(),
            };
            Collected { runtime_key: runtime_key.to_string(), pane, output: Some(output) }
        },
        Depth::Full => {
            let contents = screen_of(&runtime.terminal).contents();
            let formatted = screen_contents_formatted(screen_of(&runtime.terminal));
            if runtime.scrollback_formatted_generation != runtime.output_generation {
                let styled = screen_scrollback_formatted(
                    screen_of_mut(&mut runtime.terminal),
                    SCROLLBACK_FORMATTED_ROW_CAP,
                );
                runtime.scrollback_formatted_cache = styled;
                runtime.scrollback_formatted_generation = runtime.output_generation;
            }
            let raw = joined_output(&runtime.output);
            let cap = runtime.scrollback_cap;
            let cache = runtime.scrollback_formatted_cache.clone();
            runtime.pane.scrollback = trim_output(raw.clone(), cap);
            runtime.pane.output = contents.clone();
            runtime.pane.output_formatted = formatted.clone();
            runtime.pane.scrollback_formatted = cache.clone();
            let output = ScreenTexts { contents, formatted, raw, scrollback_formatted: cache };
            Collected { runtime_key: runtime_key.to_string(), pane, output: Some(output) }
        },
    }
}

/// Takes from a running pane what a snapshot needs, where every row that it draws has a cell.
/// Else nothing is taken or changed.
pub fn collect_drawn(
    runtime_key: &str,
    runtime: &mut PaneRuntime,
    depth: Depth,
) -> (r: Option<Collected>)
    requires
        old(runtime).wf(),
    ensures
        r is Some <==> can_collect(*old(runtime), shown(old(runtime).terminal), depth),
        r matches Some(c) ==> c.runtime_key@ == runtime_key@ && pane_collected(
            *old(runtime),
            shown(old(runtime).terminal),
            depth,
            c.pane,
        ) && texts_collected(*old(runtime), shown(old(runtime).terminal), depth, c.output) && runtime_kept(
            *old(runtime),
            *final(runtime),
            shown(old(runtime).terminal),
            depth,
        ),
        r is None ==> *final(runtime) == *old(runtime),
{
    if depth != Depth::Light && !can_draw(screen_of(&runtime.terminal)) {
        return None;
    }
    if depth == Depth::Full && runtime.scrollback_formatted_generation != runtime.output_generation
        && !can_draw_history(
        screen_of_mut(&mut runtime.terminal),
        SCROLLBACK_FORMATTED_ROW_CAP,
    ) {
        return None;
    }
    Some(collect_pane(runtime_key, runtime, depth))
}

/// Where there was no output since, a second full snapshot shows the history of the first.
pub proof fn history_is_kept(
    before: PaneRuntime,
    after: PaneRuntime,
    screen: vt100::Screen,
    later: vt100::Screen,
)
    requires
        runtime_kept(before, after, screen, Depth::Full),
    ensures
        styled_history(after, later) == styled_history(before, screen),
{
}

/// `run` is the collected pane with its texts: those collected, or else those that the
/// session holds.
pub open spec fn completed(c: Collected, panes: Seq<Pane>, cap: usize, run: Pane) -> bool {
    exists|base: Pane| #[trigger]
        same_pane(base, c.pane) && run == Pane {
            output: run.output,
            output_formatted: run.output_formatted,
            scrollback: run.scrollback,
            scrollback_formatted: run.scrollback_formatted,
            ..base
        } && match c.output {
            Some(t) => run.output@ == t.contents@ && run.output_formatted@ == t.formatted@
                && run.scrollback@ == tail_within(t.raw@, cap as int)
                && run.scrollback_formatted@ == t.scrollback_formatted@,
            None => match pane_index(panes, c.pane.id@) {
                Some(i) => run.output == panes[i].output && run.output_formatted
                    == panes[i].output_formatted && run.scrollback == panes[i].scrollback
                    && run.scrollback_formatted == panes[i].scrollback_formatted,
                None => run == base,
            },
        }
}

/// `after` are the panes `before` with one running pane taken in.
pub open spec fn merged_one(
    before: Seq<Pane>,
    after: Seq<Pane>,
    c: Collected,
    cap: usize,
    now: u64,
) -> bool {
    exists|run: Pane| #[trigger]
        completed(c, before, cap, run) && match pane_index(before, c.pane.id@) {
            Some(i) => after == before.update(i, after[i]) && run_taken(
                before[i],
                after[i],
                c.runtime_key@,
                run,
                now,
            ),
            None => after == with_pane(before, run),
        }
}

/// Takes a running pane into the panes of a snapshot.
pub fn merge_collected(panes: &mut Vec<Pane>, c: &Collected, cap: usize, now: u64)
    requires
        old(panes)@.len() < usize::MAX,
    ensures
        merged_one(old(panes)@, final(panes)@, *c, cap, now),
        final(panes)@.len() <= old(panes)@.len() + 1,
{
    let ghost before = panes@;
    let mut run = clone_pane(&c.pane);
    let ghost base = run;
    let found = find_pane(panes, c.pane.id.as_str());
    match &c.output {
        Some(t) => {
            run.output = t.contents.clone();
            run.output_formatted = t.formatted.clone();
            run.scrollback = trim_output(t.raw.clone(), cap);
            run.scrollback_formatted = t.scrollback_formatted.clone();
        },
        None => {
            if let Some(i) = found {
                run.output = panes[i].output.clone();
                run.output_formatted = panes[i].output_formatted.clone();
                run.scrollback = panes[i].scrollback.clone();
                run.scrollback_formatted = panes[i].scrollback_formatted.clone();
            }
        },
    }
    assert(same_pane(base, c.pane));
    assert(completed(*c, before, cap, run));
    match found {
        Some(i) => {
            take_run(&mut panes[i], c.runtime_key.as_str(), &run, now);
        },
        None => {
            proof {
                crate::model::slot_for_bounds(before, run.id@);
            }
            insert_pane(panes, run);
        },
    }
}

/// `after` are the panes `before` with the running panes taken in, one after another.
pub open spec fn merged_all(
    before: Seq<Pane>,
    after: Seq<Pane>,
    collected: Seq<Collected>,
    cap: usize,
    now: u64,
) -> bool
    decreases collected.len(),
{
    if collected.len() == 0 {
        after == before
    } else {
        exists|mid: Seq<Pane>|
            merged_all(before, mid, collected.drop_last(), cap, now) && #[trigger] merged_one(
                mid,
                after,
                collected.last(),
                cap,
                now,
            )
    }
}

/// Takes the running panes into the panes of a snapshot, one after another.
pub fn merge_all(panes: &mut Vec<Pane>, collected: &Vec<Collected>, cap: usize, now: u64)
    requires
        old(panes)@.len() + collected@.len() < usize::MAX,
    ensures
        merged_all(old(panes)@, final(panes)@, collected@, cap, now),
{
    let ghost before = panes@;
    let mut i: usize = 0;
    assert(collected@.take(0).len() == 0);
    while i < collected.len()
        invariant
            i <= collected.len(),
            panes@.len() <= before.len() + i,
            before.len() + collected@.len() < usize::MAX,
            merged_all(before, panes@, collected@.take(i as int), cap, now),
        decreases collected.len() - i,
    {
        let ghost mid = panes@;
        merge_collected(panes, &collected[i], cap, now);
        assert(collected@.take(i + 1).drop_last() =~= collected@.take(i as int));
        assert(merged_one(mid, panes@, collected@.take(i + 1).last(), cap, now));
        i += 1;
    }
    assert(collected@.take(i as int) =~= collected@);
}

/// The tab without its texts.
pub open spec fn tab_stripped(before: PaneTab, after: PaneTab) -> bool {
    &&& after == PaneTab {
        output: after.output,
        output_formatted: after.output_formatted,
        scrollback: after.scrollback,
        scrollback_formatted: after.scrollback_formatted,
        ..before
    }
    &&& after.output@.len() == 0
    &&& after.output_formatted@.len() == 0
    &&& after.scrollback@.len() == 0
    &&& after.scrollback_formatted@.len() == 0
}

/// `after` is the pane `before` in a lean snapshot: it says how many lines scrolled off; the
/// lines themselves are there only where it is to be kept; and its tabs have no texts.
pub open spec fn leaned(before: Pane, after: Pane, keep: Seq<String>) -> bool {
    &&& after == Pane {
        scrollback_lines: match before.scrollback_lines {
            Some(n) => Some(n),
            None => Some(line_list(before.scrollback@).len() as usize),
        },
        scrollback: after.scrollback,
        scrollback_formatted: after.scrollback_formatted,
        tabs: after.tabs,
        ..before
    }
    &&& if lists(keep, before.id@) {
        after.scrollback == before.scrollback && after.scrollback_formatted
            == before.scrollback_formatted
    } else {
        after.scrollback@.len() == 0 && after.scrollback_formatted@.len() == 0
    }
    &&& after.tabs@.len() == before.tabs@.len()
    &&& forall|i: int|
        0 <= i < before.tabs@.len() ==> tab_stripped(before.tabs@[i], #[trigger] after.tabs@[i])
}

fn count_lines(text: &str) -> (r: usize)
    ensures
        r == line_list(text@).len(),
{
    let chars = chars_of(text);
    let lines = split_lines(chars.as_slice());
    assert(crate::text::chars::views(lines@).len() == lines@.len());
    lines.len()
}

fn lean_pane(pane: &mut Pane, keep: &Vec<String>)
    ensures
        leaned(*old(pane), *final(pane), keep@),
{
    let ghost before = *pane;
    if pane.scrollback_lines.is_none() {
        pane.scrollback_lines = Some(count_lines(pane.scrollback.as_str()));
    }
    if !listed(keep, pane.id.as_str()) {
        pane.scrollback = String::new();
        pane.scrollback_formatted = String::new();
    }
    let ghost mid = *pane;
    let mut i: usize = 0;
    while i < pane.tabs.len()
        invariant
            i <= pane.tabs@.len(),
            pane.tabs@.len() == before.tabs@.len(),
            *pane == (Pane { tabs: pane.tabs, ..mid }),
            mid.tabs == before.tabs,
            forall|k: int|
                0 <= k < i ==> tab_stripped(before.tabs@[k], #[trigger] pane.tabs@[k]),
            forall|k: int|
                i <= k < before.tabs@.len() ==> #[trigger] pane.tabs@[k] == before.tabs@[k],
        decreases pane.tabs@.len() - i,
    {
        let tab = &mut pane.tabs[i];
        tab.output = String::new();
        tab.output_formatted = String::new();
        tab.scrollback = String::new();
        tab.scrollback_formatted = String::new();
        i += 1;
    }
}

/// Makes a snapshot lean: without the events, and without the lines that scrolled off but
/// for the panes to keep.
pub fn lean_snapshot(session: &mut Session, keep: &Vec<String>)
    ensures
        final(session).events@.len() == 0,
        final(session).panes@.len() == old(session).panes@.len(),
        forall|i: int|
            0 <= i < old(session).panes@.len() ==> leaned(
                old(session).panes@[i],
                #[trigger] final(session).panes@[i],
                keep@,
            ),
        *final(session) == (Session {
            events: final(session).events,
            panes: final(session).panes,
            ..*old(session)
        }),
{
    session.events.clear();
    let ghost mid = *session;
    let mut i: usize = 0;
    while i < session.panes.len()
        invariant
            i <= session.panes@.len(),
            session.panes@.len() == mid.panes@.len(),
            *session == (Session { panes: session.panes, ..mid }),
            forall|k: int|
                0 <= k < i ==> leaned(mid.panes@[k], #[trigger] session.panes@[k], keep@),
            forall|k: int|
                i <= k < mid.panes@.len() ==> #[trigger] session.panes@[k] == mid.panes@[k],
        decreases session.panes@.len() - i,
    {
        lean_pane(&mut session.panes[i], keep);
        i += 1;
    }
}

/// A snapshot: the session with what is known of its workspaces and what its running panes
/// show, and lean where `keep` is given.
pub fn snapshot(
    session: &mut Session,
    metas: &Vec<WorkspaceMeta>,
    collected: &Vec<Collected>,
    keep: Option<&Vec<String>>,
    cap: usize,
    now: u64,
)
    requires
        old(session).panes@.len() + collected@.len() < usize::MAX,
    ensures
        final(session).workspaces@.len() == old(session).workspaces@.len(),
        forall|i: int|
            0 <= i < old(session).workspaces@.len() ==> overlaid(
                old(session).workspaces@[i],
                #[trigger] final(session).workspaces@[i],
                metas@,
            ),
        keep is None ==> final(session).events == old(session).events && merged_all(
            old(session).panes@,
            final(session).panes@,
            collected@,
            cap,
            now,
        ),
        keep matches Some(ids) ==> final(session).events@.len() == 0 && exists|mid: Seq<Pane>|
            #[trigger] merged_all(old(session).panes@, mid, collected@, cap, now) && mid.len()
                == final(session).panes@.len() && (forall|i: int|
                0 <= i < mid.len() ==> leaned(mid[i], #[trigger] final(session).panes@[i], ids@)),
        *final(session) == (Session {
            events: final(session).events,
            panes: final(session).panes,
            workspaces: final(session).workspaces,
            ..*old(session)
        }),
{
    overlay_meta(&mut session.workspaces, metas);
    merge_all(&mut session.panes, collected, cap, now);
    let ghost mid = session.panes@;
    assert(merged_all(old(session).panes@, mid, collected@, cap, now));
    if let Some(ids) = keep {
        lean_snapshot(session, ids);
    }
}

/// What is written to disk of a pane: neither what a viewer holds it to, nor its modes.
pub open spec fn saved(pane: Pane) -> Pane {
    Pane { view_size: None, alternate_scroll_mode: false, ..pane }
}

/// Takes from a snapshot what is not written to disk.
pub fn strip_for_save(panes: &mut Vec<Pane>)
    ensures
        final(panes)@ == old(panes)@.map_values(|p: Pane| saved(p)),
{
    let ghost all = panes@;
    let mut i: usize = 0;
    while i < panes.len()
        invariant
            i <= panes.len(),
            panes@.len() == all.len(),
            forall|k: int| 0 <= k < i ==> #[trigger] panes@[k] == saved(all[k]),
            forall|k: int| i <= k < all.len() ==> #[trigger] panes@[k] == all[k],
        decreases panes.len() - i,
    {
        let p = &mut panes[i];
        p.view_size = None;
        p.alternate_scroll_mode = false;
        i += 1;
    }
    assert(panes@ =~= all.map_values(|p: Pane| saved(p)));
}

/// The workspace that an event is about: the one it names, where there is such a one, or
/// else the one that holds its pane.
pub open spec fn event_workspace_index(workspaces: Seq<Workspace>, e: EventView) -> Option<int> {
    let named = match e.workspace {
        Some(id) => workspace_index(workspaces, id),
        None => None,
    };
    match named {
        Some(i) => Some(i),
        None => match e.pane {
            Some(pane) => holder_index(workspaces, pane),
            None => None,
        },
    }
}

/// The workspace that an event is about.
pub fn event_workspace(workspaces: &Vec<Workspace>, event: &EventRecord) -> (r: Option<usize>)
    ensures
        r matches Some(i) ==> event_workspace_index(workspaces@, event@) == Some(i as int) && i
            < workspaces@.len(),
        r is None ==> event_workspace_index(workspaces@, event@) is None,
{
    let named = match &event.workspace {
        Some(id) => find_workspace(workspaces, id.as_str()),
        None => None,
    };
    match named {
        Some(i) => Some(i),
        None => match &event.pane {
            Some(pane) => match find_pane_location(workspaces, pane.as_str()) {
                Some(l) => Some(l.workspace),
                None => None,
            },
            None => None,
        },
    }
}

/// A pane in a summary: the places of its workspace and of itself.
#[derive(Debug, Clone, Copy, PartialEq, Eq, Structural)]
pub struct SummaryRow {
    pub workspace: usize,
    pub pane: usize,
}

/// The rows of the panes with the ids, of one workspace; ids without a pane have none.
pub open spec fn rows_of(panes: Seq<Pane>, workspace: int, ids: Seq<Seq<char>>) -> Seq<(int, int)>
    decreases ids.len(),
{
    if ids.len() == 0 {
        Seq::empty()
    } else {
        let before = rows_of(panes, workspace, ids.drop_last());
        match pane_index(panes, ids.last()) {
            Some(i) => before.push((workspace, i)),
            None => before,
        }
    }
}

/// The rows of the first `count` workspaces.
pub open spec fn summary_rows(session: Session, count: int) -> Seq<(int, int)>
    decreases count,
{
    if count <= 0 {
        Seq::empty()
    } else {
        summary_rows(session, count - 1) + rows_of(
            session.panes@,
            count - 1,
            workspace_pane_ids(session.workspaces@[count - 1]),
        )
    }
}

/// The places that rows say.
pub open spec fn row_places(rows: Seq<SummaryRow>) -> Seq<(int, int)> {
    Seq::new(rows.len(), |i: int| (rows[i].workspace as int, rows[i].pane as int))
}

/// The panes of all workspaces, on whatever tab.
pub fn agent_summary(session: &Session) -> (r: Vec<SummaryRow>)
    ensures
        row_places(r@) == summary_rows(*session, session.workspaces@.len() as int),
{
    let mut out: Vec<SummaryRow> = Vec::new();
    let mut w: usize = 0;
    assert(row_places(out@) =~= Seq::empty());
    while w < session.workspaces.len()
        invariant
            w <= session.workspaces.len(),
            row_places(out@) == summary_rows(*session, w as int),
        decreases session.workspaces.len() - w,
    {
        let ids = session.workspaces[w].all_pane_ids();
        let ghost start = row_places(out@);
        let mut i: usize = 0;
        assert(texts(ids@).take(0) =~= Seq::empty());
        assert(row_places(out@) =~= start + rows_of(session.panes@, w as int, texts(ids@).take(0)));
        while i < ids.len()
            invariant
                i <= ids.len(),
                w < session.workspaces@.len(),
                row_places(out@) == start + rows_of(
                    session.panes@,
                    w as int,
                    texts(ids@).take(i as int),
                ),
            decreases ids.len() - i,
        {
            assert(texts(ids@).take(i + 1).drop_last() =~= texts(ids@).take(i as int));
            assert(texts(ids@).take(i + 1).last() == ids@[i as int]@);
            let ghost before = out@;
            if let Some(p) = find_pane(&session.panes, ids[i].as_str()) {
                out.push(SummaryRow { workspace: w, pane: p });
                assert(row_places(out@) =~= row_places(before).push((w as int, p as int)));
            }
            i += 1;
            assert(row_places(out@) =~= start + rows_of(
                session.panes@,
                w as int,
                texts(ids@).take(i as int),
            ));
        }
        assert(texts(ids@).take(i as int) =~= texts(ids@));
        w += 1;
    }
    out
}

/// Which pane it is: where it is, and its record.
pub struct Identity {
    pub workspace: usize,
    pub tab: Option<String>,
    pub pane: usize,
}

/// Why a pane is not known.
#[derive(Debug)]
pub enum IdentifyError {
    /// None was named and none is active.
    NoActive,
    /// It is in no workspace.
    Detached(String),
    Unknown(String),
}

/// Which pane is asked for: the named one, or else the active one.
pub open spec fn asked_pane(session: Session, pane: Option<Seq<char>>) -> Option<Seq<char>> {
    match pane {
        Some(p) => Some(p),
        None => crate::daemon::handlers::active_pane_of(session),
    }
}

/// Finds out where a pane is.
pub fn identify(session: &Session, pane: Option<&str>) -> (r: Result<Identity, IdentifyError>)
    ensures
        match asked_pane(*session, opt_str(pane)) {
            None => r matches Err(IdentifyError::NoActive),
            Some(id) => match holder_index(session.workspaces@, id) {
                None => r matches Err(IdentifyError::Detached(got)) && got@ == id,
                Some(w) => match pane_index(session.panes@, id) {
                    None => r matches Err(IdentifyError::Unknown(got)) && got@ == id,
                    Some(p) => r matches Ok(found) && found.workspace == w && found.pane == p
                        && opt_text(found.tab) == crate::daemon::handlers::tab_of_pane(
                        session.workspaces@[w],
                        id,
                    ),
                },
            },
        },
{
    let asked = match pane {
        Some(p) => Some(p.to_string()),
        None => match find_workspace(&session.workspaces, session.active_workspace.as_str()) {
            Some(i) => clone_opt(&session.workspaces[i].active_pane),
            None => None,
        },
    };
    let id = match asked {
        Some(id) => id,
        None => {
            return Err(IdentifyError::NoActive);
        },
    };
    match find_pane_location(&session.workspaces, id.as_str()) {
        None => Err(IdentifyError::Detached(id)),
        Some(l) => match find_pane(&session.panes, id.as_str()) {
            None => Err(IdentifyError::Unknown(id)),
            Some(p) => Ok(Identity { workspace: l.workspace, tab: l.tab, pane: p }),
        },
    }
}

} // verus!

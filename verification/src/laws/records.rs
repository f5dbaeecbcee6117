//! What the records of a session hold: its panes and their tabs, what is noted of them, and what is
//! found in them.
use crate::daemon::handlers::{is_zoomed, metadata_noted, metadata_value, search_hits, zooms};
use crate::daemon::lifecycle::{listed_panes, published, run_taken, unlisted_ids};
use crate::daemon::navigate::workspace_pane_ids;
use crate::daemon::output::scrollback_budget;
use crate::daemon::panes::{
    is_stale_cwd, is_workspace_of, lists, mirrored, shows_tab, tab_index, tabs_mirroring,
};
use crate::daemon::plans::{
    action_index, decayed, is_stale_busy, last_filled_line, leading_pane, pid_of, pids_of,
    BUSY_IDLE_DECAY_SECS, CustomAction,
};
use crate::daemon::runtime::{key_tab, runtime_key};
use crate::daemon::snapshot::{rows_of, summary_rows};
use crate::laws::pairs::{holds_pair, keys_differ, setting_a_pair, taking_a_key_away};
use crate::laws::restores::{all_tabs_are_read, stands_on_a_tab};
use crate::model::{
    is_new_pane, is_new_workspace, pane_index, pane_index_is_first, AgentStatus, Notification, Pane,
    PaneStatus, PaneTab, Session, SurfaceKind, Workspace,
};
use crate::text::chars::{has_text, is_blank, opt_text, stands_at, trimmed};
use crate::text::pairs::with_pair;
use vstd::prelude::*;

verus! {

proof fn hits_are(lines: Seq<Seq<char>>, query: Seq<char>, n: int, line: Seq<char>)
    ensures
        search_hits(lines, query).contains((n, line)) <==> 1 <= n <= lines.len() && lines[n - 1]
            == line && has_text(line, query),
        forall|i: int|
            0 <= i < search_hits(lines, query).len() ==> 1 <= (#[trigger] search_hits(
                lines,
                query,
            )[i]).0 <= lines.len(),
        forall|i: int, j: int|
            0 <= i < j < search_hits(lines, query).len() ==> (#[trigger] search_hits(
                lines,
                query,
            )[i]).0 < (#[trigger] search_hits(lines, query)[j]).0,
    decreases lines.len(),
{
    if lines.len() > 0 {
        let shorter = lines.drop_last();
        hits_are(shorter, query, n, line);
        let before = search_hits(shorter, query);
        let after = search_hits(lines, query);
        if has_text(lines.last(), query) {
            let hit = (lines.len() as int, lines.last());
            assert(after == before.push(hit));
            assert(after[before.len() as int] == hit);
            if before.contains((n, line)) {
                let k = choose|k: int| 0 <= k < before.len() && before[k] == (n, line);
                assert(after[k] == (n, line));
            }
            if after.contains((n, line)) && (n, line) != hit {
                let k = choose|k: int| 0 <= k < after.len() && after[k] == (n, line);
                assert(before[k] == (n, line));
            }
        }
        if 1 <= n < lines.len() {
            assert(shorter[n - 1] == lines[n - 1]);
        }
    }
}

/// A search finds each line that holds the text, with its number counted from one, in the order of
/// the lines, and no other line.
pub proof fn lines_are_searched(lines: Seq<Seq<char>>, query: Seq<char>, n: int)
    requires
        1 <= n <= lines.len(),
    ensures
        search_hits(lines, query).contains((n, lines[n - 1])) <==> exists|k: int|
            0 <= k && k + query.len() <= lines[n - 1].len() && #[trigger] lines[n - 1].subrange(
                k,
                k + query.len(),
            ) == query,
        forall|i: int|
            0 <= i < search_hits(lines, query).len() ==> 1 <= (#[trigger] search_hits(
                lines,
                query,
            )[i]).0 <= lines.len() && search_hits(lines, query)[i].1 == lines[search_hits(
                lines,
                query,
            )[i].0 - 1],
        forall|i: int, j: int|
            0 <= i < j < search_hits(lines, query).len() ==> (#[trigger] search_hits(
                lines,
                query,
            )[i]).0 < (#[trigger] search_hits(lines, query)[j]).0,
{
    let line = lines[n - 1];
    let hits = search_hits(lines, query);
    hits_are(lines, query, n, line);
    assert forall|i: int| 0 <= i < hits.len() implies 1 <= (#[trigger] hits[i]).0 <= lines.len()
        && hits[i].1 == lines[hits[i].0 - 1] by {
        assert(hits[i] == (hits[i].0, hits[i].1));
        assert(hits.contains((hits[i].0, hits[i].1)));
        hits_are(lines, query, hits[i].0, hits[i].1);
    }
    if has_text(line, query) {
        let k = choose|k: int| stands_at(line, query, k);
        assert(line.subrange(k, k + query.len()) == query);
    }
    if exists|k: int|
        0 <= k && k + query.len() <= line.len() && #[trigger] line.subrange(k, k + query.len())
            == query {
        let k = choose|k: int|
            0 <= k && k + query.len() <= line.len() && #[trigger] line.subrange(k, k + query.len())
                == query;
        assert(stands_at(line, query, k));
    }
}

/// What is noted of a pane under a key is what was said last: the value without the white space
/// round it. A blank value, or none, takes the key away. What stands under other keys stays.
pub proof fn metadata_is_what_was_said_last(
    before: Session,
    after: Session,
    i: int,
    pane: Seq<char>,
    key: Seq<char>,
    value: Option<Seq<char>>,
    now: u64,
    other: Seq<char>,
    held: Seq<char>,
)
    requires
        pane_index(before.panes@, pane) == Some(i),
        keys_differ(before.panes@[i].metadata@),
        metadata_noted(before, after, pane, key, value, now),
    ensures
        value matches Some(v) ==> !is_blank(v) ==> (holds_pair(
            after.panes@[i].metadata@,
            trimmed(key),
            held,
        ) <==> held == trimmed(v)),
        value is None ==> !holds_pair(after.panes@[i].metadata@, trimmed(key), held),
        value matches Some(v) ==> is_blank(v) ==> !holds_pair(
            after.panes@[i].metadata@,
            trimmed(key),
            held,
        ),
        other != trimmed(key) ==> (holds_pair(after.panes@[i].metadata@, other, held)
            <==> holds_pair(before.panes@[i].metadata@, other, held)),
        after.panes@[i].updated_at == now,
        after.panes@[i].title == before.panes@[i].title,
        after.panes@[i].agent_status == before.panes@[i].agent_status,
        after.workspaces == before.workspaces,
{
    pane_index_is_first(before.panes@, pane);
    let old_pairs = before.panes@[i].metadata@;
    let new_pairs = after.panes@[i].metadata@;
    let k = trimmed(key);
    assert(after.panes@[i] == before.panes@.update(i, after.panes@[i])[i]);
    match metadata_value(value) {
        Some(v) => {
            let pair = choose|pair: (String, String)|
                pair.0@ == k && pair.1@ == v && new_pairs == #[trigger] with_pair(old_pairs, pair);
            setting_a_pair(old_pairs, pair, k, held);
            setting_a_pair(old_pairs, pair, other, held);
        },
        None => {
            taking_a_key_away(old_pairs, k, other, held);
        },
    }
}

proof fn rows_are(panes: Seq<Pane>, w: int, ids: Seq<Seq<char>>, v: int, i: int)
    ensures
        rows_of(panes, w, ids).contains((v, i)) <==> v == w && exists|k: int|
            0 <= k < ids.len() && pane_index(panes, #[trigger] ids[k]) == Some(i),
    decreases ids.len(),
{
    if ids.len() > 0 {
        let shorter = ids.drop_last();
        rows_are(panes, w, shorter, v, i);
        let before = rows_of(panes, w, shorter);
        let after = rows_of(panes, w, ids);
        if exists|k: int| 0 <= k < ids.len() && pane_index(panes, #[trigger] ids[k]) == Some(i) {
            let k = choose|k: int|
                0 <= k < ids.len() && pane_index(panes, #[trigger] ids[k]) == Some(i);
            if k < shorter.len() {
                assert(shorter[k] == ids[k]);
            }
        }
        if exists|k: int|
            0 <= k < shorter.len() && pane_index(panes, #[trigger] shorter[k]) == Some(i) {
            let k = choose|k: int|
                0 <= k < shorter.len() && pane_index(panes, #[trigger] shorter[k]) == Some(i);
            assert(pane_index(panes, ids[k]) == Some(i));
        }
        assert(ids[ids.len() - 1] == ids.last());
        if let Some(p) = pane_index(panes, ids.last()) {
            assert(after[before.len() as int] == (w, p));
            if before.contains((v, i)) {
                let k = choose|k: int| 0 <= k < before.len() && before[k] == (v, i);
                assert(after[k] == (v, i));
            }
            if after.contains((v, i)) && (v, i) != (w, p) {
                let k = choose|k: int| 0 <= k < after.len() && after[k] == (v, i);
                assert(before[k] == (v, i));
            }
        }
    }
}

/// A summary has a row for each pane of each workspace, on whatever tab it stands, and no other
/// row.
pub proof fn all_tabs_are_summed_up(session: Session, n: int, w: int, i: int)
    requires
        0 <= n <= session.workspaces@.len(),
    ensures
        summary_rows(session, n).contains((w, i)) <==> 0 <= w < n && 0 <= i < session.panes@.len()
            && stands_on_a_tab(session.workspaces@[w], session.panes@[i].id@) && (forall|j: int|
            0 <= j < i ==> (#[trigger] session.panes@[j]).id@ != session.panes@[i].id@),
    decreases n,
{
    if n > 0 {
        let before = summary_rows(session, n - 1);
        let space = session.workspaces@[n - 1];
        let ids = workspace_pane_ids(space);
        let more = rows_of(session.panes@, n - 1, ids);
        let after = summary_rows(session, n);
        assert(after == before + more);
        all_tabs_are_summed_up(session, n - 1, w, i);
        rows_are(session.panes@, n - 1, ids, w, i);
        if exists|k: int|
            0 <= k < ids.len() && pane_index(session.panes@, #[trigger] ids[k]) == Some(i) {
            let k = choose|k: int|
                0 <= k < ids.len() && pane_index(session.panes@, #[trigger] ids[k]) == Some(i);
            pane_index_is_first(session.panes@, ids[k]);
            all_tabs_are_read(space, ids[k]);
            assert(ids.contains(ids[k]));
        }
        if 0 <= i < session.panes@.len() && stands_on_a_tab(space, session.panes@[i].id@) && (
        forall|j: int|
            0 <= j < i ==> (#[trigger] session.panes@[j]).id@ != session.panes@[i].id@) {
            let id = session.panes@[i].id@;
            all_tabs_are_read(space, id);
            let k = choose|k: int| 0 <= k < ids.len() && ids[k] == id;
            pane_index_is_first(session.panes@, id);
            assert(pane_index(session.panes@, ids[k]) == Some(i));
        }
        if before.contains((w, i)) {
            let k = choose|k: int| 0 <= k < before.len() && before[k] == (w, i);
            assert(after[k] == (w, i));
        }
        if more.contains((w, i)) {
            let k = choose|k: int| 0 <= k < more.len() && more[k] == (w, i);
            assert(after[before.len() + k] == (w, i));
        }
        if after.contains((w, i)) {
            let k = choose|k: int| 0 <= k < after.len() && after[k] == (w, i);
            if k < before.len() {
                assert(before[k] == (w, i));
            } else {
                assert(more[k - before.len()] == (w, i));
            }
        }
    }
}

proof fn tab_place(tabs: Seq<PaneTab>, id: Seq<char>)
    ensures
        tab_index(tabs, id) matches Some(i) ==> 0 <= i < tabs.len() && tabs[i].id@ == id && (
        forall|j: int| 0 <= j < i ==> (#[trigger] tabs[j]).id@ != id),
        tab_index(tabs, id) is None ==> (forall|j: int|
            0 <= j < tabs.len() ==> (#[trigger] tabs[j]).id@ != id),
    decreases tabs.len(),
{
    if tabs.len() > 0 && tabs[0].id@ != id {
        let rest = tabs.drop_first();
        tab_place(rest, id);
        assert forall|j: int| 0 < j < tabs.len() implies tabs[j] == rest[j - 1] by {}
    }
}

/// What a tab of a pane keeps is what the pane shows: the first tab with the id takes it over, and
/// no other tab changes.
pub proof fn tabs_keep_what_is_shown(
    tabs: Seq<PaneTab>,
    id: Seq<char>,
    pane: Pane,
    at: u64,
    i: int,
    j: int,
)
    requires
        0 <= i < tabs.len(),
        tabs[i].id@ == id,
        forall|k: int| 0 <= k < i ==> (#[trigger] tabs[k]).id@ != id,
        0 <= j < tabs.len(),
        j != i,
    ensures
        tabs_mirroring(tabs, id, pane, at).len() == tabs.len(),
        tabs_mirroring(tabs, id, pane, at)[j] == tabs[j],
        ({
            let tab = tabs_mirroring(tabs, id, pane, at)[i];
            &&& tab.id@ == id && tab.created_at == tabs[i].created_at && tab.updated_at == at
            &&& tab.title == pane.title && tab.command == pane.command
            &&& tab.surface_kind == pane.surface_kind
            &&& tab.status == Some(pane.status) && tab.agent_status == Some(pane.agent_status)
            &&& tab.progress == pane.progress && tab.exit_code == pane.exit_code
            &&& tab.notification_color == pane.notification_color
            &&& tab.notification_message == pane.notification_message
            &&& tab.output == pane.output && tab.output_formatted == pane.output_formatted
            &&& tab.scrollback == pane.scrollback
            &&& tab.scrollback_formatted == pane.scrollback_formatted
        }),
{
    tab_place(tabs, id);
}

/// A pane that goes to a tab shows what the tab kept: going away from a tab and back brings back
/// what the pane showed.
pub proof fn going_back_shows_what_was_kept(
    kept: PaneTab,
    shown: Pane,
    at: u64,
    before: Pane,
    after: Pane,
    inferred: AgentStatus,
    shell: Seq<char>,
    now: u64,
)
    requires
        shows_tab(before, after, mirrored(kept, shown, at), inferred, shell, now),
    ensures
        after.id == before.id && after.pid == before.pid,
        opt_text(after.active_tab) == Some(kept.id@),
        after.title == shown.title,
        !is_blank(shown.command@) ==> after.command@ == shown.command@,
        is_blank(shown.command@) ==> after.command@ == shell,
        after.surface_kind == shown.surface_kind,
        after.status == shown.status,
        after.agent_status == shown.agent_status,
        after.progress == shown.progress,
        after.exit_code == shown.exit_code,
        after.notification_color == shown.notification_color,
        after.notification_message == shown.notification_message,
        after.output == shown.output && after.output_formatted == shown.output_formatted,
        after.scrollback == shown.scrollback,
        after.scrollback_formatted == shown.scrollback_formatted,
        after.updated_at == now,
{
}

/// What a run that is shown does is shown by the pane, which keeps its tabs' choice and what is
/// noted of it; what a hidden run does changes nothing but its own tab.
pub proof fn hidden_runs_change_their_tabs(
    before: Pane,
    after: Pane,
    tab: Option<Seq<char>>,
    run: Pane,
    now: u64,
    j: int,
)
    requires
        run_taken(before, after, runtime_key(before.id@, tab), run, now),
    ensures
        tab == opt_text(before.active_tab) ==> after.status == run.status && after.exit_code
            == run.exit_code && after.output == run.output && after.agent_status
            == run.agent_status && after.active_tab == before.active_tab && after.metadata
            == before.metadata,
        runtime_key(before.id@, tab) != runtime_key(before.id@, opt_text(before.active_tab))
            ==> after.status == before.status && after.exit_code == before.exit_code && after.output
            == before.output && after.title == before.title && after.agent_status
            == before.agent_status && after.updated_at == before.updated_at,
        runtime_key(before.id@, tab) != runtime_key(before.id@, opt_text(before.active_tab)) && 0
            <= j < before.tabs@.len() && tab != Some(before.tabs@[j].id@) ==> after.tabs@[j]
            == before.tabs@[j],
        runtime_key(before.id@, tab) != runtime_key(before.id@, opt_text(before.active_tab)) && 0
            <= j < before.tabs@.len() && tab == Some(before.tabs@[j].id@) && (forall|k: int|
            0 <= k < j ==> (#[trigger] before.tabs@[k]).id@ != before.tabs@[j].id@)
            ==> after.tabs@[j].status == Some(run.status) && after.tabs@[j].exit_code
            == run.exit_code && after.tabs@[j].output == run.output,
{
    let id = before.id@;
    let key = runtime_key(id, tab);
    reveal_strlit("::");
    match tab {
        Some(t) => {
            assert(key.subrange(0, id.len() as int) =~= id);
            let rest = key.skip(id.len() as int);
            assert(rest =~= "::"@ + t);
            assert(rest.subrange(0, 2) =~= "::"@);
            assert(rest.skip(2) =~= t);
            assert(key_tab(id, key) == Some(t));
            tab_place(before.tabs@, t);
        },
        None => {
            let rest = key.skip(id.len() as int);
            assert(rest.len() == 0);
            assert(key_tab(id, key) is None);
        },
    }
}

/// A status of work that was only inferred ends twenty seconds after the last output, and the pane
/// is idle then. Any other status stays, and so does one that a hook or a command set.
pub proof fn quiet_panes_are_idle(pane: Pane, now: u64)
    ensures
        pane.agent_status == AgentStatus::Busy && !pane.agent_status_pinned && now
            - pane.updated_at >= 20 ==> decayed(pane, now, BUSY_IDLE_DECAY_SECS) == (Pane {
            agent_status: AgentStatus::Idle,
            agent_status_pinned: false,
            agent_status_at: now,
            ..pane
        }),
        pane.agent_status != AgentStatus::Busy || pane.agent_status_pinned || now
            - pane.updated_at < 20 ==> decayed(pane, now, BUSY_IDLE_DECAY_SECS) == pane,
        is_stale_busy(pane, now, BUSY_IDLE_DECAY_SECS) <==> pane.agent_status == AgentStatus::Busy
            && !pane.agent_status_pinned && now - pane.updated_at >= 20,
{
}

/// What a program answered is its last line that is not blank.
pub proof fn the_last_filled_line_answers(lines: Seq<Seq<char>>, i: int)
    ensures
        0 <= i < lines.len() && !is_blank(lines[i]) && (forall|j: int|
            i < j < lines.len() ==> is_blank(#[trigger] lines[j])) ==> last_filled_line(lines)
            == Some(lines[i]),
        (forall|j: int| 0 <= j < lines.len() ==> is_blank(#[trigger] lines[j]))
            ==> last_filled_line(lines) is None,
    decreases lines.len(),
{
    if lines.len() > 0 {
        let shorter = lines.drop_last();
        the_last_filled_line_answers(shorter, i);
        assert(lines.last() == lines[lines.len() - 1]);
        assert forall|j: int| 0 <= j < shorter.len() implies shorter[j] == lines[j] by {}
    }
}

/// The process of a pane is the first that is named for it.
pub proof fn the_first_process_counts(
    before: Seq<(String, u32)>,
    pid: (String, u32),
    rest: Seq<(String, u32)>,
    id: Seq<char>,
)
    requires
        forall|j: int| 0 <= j < before.len() ==> (#[trigger] before[j]).0@ != id,
    ensures
        pid.0@ == id ==> pid_of(before.push(pid) + rest, id) == Some(pid.1),
        pid_of(before, id) is None,
    decreases before.len(),
{
    let all = before.push(pid) + rest;
    assert(all[0] == if before.len() > 0 {
        before[0]
    } else {
        pid
    });
    if before.len() > 0 {
        let fewer = before.drop_first();
        assert forall|j: int| 0 <= j < fewer.len() implies (#[trigger] fewer[j]).0@ != id by {
            assert(fewer[j] == before[j + 1]);
        }
        the_first_process_counts(fewer, pid, rest, id);
        assert(all.drop_first() =~= fewer.push(pid) + rest);
    }
}

/// The processes of a workspace are those of its panes in their order; a pane without a process
/// gives none.
pub proof fn processes_are_in_the_order_of_panes(
    pids: Seq<(String, u32)>,
    ids: Seq<Seq<char>>,
    id: Seq<char>,
    w: Workspace,
)
    ensures
        pids_of(pids, Seq::empty()) == Seq::<u32>::empty(),
        pid_of(pids, id) matches Some(pid) ==> pids_of(pids, ids.push(id)) == pids_of(
            pids,
            ids,
        ).push(pid),
        pid_of(pids, id) is None ==> pids_of(pids, ids.push(id)) == pids_of(pids, ids),
        w.active_pane matches Some(p) ==> leading_pane(w) == Some(p@),
        w.active_pane is None && w.panes@.len() > 0 ==> leading_pane(w) == Some(w.panes@[0]@),
        w.active_pane is None && w.panes@.len() == 0 ==> leading_pane(w) is None,
{
    assert(ids.push(id).drop_last() =~= ids);
}

/// The panes of a list are kept in their order, and the ids of the others are named in theirs.
pub proof fn panes_are_listed_or_not(panes: Seq<Pane>, ids: Seq<String>, id: Seq<char>)
    ensures
        listed_panes(panes, ids) == panes.filter(
            |p: Pane| exists|k: int| 0 <= k < ids.len() && (#[trigger] ids[k])@ == p.id@,
        ),
        unlisted_ids(panes, ids).contains(id) <==> exists|i: int|
            0 <= i < panes.len() && (#[trigger] panes[i]).id@ == id && !(exists|k: int|
                0 <= k < ids.len() && (#[trigger] ids[k])@ == id),
    decreases panes.len(),
{
    reveal(Seq::filter);
    if panes.len() > 0 {
        let shorter = panes.drop_last();
        panes_are_listed_or_not(shorter, ids, id);
        let before = unlisted_ids(shorter, ids);
        let after = unlisted_ids(panes, ids);
        assert(panes[panes.len() - 1] == panes.last());
        if !lists(ids, panes.last().id@) {
            assert(after[before.len() as int] == panes.last().id@);
            if before.contains(id) {
                let k = choose|k: int| 0 <= k < before.len() && before[k] == id;
                assert(after[k] == id);
            }
            if after.contains(id) && id != panes.last().id@ {
                let k = choose|k: int| 0 <= k < after.len() && after[k] == id;
                assert(before[k] == id);
            }
        }
        if exists|i: int|
            0 <= i < panes.len() && (#[trigger] panes[i]).id@ == id && !(exists|k: int|
                0 <= k < ids.len() && (#[trigger] ids[k])@ == id) {
            let i = choose|i: int|
                0 <= i < panes.len() && (#[trigger] panes[i]).id@ == id && !(exists|k: int|
                    0 <= k < ids.len() && (#[trigger] ids[k])@ == id);
            if i < shorter.len() {
                assert(shorter[i] == panes[i]);
            }
        }
        if exists|i: int|
            0 <= i < shorter.len() && (#[trigger] shorter[i]).id@ == id && !(exists|k: int|
                0 <= k < ids.len() && (#[trigger] ids[k])@ == id) {
            let i = choose|i: int|
                0 <= i < shorter.len() && (#[trigger] shorter[i]).id@ == id && !(exists|k: int|
                    0 <= k < ids.len() && (#[trigger] ids[k])@ == id);
            assert(panes[i] == shorter[i]);
        }
    }
}

/// A pane that is published takes the place of the pane with its id, whose tabs and notes it
/// keeps. The other panes stay as they are.
pub proof fn published_panes_take_their_place(
    before: Seq<Pane>,
    after: Seq<Pane>,
    pane: Pane,
    i: int,
    j: int,
)
    requires
        published(before, after, pane),
        pane_index(before, pane.id@) == Some(i),
        0 <= j < before.len(),
        j != i,
    ensures
        after.len() == before.len(),
        after[j] == before[j],
        after[i].id == pane.id && after[i].title == pane.title && after[i].status == pane.status
            && after[i].agent_status == pane.agent_status && after[i].output == pane.output,
        after[i].tabs == before[i].tabs && after[i].active_tab == before[i].active_tab
            && after[i].metadata == before[i].metadata,
{
    pane_index_is_first(before, pane.id@);
    assert(after[j] == before.update(i, after[i])[j]);
}

/// A pane is zoomed where a workspace shows it so, or keeps it so on any of its tabs.
pub proof fn zoomed_on_any_tab(workspaces: Seq<Workspace>, pane: Seq<char>, w: int, t: int)
    requires
        0 <= w < workspaces.len(),
    ensures
        workspaces[w].zoomed_pane matches Some(p) ==> p@ == pane ==> is_zoomed(workspaces, pane),
        0 <= t < workspaces[w].tabs@.len() ==> (workspaces[w].tabs@[t].zoomed_pane matches Some(
            p,
        ) ==> p@ == pane ==> is_zoomed(workspaces, pane)),
        (forall|v: int|
            0 <= v < workspaces.len() ==> (#[trigger] workspaces[v]).zoomed_pane is None && forall|
                s: int,
            |
                0 <= s < workspaces[v].tabs@.len() ==> (
                #[trigger] workspaces[v].tabs@[s]).zoomed_pane is None) ==> !is_zoomed(
            workspaces,
            pane,
        ),
{
    if 0 <= t < workspaces[w].tabs@.len() {
        let tab = workspaces[w].tabs@[t];
        assert(opt_text(tab.zoomed_pane) == Some(pane) ==> zooms(
            workspaces[w],
            pane,
        ));
    }
    if opt_text(workspaces[w].zoomed_pane) == Some(pane) {
        assert(zooms(workspaces[w], pane));
    }
}

/// A note is about the workspace that it names; where it names none, about one that holds its
/// pane on any tab.
pub proof fn notes_are_about_workspaces(w: Workspace, note: Notification)
    ensures
        note.workspace matches Some(id) ==> (is_workspace_of(w, note) <==> w.id@ == id@),
        note.workspace is None ==> (note.pane matches Some(p) ==> (is_workspace_of(w, note)
            <==> stands_on_a_tab(w, p@))),
        note.workspace is None && note.pane is None ==> !is_workspace_of(w, note),
{
    if let Some(p) = note.pane {
        all_tabs_are_read(w, p@);
    }
}

/// A directory says nothing of where a workspace is where it is empty, the root or a dot.
pub proof fn directories_that_say_nothing(cwd: Seq<char>)
    ensures
        is_stale_cwd(cwd) <==> cwd == Seq::<char>::empty() || cwd == seq!['/'] || cwd == seq!['.'],
{
    reveal_strlit("/");
    reveal_strlit(".");
    assert("/"@ =~= seq!['/']);
    assert("."@ =~= seq!['.']);
    if cwd.len() == 0 {
        assert(cwd =~= Seq::<char>::empty());
    }
}

/// A read of the history gives sixteen thousand bytes unless it asks for a number of them, and a
/// million at most.
pub proof fn history_is_bounded(n: usize)
    ensures
        scrollback_budget(None) == 16_000,
        n <= 1_000_000 ==> scrollback_budget(Some(n)) == n,
        n > 1_000_000 ==> scrollback_budget(Some(n)) == 1_000_000,
{
}

/// An action is the first with its name.
pub proof fn the_first_action_counts(actions: Seq<CustomAction>, name: Seq<char>)
    ensures
        action_index(actions, name) matches Some(i) ==> 0 <= i < actions.len() && actions[i].name@
            == name && (forall|j: int| 0 <= j < i ==> (#[trigger] actions[j]).name@ != name),
        action_index(actions, name) is None ==> (forall|j: int|
            0 <= j < actions.len() ==> (#[trigger] actions[j]).name@ != name),
    decreases actions.len(),
{
    if actions.len() > 0 && actions[0].name@ != name {
        let rest = actions.drop_first();
        the_first_action_counts(rest, name);
        assert forall|j: int| 0 < j < actions.len() implies actions[j] == rest[j - 1] by {}
    }
}

/// A new workspace has one tab, `tab-1` with the title `main`, and no pane; a new pane runs, with
/// nothing known of its agent.
pub proof fn new_records_are_bare(
    w: Workspace,
    p: Pane,
    id: Seq<char>,
    name: Seq<char>,
    cwd: Seq<char>,
    command: Seq<char>,
    kind: SurfaceKind,
    now: u64,
)
    requires
        is_new_workspace(w, id, name, cwd),
        is_new_pane(p, id, name, command, kind, now),
    ensures
        w.id@ == id && w.name@ == name && w.cwd@ == cwd && !w.pinned,
        w.tabs@.len() == 1 && w.tabs@[0].id@ == "tab-1"@ && w.tabs@[0].title@ == "main"@,
        opt_text(w.active_tab) == Some("tab-1"@),
        forall|pane: Seq<char>| !stands_on_a_tab(w, pane),
        p.id@ == id && p.title@ == name && p.command@ == command && p.surface_kind == kind,
        p.status == PaneStatus::Running && p.agent_status == AgentStatus::Unknown
            && !p.agent_status_pinned,
        p.updated_at == now && p.agent_status_at == now,
        p.exit_code is None && p.progress is None && p.pid is None,
        p.tabs@.len() == 0 && p.active_tab is None && p.metadata@.len() == 0,
{
}

} // verus!

//! What becomes of workspaces, tabs and panes when a session changes.
use crate::daemon::handlers::{
    broadcast_ids, capped_percent, holder_index, is_urgent, is_visible, jump_index, killed,
    last_where, metadata_value, named_pane, naming, pane_ids, resize_by, shown_count, tab_of_pane,
    tab_showing, workspace_index, zoom_toggled, Naming, Zoom, ZoomError,
};
use crate::daemon::navigate::{
    detached, detached_pane_is_nowhere, flushed_tabs, switched, tab_detached, without_id,
    workspace_pane_ids, workspace_tab_index, workspace_tab_index_is_first,
};
use crate::daemon::panes::{hits, holds_pane, lists, Label};
use crate::daemon::workspaces::{
    capped, exchanged, exited_ids, linked, moved, name_hits, pane_moved, panes_swapped,
    panes_without, selection, shower_of_both, shows_tab, tab_added, tab_closed, taken,
    workspace_closed, workspace_switched, Selection,
};
use crate::laws::restores::{all_tabs_are_read, stands_on_a_tab};
use crate::model::{
    pane_index_is_first, AgentStatus, BroadcastScope, NoteView, Pane, PaneStatus, Session,
    SplitDirection, Workspace, WorkspaceTab,
};
use crate::text::chars::{is_blank, opt_text, texts, trimmed};
use vstd::prelude::*;

verus! {

/// The place found for a workspace is the first one with the id.
pub proof fn first_workspace_counts(spaces: Seq<Workspace>, id: Seq<char>)
    ensures
        workspace_index(spaces, id) matches Some(i) ==> 0 <= i < spaces.len() && spaces[i].id@ == id
            && (forall|j: int| 0 <= j < i ==> (#[trigger] spaces[j]).id@ != id),
        workspace_index(spaces, id) is None ==> (forall|j: int|
            0 <= j < spaces.len() ==> (#[trigger] spaces[j]).id@ != id),
    decreases spaces.len(),
{
    if spaces.len() > 0 && spaces[0].id@ != id {
        let rest = spaces.drop_first();
        first_workspace_counts(rest, id);
        assert forall|j: int| 0 < j < spaces.len() implies spaces[j] == rest[j - 1] by {}
    }
}

/// A pane is looked for in the first workspace that has it on any of its tabs.
pub proof fn first_holder_counts(spaces: Seq<Workspace>, pane: Seq<char>)
    ensures
        holder_index(spaces, pane) matches Some(i) ==> 0 <= i < spaces.len() && stands_on_a_tab(
            spaces[i],
            pane,
        ) && (forall|j: int| 0 <= j < i ==> !stands_on_a_tab(#[trigger] spaces[j], pane)),
        holder_index(spaces, pane) is None ==> (forall|j: int|
            0 <= j < spaces.len() ==> !stands_on_a_tab(#[trigger] spaces[j], pane)),
    decreases spaces.len(),
{
    if spaces.len() > 0 {
        all_tabs_are_read(spaces[0], pane);
        if !holds_pane(spaces[0], pane) {
            let rest = spaces.drop_first();
            first_holder_counts(rest, pane);
            assert forall|j: int| 0 < j < spaces.len() implies spaces[j] == rest[j - 1] by {}
        }
    }
}

proof fn first_showing_tab(tabs: Seq<WorkspaceTab>, pane: Seq<char>)
    ensures
        tab_showing(tabs, pane) matches Some(i) ==> 0 <= i < tabs.len() && lists(
            tabs[i].panes@,
            pane,
        ) && (forall|j: int| 0 <= j < i ==> !lists((#[trigger] tabs[j]).panes@, pane)),
        tab_showing(tabs, pane) is None ==> (forall|j: int|
            0 <= j < tabs.len() ==> !lists((#[trigger] tabs[j]).panes@, pane)),
    decreases tabs.len(),
{
    if tabs.len() > 0 && !lists(tabs[0].panes@, pane) {
        let rest = tabs.drop_first();
        first_showing_tab(rest, pane);
        assert forall|j: int| 0 < j < tabs.len() implies tabs[j] == rest[j - 1] by {}
    }
}

/// The tab of a pane is the active one where that shows it, or else the first that does.
pub proof fn tab_of_a_pane_shows_it(w: Workspace, pane: Seq<char>)
    ensures
        (exists|k: int| 0 <= k < w.panes@.len() && (#[trigger] w.panes@[k])@ == pane)
            ==> tab_of_pane(w, pane) == opt_text(w.active_tab),
        (forall|k: int| 0 <= k < w.panes@.len() ==> (#[trigger] w.panes@[k])@ != pane) ==> (match tab_of_pane(w, pane) {
            Some(id) => exists|t: int, k: int|
                0 <= t < w.tabs@.len() && w.tabs@[t].id@ == id && 0 <= k < w.tabs@[t].panes@.len()
                    && (#[trigger] w.tabs@[t].panes@[k])@ == pane && (forall|s: int, j: int|
                    0 <= s < t && 0 <= j < w.tabs@[s].panes@.len() ==> (
                    #[trigger] w.tabs@[s].panes@[j])@ != pane),
            None => !stands_on_a_tab(w, pane),
        }),
{
    first_showing_tab(w.tabs@, pane);
    all_tabs_are_read(w, pane);
    if !lists(w.panes@, pane) {
        match tab_showing(w.tabs@, pane) {
            Some(t) => {
                let k = choose|k: int|
                    0 <= k < w.tabs@[t].panes@.len() && (#[trigger] w.tabs@[t].panes@[k])@ == pane;
                assert(w.tabs@[t].panes@[k]@ == pane);
                assert forall|s: int, j: int|
                    0 <= s < t && 0 <= j < w.tabs@[s].panes@.len() implies (
                #[trigger] w.tabs@[s].panes@[j])@ != pane by {
                    assert(!lists(w.tabs@[s].panes@, pane));
                }
            },
            None => {
                assert(!holds_pane(w, pane));
            },
        }
    }
}

proof fn hits_are_the_names(spaces: Seq<Workspace>, name: Seq<char>)
    ensures
        forall|k: int|
            0 <= k < name_hits(spaces, name).len() ==> 0 <= #[trigger] name_hits(spaces, name)[k]
                < spaces.len() && spaces[name_hits(spaces, name)[k]].name@ == name,
        forall|i: int|
            0 <= i < spaces.len() && (#[trigger] spaces[i]).name@ == name ==> name_hits(
                spaces,
                name,
            ).contains(i),
        name_hits(spaces, name).no_duplicates(),
    decreases spaces.len(),
{
    if spaces.len() > 0 {
        let shorter = spaces.drop_last();
        hits_are_the_names(shorter, name);
        let before = name_hits(shorter, name);
        let after = name_hits(spaces, name);
        assert forall|k: int| 0 <= k < before.len() implies spaces[#[trigger] before[k]]
            == shorter[before[k]] by {}
        if spaces.last().name@ == name {
            assert(after[before.len() as int] == spaces.len() - 1);
            assert forall|k: int| 0 <= k < before.len() implies after[k] == #[trigger] before[k] by {}
        }
        assert forall|i: int|
            0 <= i < spaces.len() && (#[trigger] spaces[i]).name@ == name implies after.contains(
            i,
        ) by {
            if i < shorter.len() {
                assert(shorter[i].name@ == name);
                let k = choose|k: int| 0 <= k < before.len() && before[k] == i;
                assert(after[k] == i);
            }
        }
    }
}

/// A selector names the workspace with it as its id; else the only one with it as its name; two
/// of a name are told apart by nobody. Without a selector the active one is meant.
pub proof fn selectors_name_workspaces(session: Session, s: Seq<char>, i: int)
    requires
        0 <= i < session.workspaces@.len(),
    ensures
        session.workspaces@[i].id@ == s && (forall|j: int|
            0 <= j < i ==> (#[trigger] session.workspaces@[j]).id@ != s) ==> selection(
            session,
            Some(s),
        ) == Selection::At(i),
        (forall|j: int|
            0 <= j < session.workspaces@.len() ==> (#[trigger] session.workspaces@[j]).id@ != s)
            && session.workspaces@[i].name@ == s && (forall|j: int|
            0 <= j < session.workspaces@.len() && j != i ==> (
            #[trigger] session.workspaces@[j]).name@ != s) ==> selection(session, Some(s))
            == Selection::At(i),
        (forall|j: int|
            0 <= j < session.workspaces@.len() ==> (#[trigger] session.workspaces@[j]).id@ != s
                && session.workspaces@[j].name@ != s) ==> selection(session, Some(s))
            == Selection::Unknown(s),
        (forall|j: int|
            0 <= j < session.workspaces@.len() ==> (#[trigger] session.workspaces@[j]).id@ != s)
            && session.workspaces@[i].name@ == s && (exists|j: int|
            0 <= j < session.workspaces@.len() && j != i && (
            #[trigger] session.workspaces@[j]).name@ == s) ==> selection(session, Some(s))
            == Selection::Ambiguous(s),
        session.workspaces@[i].id@ == session.active_workspace@ && (forall|j: int|
            0 <= j < i ==> (#[trigger] session.workspaces@[j]).id@ != session.active_workspace@)
            ==> selection(session, None) == Selection::At(i),
{
    let spaces = session.workspaces@;
    first_workspace_counts(spaces, s);
    first_workspace_counts(spaces, session.active_workspace@);
    hits_are_the_names(spaces, s);
    let found = name_hits(spaces, s);
    if spaces[i].name@ == s {
        let k = choose|k: int| 0 <= k < found.len() && found[k] == i;
        if exists|j: int| 0 <= j < spaces.len() && j != i && (#[trigger] spaces[j]).name@ == s {
            let j = choose|j: int| 0 <= j < spaces.len() && j != i && (#[trigger] spaces[j]).name@ == s;
            assert(found.contains(j));
            let m = choose|m: int| 0 <= m < found.len() && found[m] == j;
            assert(found.len() > 1);
        } else if found.len() > 1 {
            let m: int = if k == 0 { 1 } else { 0 };
            assert(found[m] != found[k]);
            assert(spaces[found[m]].name@ == s);
        }
    }
    if found.len() > 0 {
        assert(spaces[found[0]].name@ == s);
    }
}

/// Going to a workspace makes it the active one, and its finished turns, on whatever tab, are
/// seen; nothing of the workspaces changes.
pub proof fn going_to_a_workspace(before: Session, after: Session, w: int, now: u64, i: int)
    requires
        workspace_switched(before, after, w, now),
        0 <= w < before.workspaces@.len(),
        0 <= i < before.panes@.len(),
    ensures
        after.active_workspace@ == before.workspaces@[w].id@,
        after.workspaces == before.workspaces,
        after.panes@.len() == before.panes@.len(),
        stands_on_a_tab(before.workspaces@[w], before.panes@[i].id@)
            && before.panes@[i].agent_status == AgentStatus::Done ==> after.panes@[i].agent_status
            == AgentStatus::Idle,
        !stands_on_a_tab(before.workspaces@[w], before.panes@[i].id@)
            || before.panes@[i].agent_status != AgentStatus::Done ==> after.panes@[i]
            == before.panes@[i],
{
    all_tabs_are_read(before.workspaces@[w], before.panes@[i].id@);
}

/// A workspace that is moved stands at the position, or at the end where that lies beyond it; the
/// others keep their order.
pub proof fn moving_keeps_the_order(spaces: Seq<Workspace>, w: int, position: usize)
    requires
        0 <= w < spaces.len(),
    ensures
        moved(spaces, w, position).len() == spaces.len(),
        position < spaces.len() ==> moved(spaces, w, position)[position as int] == spaces[w]
            && moved(spaces, w, position).remove(position as int) == spaces.remove(w),
        position >= spaces.len() ==> moved(spaces, w, position).last() == spaces[w] && moved(
            spaces,
            w,
            position,
        ).drop_last() == spaces.remove(w),
        position == w ==> moved(spaces, w, position) == spaces,
{
    let rest = spaces.remove(w);
    if position < spaces.len() {
        assert(rest.insert(position as int, spaces[w]).remove(position as int) =~= rest);
        if position == w {
            assert(rest.insert(position as int, spaces[w]) =~= spaces);
        }
    } else {
        assert(rest.insert(spaces.len() - 1, spaces[w]).drop_last() =~= rest);
    }
}

proof fn kept_panes(panes: Seq<Pane>, ids: Seq<Seq<char>>)
    ensures
        panes_without(panes, ids) == panes.filter(|p: Pane| !ids.contains(p.id@)),
    decreases panes.len(),
{
    reveal(Seq::filter);
    if panes.len() > 0 {
        kept_panes(panes.drop_last(), ids);
    }
}

/// A workspace that is closed goes with the panes on all of its tabs, and with nothing else. Where
/// it was the active one, the next one is, or the last where there is no next.
pub proof fn closing_a_workspace(before: Session, after: Session, place: usize, w: int)
    requires
        workspace_closed(before, after, w),
        w == place,
        0 <= w < before.workspaces@.len(),
        before.workspaces@.len() > 1,
    ensures
        after.workspaces@ == before.workspaces@.remove(w),
        before.active_workspace@ != before.workspaces@[w].id@ ==> after.active_workspace@
            == before.active_workspace@,
        before.active_workspace@ == before.workspaces@[w].id@ && w + 1 < before.workspaces@.len()
            ==> after.active_workspace@ == before.workspaces@[w + 1].id@,
        before.active_workspace@ == before.workspaces@[w].id@ && w + 1 == before.workspaces@.len()
            ==> after.active_workspace@ == before.workspaces@[w - 1].id@,
        after.panes@ == before.panes@.filter(
            |p: Pane| !stands_on_a_tab(before.workspaces@[w], p.id@),
        ),
        after.notifications == before.notifications,
        after.events == before.events,
{
    let ids = workspace_pane_ids(before.workspaces@[w]);
    kept_panes(before.panes@, ids);
    assert forall|p: Pane| ids.contains(#[trigger] p.id@) <==> stands_on_a_tab(
        before.workspaces@[w],
        p.id@,
    ) by {
        all_tabs_are_read(before.workspaces@[w], p.id@);
    }
    let f = |p: Pane| !ids.contains(p.id@);
    let g = |p: Pane| !stands_on_a_tab(before.workspaces@[w], p.id@);
    assert(f =~= g);
}

proof fn without_is_filter(list: Seq<String>, id: Seq<char>)
    ensures
        without_id(list, id) == list.filter(|s: String| s@ != id),
    decreases list.len(),
{
    reveal(Seq::filter);
    if list.len() > 0 {
        without_is_filter(list.drop_last(), id);
    }
}

/// A pane that is taken out of a workspace leaves the list of every tab, and the others keep their
/// order. Where it was the active one the last that is left is, and it is zoomed no more.
pub proof fn taking_a_pane_out(before: Workspace, after: Workspace, id: Seq<char>)
    requires
        detached(before, after, id),
    ensures
        after.panes@ == before.panes@.filter(|s: String| s@ != id),
        opt_text(before.active_pane) != Some(id) ==> after.active_pane == before.active_pane,
        opt_text(before.active_pane) == Some(id) && after.panes@.len() > 0 ==> opt_text(
            after.active_pane,
        ) == Some(after.panes@.last()@),
        opt_text(before.active_pane) == Some(id) && after.panes@.len() == 0 ==> after.active_pane
            is None,
        opt_text(before.zoomed_pane) == Some(id) ==> after.zoomed_pane is None,
        opt_text(before.zoomed_pane) != Some(id) ==> after.zoomed_pane == before.zoomed_pane,
        after.tabs@.len() == before.tabs@.len(),
        forall|t: int|
            0 <= t < before.tabs@.len() ==> (#[trigger] after.tabs@[t]).panes@
                == before.tabs@[t].panes@.filter(|s: String| s@ != id) && after.tabs@[t].id
                == before.tabs@[t].id && after.tabs@[t].title == before.tabs@[t].title,
        after.id == before.id,
        after.name == before.name,
        after.active_tab == before.active_tab,
{
    without_is_filter(before.panes@, id);
    assert forall|t: int| 0 <= t < before.tabs@.len() implies (#[trigger] after.tabs@[t]).panes@
        == before.tabs@[t].panes@.filter(|s: String| s@ != id) && after.tabs@[t].id
        == before.tabs@[t].id && after.tabs@[t].title == before.tabs@[t].title by {
        without_is_filter(before.tabs@[t].panes@, id);
        assert(tab_detached(before.tabs@[t], after.tabs@[t], id));
    }
}

/// A pane that is moved is the last one and the active one of the workspace that it goes to, and
/// in no other workspace; its record stays as it is.
pub proof fn moving_a_pane(before: Session, after: Session, id: Seq<char>, w: int)
    requires
        pane_moved(before, after, id, w),
        0 <= w < before.workspaces@.len(),
    ensures
        after.workspaces@.len() == before.workspaces@.len(),
        after.workspaces@[w].panes@.len() > 0,
        after.workspaces@[w].panes@.last()@ == id,
        after.workspaces@[w].panes@.drop_last() == before.workspaces@[w].panes@.filter(
            |s: String| s@ != id,
        ),
        opt_text(after.workspaces@[w].active_pane) == Some(id),
        forall|i: int|
            0 <= i < before.workspaces@.len() && i != w ==> !stands_on_a_tab(
                #[trigger] after.workspaces@[i],
                id,
            ) && after.workspaces@[i].panes@ == before.workspaces@[i].panes@.filter(
                |s: String| s@ != id,
            ),
        after.panes == before.panes,
        after.active_workspace == before.active_workspace,
{
    let mid = choose|mid: Workspace| #[trigger]
        detached(before.workspaces@[w], mid, id) && linked(mid, after.workspaces@[w], id);
    taking_a_pane_out(before.workspaces@[w], mid, id);
    assert forall|i: int| 0 <= i < before.workspaces@.len() && i != w implies !stands_on_a_tab(
        #[trigger] after.workspaces@[i],
        id,
    ) && after.workspaces@[i].panes@ == before.workspaces@[i].panes@.filter(
        |s: String| s@ != id,
    ) by {
        detached_pane_is_nowhere(
            before.workspaces@[i],
            after.workspaces@[i],
            id,
        );
        all_tabs_are_read(after.workspaces@[i], id);
        taking_a_pane_out(before.workspaces@[i], after.workspaces@[i], id);
    }
}

/// Two panes that change places stand where the other stood, and no third pane moves. Doing it
/// twice changes nothing.
pub proof fn exchanging_panes(
    ids: Seq<String>,
    once: Seq<String>,
    a: Seq<char>,
    b: Seq<char>,
    i: int,
)
    requires
        texts(once) == exchanged(ids, a, b),
        0 <= i < ids.len(),
    ensures
        once.len() == ids.len(),
        ids[i]@ == a ==> once[i]@ == b,
        ids[i]@ == b ==> once[i]@ == a,
        ids[i]@ != a && ids[i]@ != b ==> once[i]@ == ids[i]@,
        exchanged(once, a, b) == texts(ids),
{
    assert(texts(once).len() == ids.len());
    assert(texts(once)[i] == once[i]@);
    assert(exchanged(once, a, b) =~= texts(ids)) by {
        assert forall|k: int| 0 <= k < ids.len() implies #[trigger] exchanged(once, a, b)[k]
            == texts(ids)[k] by {
            assert(texts(once)[k] == once[k]@);
        }
    }
}

/// Panes change places in the first workspace that shows both, and nowhere else.
pub proof fn exchanged_where_both_are_shown(
    before: Session,
    after: Session,
    a: Seq<char>,
    b: Seq<char>,
    r: Option<usize>,
    w: int,
)
    requires
        panes_swapped(before, after, a, b, r),
        0 <= w < before.workspaces@.len(),
        lists(before.workspaces@[w].panes@, a),
        lists(before.workspaces@[w].panes@, b),
        forall|j: int|
            0 <= j < w ==> !(lists((#[trigger] before.workspaces@[j]).panes@, a) && lists(
                before.workspaces@[j].panes@,
                b,
            )),
        w <= usize::MAX,
    ensures
        r == Some(w as usize),
        after.workspaces@.len() == before.workspaces@.len(),
        texts(after.workspaces@[w].panes@) == exchanged(before.workspaces@[w].panes@, a, b),
        forall|i: int|
            0 <= i < before.workspaces@.len() && i != w ==> #[trigger] after.workspaces@[i]
                == before.workspaces@[i],
        after.panes == before.panes,
{
    first_with_both(before.workspaces@, a, b, w);
}

proof fn first_with_both(spaces: Seq<Workspace>, a: Seq<char>, b: Seq<char>, w: int)
    requires
        0 <= w < spaces.len(),
        lists(spaces[w].panes@, a),
        lists(spaces[w].panes@, b),
        forall|j: int|
            0 <= j < w ==> !(lists((#[trigger] spaces[j]).panes@, a) && lists(
                spaces[j].panes@,
                b,
            )),
    ensures
        shower_of_both(spaces, a, b) == Some(w),
    decreases w,
{
    if w > 0 {
        let rest = spaces.drop_first();
        assert(rest[w - 1] == spaces[w]);
        assert(!(lists(spaces[0].panes@, a) && lists(spaces[0].panes@, b)));
        assert forall|j: int| 0 <= j < w - 1 implies !(lists((#[trigger] rest[j]).panes@, a)
            && lists(rest[j].panes@, b)) by {
            assert(rest[j] == spaces[j + 1]);
        }
        first_with_both(rest, a, b, w - 1);
    }
}

/// A pane that is killed has exited and is done, without a banner, and keeps who it was; its record
/// leaves the session and no other does.
pub proof fn killing_a_pane(
    before: Pane,
    after: Pane,
    output: Option<Seq<char>>,
    now: u64,
)
    requires
        killed(before, after, output, now),
    ensures
        after.status == PaneStatus::Exited,
        after.agent_status == AgentStatus::Done,
        after.agent_status_pinned,
        after.agent_status_at == now,
        after.updated_at == now,
        after.notification_message is None,
        after.notification_color is None,
        after.id == before.id,
        after.title == before.title,
        after.command == before.command,
        after.exit_code == before.exit_code,
        output is None ==> after.output == before.output && after.scrollback == before.scrollback,
        output is Some ==> after.output@ == after.scrollback@ && after.output_formatted@.len() == 0
            && after.scrollback_formatted@.len() == 0,
{
}

/// The panes that are pruned are those that have exited, in their order: out of the scope that is
/// given, or out of all.
pub proof fn pruning_takes_the_exited(panes: Seq<Pane>, scope: Option<Seq<Seq<char>>>)
    ensures
        scope is None ==> exited_ids(panes, scope) == pane_ids(
            panes.filter(|p: Pane| p.status == PaneStatus::Exited),
        ),
        scope is Some ==> exited_ids(panes, scope) == pane_ids(
            panes.filter(|p: Pane| p.status == PaneStatus::Exited && scope->0.contains(p.id@)),
        ),
    decreases panes.len(),
{
    reveal(Seq::filter);
    if panes.len() > 0 {
        pruning_takes_the_exited(panes.drop_last(), scope);
        let all = |p: Pane| p.status == PaneStatus::Exited;
        let some = |p: Pane| p.status == PaneStatus::Exited && scope->0.contains(p.id@);
        let short = panes.drop_last();
        assert(pane_ids(short.filter(all).push(panes.last())) =~= pane_ids(short.filter(all)).push(
            panes.last().id@,
        ));
        assert(pane_ids(short.filter(some).push(panes.last())) =~= pane_ids(
            short.filter(some),
        ).push(panes.last().id@));
    } else {
        assert(exited_ids(panes, scope) =~= Seq::empty());
        assert(pane_ids(Seq::<Pane>::empty()) =~= Seq::<Seq<char>>::empty());
        assert(panes =~= Seq::<Pane>::empty());
    }
}

/// A tab that is added is shown, is empty and has the title; what was shown before is kept in the
/// record of the tab that was active.
pub proof fn adding_a_tab(before: Workspace, after: Workspace, title: Seq<char>, t: int)
    requires
        tab_added(before, after, title),
        0 <= t < before.tabs@.len(),
    ensures
        after.tabs@.len() == before.tabs@.len() + 1,
        after.tabs@.last().title@ == title,
        after.tabs@.last().panes@.len() == 0,
        opt_text(after.active_tab) == Some(after.tabs@.last().id@),
        after.panes@.len() == 0,
        after.active_pane is None,
        after.zoomed_pane is None,
        after.id == before.id,
        after.name == before.name,
        opt_text(before.active_tab) == Some(before.tabs@[t].id@) && (forall|j: int|
            0 <= j < t ==> (#[trigger] before.tabs@[j]).id@ != before.tabs@[t].id@)
            ==> after.tabs@[t].panes@ == before.panes@ && after.tabs@[t].active_pane
            == before.active_pane && after.tabs@[t].zoomed_pane == before.zoomed_pane
            && after.tabs@[t].id == before.tabs@[t].id,
        opt_text(before.active_tab) != Some(before.tabs@[t].id@) ==> after.tabs@[t]
            == before.tabs@[t],
{
    flushing_keeps_others(before, after.tabs@.drop_last(), t);
    assert(after.tabs@.drop_last()[t] == after.tabs@[t]);
}

proof fn flushing_keeps_others(w: Workspace, after: Seq<WorkspaceTab>, t: int)
    requires
        flushed_tabs(w, after),
        0 <= t < w.tabs@.len(),
    ensures
        after.len() == w.tabs@.len(),
        after[t].id == w.tabs@[t].id,
        after[t].title == w.tabs@[t].title,
        opt_text(w.active_tab) == Some(w.tabs@[t].id@) && (forall|j: int|
            0 <= j < t ==> (#[trigger] w.tabs@[j]).id@ != w.tabs@[t].id@) ==> after[t].panes@
            == w.panes@ && after[t].active_pane == w.active_pane && after[t].zoomed_pane
            == w.zoomed_pane,
        opt_text(w.active_tab) != Some(w.tabs@[t].id@) ==> after[t] == w.tabs@[t],
{
    match opt_text(w.active_tab) {
        Some(id) => {
            workspace_tab_index_is_first(w.tabs@, id);
            match workspace_tab_index(w.tabs@, id) {
                Some(i) => {
                    if opt_text(w.active_tab) == Some(w.tabs@[t].id@) && (forall|j: int|
                        0 <= j < t ==> (#[trigger] w.tabs@[j]).id@ != w.tabs@[t].id@) {
                        if i < t {
                            assert(w.tabs@[i].id@ != w.tabs@[t].id@);
                        }
                        assert(i == t);
                    }
                },
                None => {},
            }
        },
        None => {},
    }
}

/// Going to a tab shows what its record holds and keeps what was shown in the record of the tab
/// that was active; no third tab changes.
pub proof fn going_to_a_tab(
    before: Workspace,
    after: Workspace,
    id: Seq<char>,
    from: int,
    to: int,
)
    requires
        switched(before, after, id),
        0 <= from < before.tabs@.len(),
        0 <= to < before.tabs@.len(),
        from != to,
        opt_text(before.active_tab) == Some(before.tabs@[from].id@),
        before.tabs@[to].id@ == id,
        forall|i: int, j: int|
            0 <= i < j < before.tabs@.len() ==> (#[trigger] before.tabs@[i]).id@ != (
            #[trigger] before.tabs@[j]).id@,
    ensures
        opt_text(after.active_tab) == Some(id),
        after.panes@ == before.tabs@[to].panes@,
        after.active_pane == before.tabs@[to].active_pane,
        after.zoomed_pane == before.tabs@[to].zoomed_pane,
        after.tabs@.len() == before.tabs@.len(),
        after.tabs@[from].panes@ == before.panes@,
        after.tabs@[from].active_pane == before.active_pane,
        after.tabs@[from].zoomed_pane == before.zoomed_pane,
        forall|i: int|
            0 <= i < before.tabs@.len() && i != from ==> #[trigger] after.tabs@[i]
                == before.tabs@[i],
        after.id == before.id,
        after.name == before.name,
{
    workspace_tab_index_is_first(before.tabs@, id);
    workspace_tab_index_is_first(before.tabs@, before.tabs@[from].id@);
    flushing_keeps_others(before, after.tabs@, from);
    assert(workspace_tab_index(before.tabs@, id) == Some(to));
    assert(workspace_tab_index(before.tabs@, before.tabs@[from].id@) == Some(from));
}

/// A tab that is closed goes with its panes. Where it was shown, the next one is, or the one before
/// it where there is no next; where it was not, nothing that is shown changes.
pub proof fn closing_a_tab(
    before: Workspace,
    after: Workspace,
    place: usize,
    i: int,
    gone: Seq<String>,
)
    requires
        tab_closed(before, after, i, gone),
        i == place,
        0 <= i < before.tabs@.len(),
        before.tabs@.len() > 1,
        forall|a: int, b: int|
            0 <= a < b < before.tabs@.len() ==> (#[trigger] before.tabs@[a]).id@ != (
            #[trigger] before.tabs@[b]).id@,
    ensures
        after.tabs@.len() == before.tabs@.len() - 1,
        forall|t: int| 0 <= t < i ==> (#[trigger] after.tabs@[t]).id == before.tabs@[t].id,
        forall|t: int|
            i <= t < after.tabs@.len() ==> (#[trigger] after.tabs@[t]).id == before.tabs@[t + 1].id,
        opt_text(before.active_tab) == Some(before.tabs@[i].id@) ==> gone == before.panes@,
        opt_text(before.active_tab) != Some(before.tabs@[i].id@) ==> {
            &&& gone == before.tabs@[i].panes@
            &&& after.panes == before.panes
            &&& after.active_tab == before.active_tab
            &&& after.active_pane == before.active_pane
            &&& after.zoomed_pane == before.zoomed_pane
        },
        opt_text(before.active_tab) == Some(before.tabs@[i].id@) && i + 1 < before.tabs@.len() ==> {
            &&& opt_text(after.active_tab) == Some(before.tabs@[i + 1].id@)
            &&& after.panes@ == before.tabs@[i + 1].panes@
            &&& after.active_pane == before.tabs@[i + 1].active_pane
        },
        opt_text(before.active_tab) == Some(before.tabs@[i].id@) && i + 1 == before.tabs@.len()
            ==> {
            &&& opt_text(after.active_tab) == Some(before.tabs@[i - 1].id@)
            &&& after.panes@ == before.tabs@[i - 1].panes@
            &&& after.active_pane == before.tabs@[i - 1].active_pane
        },
{
    let flushed = choose|flushed: Seq<WorkspaceTab>| #[trigger]
        flushed_tabs(before, flushed) && after.tabs@ == flushed.remove(i) && gone
            == flushed[i].panes@ && if opt_text(before.active_tab) == Some(before.tabs@[i].id@) {
            &&& shows_tab(
                after,
                after.tabs@[capped(i as usize, after.tabs@.len() - 1)],
            )
            &&& after == Workspace {
                tabs: after.tabs,
                panes: after.panes,
                active_pane: after.active_pane,
                zoomed_pane: after.zoomed_pane,
                active_tab: after.active_tab,
                ..before
            }
        } else {
            after == Workspace { tabs: after.tabs, ..before }
        };
    assert forall|t: int| 0 <= t < before.tabs@.len() implies (#[trigger] flushed[t]).id
        == before.tabs@[t].id by {
        flushing_keeps_others(before, flushed, t);
    }
    flushing_keeps_others(before, flushed, i);
    if i + 1 < before.tabs@.len() {
        flushing_keeps_others(before, flushed, i + 1);
    }
    if i > 0 {
        flushing_keeps_others(before, flushed, i - 1);
    }
}

/// Zooming a pane that is shown makes it the zoomed and the active one; doing it again takes the
/// zoom back. A pane that is not shown is not zoomed.
pub proof fn zooming(
    before: Workspace,
    after: Workspace,
    pane: Option<Seq<char>>,
    id: Seq<char>,
    r: Result<Zoom, ZoomError>,
)
    requires
        zoom_toggled(before, after, pane, r),
        pane == Some(id) || (pane is None && opt_text(before.active_pane) == Some(id)),
    ensures
        !(exists|k: int| 0 <= k < before.panes@.len() && (#[trigger] before.panes@[k])@ == id) ==> r
            is Err && after == before,
        (exists|k: int| 0 <= k < before.panes@.len() && (#[trigger] before.panes@[k])@ == id) && (
        before.zoomed_pane is None || opt_text(before.zoomed_pane) != Some(id)) ==> {
            &&& opt_text(after.zoomed_pane) == Some(id)
            &&& opt_text(after.active_pane) == Some(id)
            &&& r matches Ok(z) && z.zoomed && z.pane@ == id
        },
        (exists|k: int| 0 <= k < before.panes@.len() && (#[trigger] before.panes@[k])@ == id)
            && opt_text(before.zoomed_pane) == Some(id) ==> {
            &&& after.zoomed_pane is None
            &&& after.active_pane == before.active_pane
            &&& r matches Ok(z) && !z.zoomed && z.pane@ == id
        },
        after.panes == before.panes,
        after.tabs == before.tabs,
{
}

proof fn last_where_is(feed: Seq<NoteView>, p: spec_fn(NoteView) -> bool)
    ensures
        last_where(feed, p) matches Some(i) ==> 0 <= i < feed.len() && p(feed[i]) && (forall|j: int|
            i < j < feed.len() ==> !p(#[trigger] feed[j])),
        last_where(feed, p) is None ==> (forall|j: int|
            0 <= j < feed.len() ==> !p(#[trigger] feed[j])),
    decreases feed.len(),
{
    if feed.len() > 0 {
        assert(feed[feed.len() - 1] == feed.last());
        if !p(feed.last()) {
            let shorter = feed.drop_last();
            last_where_is(shorter, p);
            assert forall|j: int| 0 <= j < shorter.len() implies shorter[j] == feed[j] by {}
        }
    }
}

/// A note that says something and wants its user: it asks for attention, tells of an error, or
/// gives no status.
pub open spec fn calls_the_user(n: NoteView) -> bool {
    !n.clear && n.message.len() > 0 && (n.status is None || n.status == Some("attention"@)
        || n.status == Some("error"@))
}

/// A jump goes to the newest note that wants its user; where there is none, to the newest that says
/// something; and nowhere where none does.
pub proof fn jumps_go_to_the_newest_call(feed: Seq<NoteView>, i: int)
    requires
        0 <= i < feed.len(),
    ensures
        calls_the_user(feed[i]) && (forall|j: int|
            i < j < feed.len() ==> !calls_the_user(#[trigger] feed[j])) ==> jump_index(feed)
            == Some(i),
        (forall|j: int| 0 <= j < feed.len() ==> !calls_the_user(#[trigger] feed[j]))
            && !feed[i].clear && feed[i].message.len() > 0 && (forall|j: int|
            i < j < feed.len() ==> (#[trigger] feed[j]).clear || feed[j].message.len() == 0)
            ==> jump_index(feed) == Some(i),
        (forall|j: int|
            0 <= j < feed.len() ==> (#[trigger] feed[j]).clear || feed[j].message.len() == 0)
            ==> jump_index(feed) is None,
{
    let urgent = |n: NoteView| is_urgent(n);
    let visible = |n: NoteView| is_visible(n);
    last_where_is(feed, urgent);
    last_where_is(feed, visible);
    assert forall|j: int| 0 <= j < feed.len() implies urgent(#[trigger] feed[j])
        == calls_the_user(feed[j]) by {}
    match last_where(feed, urgent) {
        Some(k) => {
            assert(calls_the_user(feed[k]));
            if calls_the_user(feed[i]) && k != i {
                assert(urgent(feed[i]));
                assert(k > i);
            }
        },
        None => {
            assert(!urgent(feed[i]));
            match last_where(feed, visible) {
                Some(k) => {
                    assert(visible(feed[k]));
                    if visible(feed[i]) {
                        assert(k >= i);
                    }
                },
                None => {
                    assert(!visible(feed[i]));
                },
            }
        },
    }
}

/// A broadcast to the workspace reaches the panes that the active workspace shows, in their order;
/// one to the session reaches every pane.
pub proof fn broadcasts_reach(session: Session, w: int, i: int)
    requires
        0 <= w < session.workspaces@.len(),
        session.workspaces@[w].id@ == session.active_workspace@,
        forall|j: int|
            0 <= j < w ==> (#[trigger] session.workspaces@[j]).id@ != session.active_workspace@,
        0 <= i < session.panes@.len(),
    ensures
        broadcast_ids(session, BroadcastScope::Workspace) == texts(session.workspaces@[w].panes@),
        broadcast_ids(session, BroadcastScope::Session).len() == session.panes@.len(),
        broadcast_ids(session, BroadcastScope::Session)[i] == session.panes@[i].id@,
{
    first_workspace_counts(session.workspaces@, session.active_workspace@);
}

/// A request that names no pane means the active pane of the active workspace; one that names a
/// pane means that pane, without the white space around the name.
pub proof fn requests_name_panes(session: Session, pane: Option<Seq<char>>, w: int)
    requires
        0 <= w < session.workspaces@.len(),
        session.workspaces@[w].id@ == session.active_workspace@,
        forall|j: int|
            0 <= j < w ==> (#[trigger] session.workspaces@[j]).id@ != session.active_workspace@,
    ensures
        (pane is None || is_blank(pane->0)) && session.workspaces@[w].active_pane is None ==> naming(
            session,
            pane,
        ) == Naming::NoActive,
        pane is None || is_blank(pane->0) ==> named_pane(session, pane) == opt_text(
            session.workspaces@[w].active_pane,
        ),
        pane is Some && !is_blank(pane->0) ==> named_pane(session, pane) == Some(trimmed(pane->0)),
        forall|i: int|
            0 <= i < session.panes@.len() && named_pane(session, pane) == Some(
                (#[trigger] session.panes@[i]).id@,
            ) ==> naming(session, pane) == Naming::Pane(session.panes@[i].id@),
        named_pane(session, pane) is Some && (forall|i: int|
            0 <= i < session.panes@.len() ==> (#[trigger] session.panes@[i]).id@ != named_pane(
                session,
                pane,
            )->0) ==> naming(session, pane) == Naming::Unknown(named_pane(session, pane)->0),
{
    first_workspace_counts(session.workspaces@, session.active_workspace@);
    match named_pane(session, pane) {
        Some(id) => {
            pane_index_is_first(session.panes@, id);
        },
        None => {},
    }
}

/// A resize goes on to the right and down, and back to the left and up, by fifty at most.
pub proof fn resizes_go_both_ways(amount: u16)
    ensures
        amount <= 50 ==> resize_by(SplitDirection::Right, amount) == amount && resize_by(
            SplitDirection::Down,
            amount,
        ) == amount && resize_by(SplitDirection::Left, amount) == -amount && resize_by(
            SplitDirection::Up,
            amount,
        ) == -amount,
        amount > 50 ==> resize_by(SplitDirection::Right, amount) == 50 && resize_by(
            SplitDirection::Down,
            amount,
        ) == 50 && resize_by(SplitDirection::Left, amount) == -50 && resize_by(
            SplitDirection::Up,
            amount,
        ) == -50,
{
}

/// Progress is a percentage of a hundred at most; a value of metadata has no white space around it
/// and is none where nothing is left.
pub proof fn values_are_bounded(percent: u8, value: Seq<char>)
    ensures
        percent <= 100 ==> capped_percent(Some(percent)) == Some(percent),
        percent > 100 ==> capped_percent(Some(percent)) == Some(100u8),
        capped_percent(None) is None,
        is_blank(value) ==> metadata_value(Some(value)) is None,
        !is_blank(value) ==> metadata_value(Some(value)) == Some(trimmed(value)),
        metadata_value(None) is None,
{
}

/// As many entries are shown as are asked for, but at least one and at most so many, where there
/// are so many.
pub proof fn entries_are_shown(len: nat, limit: usize, max: usize)
    requires
        max >= 1,
    ensures
        shown_count(len, limit, max) <= len,
        shown_count(len, limit, max) <= max,
        1 <= limit <= max && limit <= len ==> shown_count(len, limit, max) == limit,
        limit == 0 && len >= 1 ==> shown_count(len, limit, max) == 1,
        limit > max && len >= max ==> shown_count(len, limit, max) == max,
        limit >= len && len <= max && len >= 1 ==> shown_count(len, limit, max) == len,
{
}

/// A tab of a pane or a workspace is named by its id or its title, where no other has either.
pub proof fn labels_name_tabs(labels: Seq<Label>, selector: Seq<char>, i: int)
    requires
        0 <= i < labels.len(),
    ensures
        (labels[i].id == selector || labels[i].title == selector) && (forall|j: int|
            0 <= j < labels.len() && j != i ==> (#[trigger] labels[j]).id != selector
                && labels[j].title != selector) ==> hits(labels, selector) == seq![i],
        (forall|j: int|
            0 <= j < labels.len() ==> (#[trigger] labels[j]).id != selector && labels[j].title
                != selector) ==> hits(labels, selector).len() == 0,
        (labels[i].id == selector || labels[i].title == selector) && (exists|j: int|
            0 <= j < labels.len() && j != i && ((#[trigger] labels[j]).id == selector
                || labels[j].title == selector)) ==> hits(labels, selector).len() > 1,
{
    label_hits(labels, selector);
    let found = hits(labels, selector);
    if labels[i].id == selector || labels[i].title == selector {
        assert(found.contains(i));
        let k = choose|k: int| 0 <= k < found.len() && found[k] == i;
        if exists|j: int|
            0 <= j < labels.len() && j != i && ((#[trigger] labels[j]).id == selector
                || labels[j].title == selector) {
            let j = choose|j: int|
                0 <= j < labels.len() && j != i && ((#[trigger] labels[j]).id == selector
                    || labels[j].title == selector);
            assert(found.contains(j));
            let m = choose|m: int| 0 <= m < found.len() && found[m] == j;
        } else {
            if found.len() > 1 {
                let m: int = if k == 0 { 1 } else { 0 };
                assert(found[m] != found[k]);
                assert(labels[found[m]].id == selector || labels[found[m]].title == selector);
            }
            assert(found =~= seq![i]);
        }
    }
    if found.len() > 0 {
        assert(labels[found[0]].id == selector || labels[found[0]].title == selector);
    }
}

proof fn label_hits(labels: Seq<Label>, selector: Seq<char>)
    ensures
        forall|k: int|
            0 <= k < hits(labels, selector).len() ==> 0 <= #[trigger] hits(labels, selector)[k]
                < labels.len() && (labels[hits(labels, selector)[k]].id == selector || labels[hits(
                labels,
                selector,
            )[k]].title == selector),
        forall|i: int|
            0 <= i < labels.len() && ((#[trigger] labels[i]).id == selector || labels[i].title
                == selector) ==> hits(labels, selector).contains(i),
        hits(labels, selector).no_duplicates(),
    decreases labels.len(),
{
    if labels.len() > 0 {
        let shorter = labels.drop_last();
        label_hits(shorter, selector);
        let before = hits(shorter, selector);
        let after = hits(labels, selector);
        assert forall|k: int| 0 <= k < before.len() implies labels[#[trigger] before[k]]
            == shorter[before[k]] by {}
        assert(labels[labels.len() - 1] == labels.last());
        if labels.last().id == selector || labels.last().title == selector {
            assert(after[before.len() as int] == labels.len() - 1);
            assert forall|k: int| 0 <= k < before.len() implies after[k] == #[trigger] before[k] by {}
        }
        assert forall|i: int|
            0 <= i < labels.len() && ((#[trigger] labels[i]).id == selector || labels[i].title
                == selector) implies after.contains(i) by {
            if i < shorter.len() {
                assert(shorter[i] == labels[i]);
                assert(before.contains(i));
                let k = choose|k: int| 0 <= k < before.len() && before[k] == i;
                assert(after[k] == i);
            }
        }
    }
}

} // verus!

//! Which panes run again when a session is read back.
use crate::daemon::navigate::{joined_ids, tab_ids, workspace_pane_ids};
use crate::daemon::panes::{holds_pane, lists};
use crate::daemon::plans::{
    restorable, restore_list, restore_targets, target_views, waits_for_restore, RestoreTarget,
};
use crate::model::{pane_index_is_first, Pane, PaneStatus, Session, Workspace, WorkspaceTab};
use vstd::prelude::*;

verus! {

/// The pane stands on the tab that is shown, or on any other tab of the workspace.
pub open spec fn stands_on_a_tab(w: Workspace, id: Seq<char>) -> bool {
    ||| exists|k: int| 0 <= k < w.panes@.len() && (#[trigger] w.panes@[k])@ == id
    ||| exists|t: int, k: int|
        0 <= t < w.tabs@.len() && 0 <= k < w.tabs@[t].panes@.len() && (
        #[trigger] w.tabs@[t].panes@[k])@ == id
}

/// The pane was read back and has not run since.
pub open spec fn was_read_back(panes: Seq<Pane>, id: Seq<char>) -> bool {
    exists|i: int|
        0 <= i < panes.len() && (#[trigger] panes[i]).id@ == id && panes[i].status
            == PaneStatus::Restored && (forall|j: int|
            0 <= j < i ==> (#[trigger] panes[j]).id@ != id)
}

proof fn joined_holds_both(known: Seq<Seq<char>>, ids: Seq<String>, id: Seq<char>)
    ensures
        joined_ids(known, ids).contains(id) <==> known.contains(id) || exists|k: int|
            0 <= k < ids.len() && (#[trigger] ids[k])@ == id,
        known.no_duplicates() ==> joined_ids(known, ids).no_duplicates(),
    decreases ids.len(),
{
    if ids.len() > 0 {
        let shorter = ids.drop_last();
        joined_holds_both(known, shorter, id);
        let before = joined_ids(known, shorter);
        let after = joined_ids(known, ids);
        let last = ids.last()@;
        if exists|k: int| 0 <= k < ids.len() && (#[trigger] ids[k])@ == id {
            let k = choose|k: int| 0 <= k < ids.len() && (#[trigger] ids[k])@ == id;
            if k < shorter.len() {
                assert(shorter[k]@ == id);
            }
        }
        if exists|k: int| 0 <= k < shorter.len() && (#[trigger] shorter[k])@ == id {
            let k = choose|k: int| 0 <= k < shorter.len() && (#[trigger] shorter[k])@ == id;
            assert(ids[k]@ == id);
        }
        assert(ids[ids.len() - 1]@ == last);
        if !before.contains(last) {
            assert(after =~= before.push(last));
            assert(after[before.len() as int] == last);
            if before.contains(id) {
                let k = choose|k: int| 0 <= k < before.len() && before[k] == id;
                assert(after[k] == id);
            }
            if after.contains(id) && id != last {
                let k = choose|k: int| 0 <= k < after.len() && after[k] == id;
                assert(before[k] == id);
            }
        }
    }
}

proof fn tabs_hold_both(known: Seq<Seq<char>>, tabs: Seq<WorkspaceTab>, id: Seq<char>)
    ensures
        tab_ids(known, tabs).contains(id) <==> known.contains(id) || exists|t: int, k: int|
            0 <= t < tabs.len() && 0 <= k < tabs[t].panes@.len() && (
            #[trigger] tabs[t].panes@[k])@ == id,
        known.no_duplicates() ==> tab_ids(known, tabs).no_duplicates(),
    decreases tabs.len(),
{
    if tabs.len() > 0 {
        let shorter = tabs.drop_last();
        tabs_hold_both(known, shorter, id);
        joined_holds_both(tab_ids(known, shorter), tabs.last().panes@, id);
        if exists|t: int, k: int|
            0 <= t < tabs.len() && 0 <= k < tabs[t].panes@.len() && (
            #[trigger] tabs[t].panes@[k])@ == id {
            let (t, k) = choose|t: int, k: int|
                0 <= t < tabs.len() && 0 <= k < tabs[t].panes@.len() && (
                #[trigger] tabs[t].panes@[k])@ == id;
            if t < shorter.len() {
                assert(shorter[t].panes@[k]@ == id);
            }
        }
        if exists|t: int, k: int|
            0 <= t < shorter.len() && 0 <= k < shorter[t].panes@.len() && (
            #[trigger] shorter[t].panes@[k])@ == id {
            let (t, k) = choose|t: int, k: int|
                0 <= t < shorter.len() && 0 <= k < shorter[t].panes@.len() && (
                #[trigger] shorter[t].panes@[k])@ == id;
            assert(tabs[t].panes@[k]@ == id);
        }
        if exists|k: int|
            0 <= k < tabs.last().panes@.len() && (#[trigger] tabs.last().panes@[k])@ == id {
            let k = choose|k: int|
                0 <= k < tabs.last().panes@.len() && (#[trigger] tabs.last().panes@[k])@ == id;
            assert(tabs[tabs.len() - 1].panes@[k]@ == id);
        }
    }
}

/// The panes of a workspace are those on any of its tabs, and each is named once.
pub proof fn all_tabs_are_read(w: Workspace, id: Seq<char>)
    ensures
        workspace_pane_ids(w).contains(id) <==> stands_on_a_tab(w, id),
        workspace_pane_ids(w).no_duplicates(),
        holds_pane(w, id) <==> stands_on_a_tab(w, id),
{
    let none = Seq::<Seq<char>>::empty();
    joined_holds_both(none, w.panes@, id);
    tabs_hold_both(joined_ids(none, w.panes@), w.tabs@, id);
    if holds_pane(w, id) && !lists(w.panes@, id) {
        let t = choose|t: int|
            0 <= t < w.tabs@.len() && lists((#[trigger] w.tabs@[t]).panes@, id);
        let k = choose|k: int|
            0 <= k < w.tabs@[t].panes@.len() && (#[trigger] w.tabs@[t].panes@[k])@ == id;
        assert(w.tabs@[t].panes@[k]@ == id);
    }
    if exists|t: int, k: int|
        0 <= t < w.tabs@.len() && 0 <= k < w.tabs@[t].panes@.len() && (
        #[trigger] w.tabs@[t].panes@[k])@ == id {
        let (t, k) = choose|t: int, k: int|
            0 <= t < w.tabs@.len() && 0 <= k < w.tabs@[t].panes@.len() && (
            #[trigger] w.tabs@[t].panes@[k])@ == id;
        assert(lists(w.tabs@[t].panes@, id));
    }
}

proof fn first_of_the_id(panes: Seq<Pane>, id: Seq<char>)
    ensures
        waits_for_restore(panes, id) <==> was_read_back(panes, id),
{
    pane_index_is_first(panes, id);
}

proof fn restorable_are(panes: Seq<Pane>, ids: Seq<Seq<char>>, w: int, id: Seq<char>, v: int)
    ensures
        restorable(panes, ids, w).contains((id, v)) <==> v == w && ids.contains(id)
            && waits_for_restore(panes, id),
        ids.no_duplicates() ==> restorable(panes, ids, w).no_duplicates(),
    decreases ids.len(),
{
    if ids.len() > 0 {
        let shorter = ids.drop_last();
        restorable_are(panes, shorter, w, id, v);
        restorable_are(panes, shorter, w, ids.last(), w);
        let before = restorable(panes, shorter, w);
        let after = restorable(panes, ids, w);
        if ids.contains(id) {
            let k = choose|k: int| 0 <= k < ids.len() && ids[k] == id;
            if k < shorter.len() {
                assert(shorter[k] == id);
            }
        }
        if shorter.contains(id) {
            let k = choose|k: int| 0 <= k < shorter.len() && shorter[k] == id;
            assert(ids[k] == id);
        }
        assert(ids[ids.len() - 1] == ids.last());
        if waits_for_restore(panes, ids.last()) {
            assert(after[before.len() as int] == (ids.last(), w));
            if before.contains((id, v)) {
                let k = choose|k: int| 0 <= k < before.len() && before[k] == (id, v);
                assert(after[k] == (id, v));
            }
            if after.contains((id, v)) && (id, v) != (ids.last(), w) {
                let k = choose|k: int| 0 <= k < after.len() && after[k] == (id, v);
                assert(before[k] == (id, v));
            }
        }
        if ids.no_duplicates() {
            assert(shorter.no_duplicates()) by {
                assert forall|i: int, j: int|
                    0 <= i < shorter.len() && 0 <= j < shorter.len() && i != j implies shorter[i]
                    != shorter[j] by {
                    assert(ids[i] != ids[j]);
                }
            }
            if shorter.contains(ids.last()) {
                let k = choose|k: int| 0 <= k < shorter.len() && shorter[k] == ids.last();
                assert(ids[k] == ids[ids.len() - 1]);
            }
        }
    }
}

proof fn restore_list_is(session: Session, n: int, id: Seq<char>, w: int)
    requires
        n <= session.workspaces@.len(),
    ensures
        restore_list(session, n).contains((id, w)) <==> 0 <= w < n && stands_on_a_tab(
            session.workspaces@[w],
            id,
        ) && was_read_back(session.panes@, id),
        restore_list(session, n).no_duplicates(),
    decreases n,
{
    if n > 0 {
        let before = restore_list(session, n - 1);
        let ids = workspace_pane_ids(session.workspaces@[n - 1]);
        let more = restorable(session.panes@, ids, n - 1);
        let after = restore_list(session, n);
        assert(after == before + more);
        restore_list_is(session, n - 1, id, w);
        all_tabs_are_read(session.workspaces@[n - 1], id);
        restorable_are(session.panes@, ids, n - 1, id, w);
        first_of_the_id(session.panes@, id);
        if before.contains((id, w)) {
            let k = choose|k: int| 0 <= k < before.len() && before[k] == (id, w);
            assert(after[k] == (id, w));
        }
        if more.contains((id, w)) {
            let k = choose|k: int| 0 <= k < more.len() && more[k] == (id, w);
            assert(after[before.len() + k] == (id, w));
        }
        if after.contains((id, w)) {
            let k = choose|k: int| 0 <= k < after.len() && after[k] == (id, w);
            if k < before.len() {
                assert(before[k] == (id, w));
            } else {
                assert(more[k - before.len()] == (id, w));
            }
        }
        assert forall|i: int, j: int|
            0 <= i < after.len() && 0 <= j < after.len() && i != j implies after[i] != after[j] by {
            if i < before.len() && j >= before.len() {
                restore_list_is(session, n - 1, before[i].0, before[i].1);
                restorable_are(
                    session.panes@,
                    ids,
                    n - 1,
                    more[j - before.len()].0,
                    more[j - before.len()].1,
                );
                assert(before.contains(before[i]));
                assert(more.contains(more[j - before.len()]));
                assert(before[i] == (before[i].0, before[i].1));
                assert(more[j - before.len()] == (more[j - before.len()].0, more[j
                    - before.len()].1));
            }
            if j < before.len() && i >= before.len() {
                restore_list_is(session, n - 1, before[j].0, before[j].1);
                restorable_are(
                    session.panes@,
                    ids,
                    n - 1,
                    more[i - before.len()].0,
                    more[i - before.len()].1,
                );
                assert(before.contains(before[j]));
                assert(more.contains(more[i - before.len()]));
                assert(before[j] == (before[j].0, before[j].1));
                assert(more[i - before.len()] == (more[i - before.len()].0, more[i
                    - before.len()].1));
            }
        }
    }
}

/// Every pane that was read back runs again, on whatever tab of whatever workspace it stands,
/// once for each workspace that holds it; and no other pane does.
pub proof fn every_tab_is_restored(
    session: Session,
    targets: Seq<RestoreTarget>,
    id: Seq<char>,
    w: int,
)
    requires
        target_views(targets) == restore_list(session, session.workspaces@.len() as int),
        0 <= w < session.workspaces@.len(),
    ensures
        (exists|i: int|
            0 <= i < targets.len() && (#[trigger] targets[i]).pane@ == id && targets[i].workspace
                == w) <==> stands_on_a_tab(session.workspaces@[w], id) && was_read_back(
            session.panes@,
            id,
        ),
        forall|i: int|
            0 <= i < targets.len() ==> (#[trigger] targets[i]).workspace
                < session.workspaces@.len(),
        forall|i: int, j: int|
            0 <= i < targets.len() && 0 <= j < targets.len() && i != j ==> (
            #[trigger] targets[i]).pane@ != (#[trigger] targets[j]).pane@ || targets[i].workspace
                != targets[j].workspace,
{
    let n = session.workspaces@.len() as int;
    let list = restore_list(session, n);
    restore_list_is(session, n, id, w);
    if list.contains((id, w)) {
        let k = choose|k: int| 0 <= k < list.len() && list[k] == (id, w);
        assert(target_views(targets)[k] == (targets[k].pane@, targets[k].workspace as int));
        assert(targets[k].pane@ == id);
    }
    if exists|i: int|
        0 <= i < targets.len() && (#[trigger] targets[i]).pane@ == id && targets[i].workspace
            == w {
        let i = choose|i: int|
            0 <= i < targets.len() && (#[trigger] targets[i]).pane@ == id && targets[i].workspace
                == w;
        assert(target_views(targets)[i] == (id, w));
        assert(list.contains((id, w)));
    }
    assert forall|i: int| 0 <= i < targets.len() implies (#[trigger] targets[i]).workspace
        < session.workspaces@.len() by {
        let t = (targets[i].pane@, targets[i].workspace as int);
        assert(target_views(targets)[i] == t);
        assert(list.contains(t));
        restore_list_is(session, n, t.0, t.1);
    }
    assert forall|i: int, j: int|
        0 <= i < targets.len() && 0 <= j < targets.len() && i != j implies (
    #[trigger] targets[i]).pane@ != (#[trigger] targets[j]).pane@ || targets[i].workspace
        != targets[j].workspace by {
        assert(target_views(targets)[i] == (targets[i].pane@, targets[i].workspace as int));
        assert(target_views(targets)[j] == (targets[j].pane@, targets[j].workspace as int));
        assert(list[i] != list[j]);
    }
}

/// What is run again after a restart: the panes that were read back, on every tab of every
/// workspace.
pub proof fn all_are_run_again(session: &Session, r: Vec<RestoreTarget>, id: Seq<char>, w: int)
    requires
        call_ensures(restore_targets, (session,), r),
        0 <= w < session.workspaces@.len(),
    ensures
        (exists|i: int|
            0 <= i < r@.len() && (#[trigger] r@[i]).pane@ == id && r@[i].workspace == w)
            <==> stands_on_a_tab(session.workspaces@[w], id) && was_read_back(session.panes@, id),
{
    every_tab_is_restored(*session, r@, id, w);
}

} // verus!

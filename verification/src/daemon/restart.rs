//! What survives when a daemon ends and another reads its session back.
use crate::daemon::emulator::shown;
use crate::daemon::lifecycle::read_back;
use crate::daemon::live::PaneRuntime;
use crate::daemon::output::flat;
use crate::daemon::runtime::active_key;
use crate::daemon::screen::screen_text;
use crate::daemon::snapshot::{
    completed, merged_all, merged_one, saved, styled_history, texts_collected, Collected, Depth,
};
use crate::model::{pane_index, pane_index_is_first, slot_for, slot_for_bounds, Pane, PaneStatus};
use crate::text::chars::texts;
use crate::text::utf8::tail_within;
use vstd::prelude::*;

verus! {

/// The pane with the id.
pub open spec fn held(panes: Seq<Pane>, id: Seq<char>) -> Option<Pane> {
    match pane_index(panes, id) {
        Some(i) => Some(panes[i]),
        None => None,
    }
}

/// What a later daemon reads of the panes that one saved.
pub open spec fn reloaded(panes: Seq<Pane>) -> Seq<Pane> {
    panes.map_values(|p: Pane| saved(p)).map_values(|p: Pane| read_back(p))
}

/// The pane in a place is the one that is held, where no earlier one has its id.
proof fn first_is_held(panes: Seq<Pane>, i: int)
    requires
        0 <= i < panes.len(),
        forall|j: int| 0 <= j < i ==> (#[trigger] panes[j]).id@ != panes[i].id@,
    ensures
        pane_index(panes, panes[i].id@) == Some(i),
        held(panes, panes[i].id@) == Some(panes[i]),
{
    pane_index_is_first(panes, panes[i].id@);
}

/// What is saved of a pane and read back is what would be read back of the pane itself: its
/// texts, its title, its metadata and its tabs are as they were, its process is gone, and no
/// viewer holds it to a size.
pub proof fn saving_loses_nothing(pane: Pane)
    ensures
        read_back(saved(pane)) == read_back(pane),
        read_back(pane) == (Pane {
            status: read_back(pane).status,
            pid: read_back(pane).pid,
            view_size: None,
            alternate_scroll_mode: false,
            ..pane
        }),
        read_back(pane).status != PaneStatus::Running,
{
}

/// Every pane that is saved is read back with what it showed and what scrolled off, and no viewer
/// holds any of them to a size. Saved and read back once more, the panes are the same.
pub proof fn every_pane_is_read_back(panes: Seq<Pane>)
    ensures
        reloaded(panes).len() == panes.len(),
        forall|i: int|
            0 <= i < panes.len() ==> (#[trigger] reloaded(panes)[i]).id == panes[i].id
                && reloaded(panes)[i].output == panes[i].output && reloaded(panes)[i].scrollback
                == panes[i].scrollback && reloaded(panes)[i].scrollback_formatted
                == panes[i].scrollback_formatted && reloaded(panes)[i].view_size is None,
        reloaded(reloaded(panes)) == reloaded(panes),
{
    assert forall|i: int| 0 <= i < panes.len() implies (#[trigger] reloaded(panes)[i]) == read_back(
        panes[i],
    ) by {
        saving_loses_nothing(panes[i]);
    }
    assert forall|i: int| 0 <= i < panes.len() implies (#[trigger] reloaded(reloaded(panes))[i])
        == reloaded(panes)[i] by {
        saving_loses_nothing(reloaded(panes)[i]);
    }
    assert(reloaded(reloaded(panes)) =~= reloaded(panes));
}

/// Saved and read back, the panes are held under their ids.
proof fn reloaded_is_held(panes: Seq<Pane>, id: Seq<char>)
    ensures
        held(reloaded(panes), id) == match held(panes, id) {
            Some(p) => Some(read_back(p)),
            None => None,
        },
{
    let later = reloaded(panes);
    pane_index_is_first(panes, id);
    pane_index_is_first(later, id);
    assert forall|i: int| 0 <= i < panes.len() implies (#[trigger] later[i]) == read_back(panes[i])
        && later[i].id == panes[i].id by {
        saving_loses_nothing(panes[i]);
    }
    match pane_index(panes, id) {
        Some(i) => {
            assert(later[i].id@ == id);
            first_is_held(later, i);
        },
        None => {
            match pane_index(later, id) {
                Some(i) => {
                    assert(panes[i].id@ == id);
                },
                None => {},
            }
        },
    }
}

/// A running pane that is taken in changes no other pane.
proof fn others_are_kept(
    before: Seq<Pane>,
    after: Seq<Pane>,
    c: Collected,
    cap: usize,
    now: u64,
    id: Seq<char>,
)
    requires
        merged_one(before, after, c, cap, now),
        c.pane.id@ != id,
    ensures
        held(after, id) == held(before, id),
{
    let at = c.pane.id@;
    pane_index_is_first(before, at);
    pane_index_is_first(before, id);
    pane_index_is_first(after, id);
    let run = choose|run: Pane| #[trigger]
        completed(c, before, cap, run) && match pane_index(before, at) {
            Some(i) => after == before.update(i, after[i]) && crate::daemon::lifecycle::run_taken(
                before[i],
                after[i],
                c.runtime_key@,
                run,
                now,
            ),
            None => after == crate::model::with_pane(before, run),
        };
    assert(run.id@ == at);
    match pane_index(before, at) {
        Some(i) => {
            assert(after[i].id@ == at);
            match pane_index(before, id) {
                Some(k) => {
                    assert(after[k] == before[k]);
                    assert forall|j: int| 0 <= j < k implies (#[trigger] after[j]).id@ != id by {
                        assert(before[j].id@ != id);
                    }
                    first_is_held(after, k);
                },
                None => {
                    match pane_index(after, id) {
                        Some(k) => {
                            assert(before[k].id@ != id);
                        },
                        None => {},
                    }
                },
            }
        },
        None => {
            let s = slot_for(before, at);
            slot_for_bounds(before, at);
            assert(after == before.insert(s, run));
            match pane_index(before, id) {
                Some(k) => {
                    let n = if k < s {
                        k
                    } else {
                        k + 1
                    };
                    assert(after[n] == before[k]);
                    assert forall|j: int| 0 <= j < n implies (#[trigger] after[j]).id@ != id by {
                        if j < s {
                            assert(after[j] == before[j]);
                        } else if j > s {
                            assert(after[j] == before[j - 1]);
                        }
                    }
                    first_is_held(after, n);
                },
                None => {
                    match pane_index(after, id) {
                        Some(k) => {
                            if k < s {
                                assert(before[k].id@ != id);
                            } else if k > s {
                                assert(before[k - 1].id@ != id);
                            }
                        },
                        None => {},
                    }
                },
            }
        },
    }
}

/// Running panes that are taken in change no pane without one of their ids.
proof fn all_others_are_kept(
    before: Seq<Pane>,
    after: Seq<Pane>,
    collected: Seq<Collected>,
    cap: usize,
    now: u64,
    id: Seq<char>,
)
    requires
        merged_all(before, after, collected, cap, now),
        forall|j: int| 0 <= j < collected.len() ==> (#[trigger] collected[j]).pane.id@ != id,
    ensures
        held(after, id) == held(before, id),
    decreases collected.len(),
{
    if collected.len() > 0 {
        let mid = choose|mid: Seq<Pane>|
            merged_all(before, mid, collected.drop_last(), cap, now) && #[trigger] merged_one(
                mid,
                after,
                collected.last(),
                cap,
                now,
            );
        all_others_are_kept(before, mid, collected.drop_last(), cap, now, id);
        others_are_kept(mid, after, collected.last(), cap, now, id);
    }
}

/// The pane shows the texts that were collected.
pub open spec fn shows(pane: Pane, c: Collected, cap: usize) -> bool {
    c.output matches Some(t) ==> pane.output@ == t.contents@ && pane.output_formatted@
        == t.formatted@ && pane.scrollback@ == tail_within(t.raw@, cap as int)
        && pane.scrollback_formatted@ == t.scrollback_formatted@
}

/// The running pane is the one that the session's pane shows.
pub open spec fn is_in_front(panes: Seq<Pane>, c: Collected) -> bool {
    held(panes, c.pane.id@) matches Some(p) ==> active_key(p) == c.runtime_key@
}

/// A running pane that is taken in is held with the texts that were collected.
proof fn its_texts_are_held(
    before: Seq<Pane>,
    after: Seq<Pane>,
    c: Collected,
    cap: usize,
    now: u64,
)
    requires
        merged_one(before, after, c, cap, now),
        is_in_front(before, c),
    ensures
        held(after, c.pane.id@) matches Some(p) && shows(p, c, cap),
{
    let at = c.pane.id@;
    pane_index_is_first(before, at);
    let run = choose|run: Pane| #[trigger]
        completed(c, before, cap, run) && match pane_index(before, at) {
            Some(i) => after == before.update(i, after[i]) && crate::daemon::lifecycle::run_taken(
                before[i],
                after[i],
                c.runtime_key@,
                run,
                now,
            ),
            None => after == crate::model::with_pane(before, run),
        };
    assert(run.id@ == at);
    assert(shows(run, c, cap));
    match pane_index(before, at) {
        Some(i) => {
            assert forall|j: int| 0 <= j < i implies (#[trigger] after[j]).id@ != after[i].id@ by {
                assert(before[j].id@ != at);
            }
            first_is_held(after, i);
        },
        None => {
            let s = slot_for(before, at);
            slot_for_bounds(before, at);
            assert(after[s] == run);
            assert forall|j: int| 0 <= j < s implies (#[trigger] after[j]).id@ != after[s].id@ by {
                assert(after[j] == before[j]);
            }
            first_is_held(after, s);
        },
    }
}

/// Each running pane that a snapshot takes in is held with the texts that were collected,
/// whatever else is taken in.
proof fn all_texts_are_held(
    before: Seq<Pane>,
    after: Seq<Pane>,
    collected: Seq<Collected>,
    cap: usize,
    now: u64,
    k: int,
)
    requires
        merged_all(before, after, collected, cap, now),
        0 <= k < collected.len(),
        is_in_front(before, collected[k]),
        forall|j: int|
            0 <= j < collected.len() && j != k ==> (#[trigger] collected[j]).pane.id@
                != collected[k].pane.id@,
    ensures
        held(after, collected[k].pane.id@) matches Some(p) && shows(p, collected[k], cap),
    decreases collected.len(),
{
    let rest = collected.drop_last();
    let id = collected[k].pane.id@;
    let mid = choose|mid: Seq<Pane>|
        merged_all(before, mid, rest, cap, now) && #[trigger] merged_one(
            mid,
            after,
            collected.last(),
            cap,
            now,
        );
    if k == collected.len() - 1 {
        all_others_are_kept(before, mid, rest, cap, now, id);
        its_texts_are_held(mid, after, collected[k], cap, now);
    } else {
        assert(rest[k] == collected[k]);
        all_texts_are_held(before, mid, rest, cap, now, k);
        others_are_kept(mid, after, collected.last(), cap, now, id);
    }
}

/// What a running pane shows when its session is saved is there when another daemon reads the
/// session back: what is on its screen, and what scrolled off, up to the number of bytes that
/// are kept. It is no running pane then, and no viewer holds it to a size.
pub proof fn history_survives_restart(
    before: Seq<Pane>,
    after: Seq<Pane>,
    collected: Seq<Collected>,
    cap: usize,
    now: u64,
    k: int,
    runtime: PaneRuntime,
)
    requires
        merged_all(before, after, collected, cap, now),
        0 <= k < collected.len(),
        is_in_front(before, collected[k]),
        forall|j: int|
            0 <= j < collected.len() && j != k ==> (#[trigger] collected[j]).pane.id@
                != collected[k].pane.id@,
        texts_collected(runtime, shown(runtime.terminal), Depth::Full, collected[k].output),
    ensures
        held(reloaded(after), collected[k].pane.id@) matches Some(p) && p.output@ == screen_text(
            shown(runtime.terminal),
        ) && p.scrollback@ == tail_within(flat(texts(runtime.output@)), cap as int)
            && p.scrollback_formatted@ == styled_history(runtime, shown(runtime.terminal))
            && p.status != PaneStatus::Running && p.view_size is None,
{
    all_texts_are_held(before, after, collected, cap, now, k);
    reloaded_is_held(after, collected[k].pane.id@);
}

} // verus!

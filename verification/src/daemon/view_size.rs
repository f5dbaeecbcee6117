//! Sizes that remote viewers ask for.
//!
//! Each live viewer holds a size for as long as its lease runs; the smallest of them and of
//! the layout wins, rows and columns each for themselves. Times are in milliseconds.
use crate::model::PaneSize;
use crate::text::chars::same;
use vstd::prelude::*;

verus! {

/// The shortest lease.
pub const VIEW_LEASE_MS_MIN: u64 = 500;

/// The longest lease.
pub const VIEW_LEASE_MS_MAX: u64 = 60_000;

/// The size that one viewer holds.
#[derive(Debug)]
pub struct ViewOverride {
    /// Who holds it; empty for a caller that knows of no other viewer.
    pub viewer_id: String,
    pub size: PaneSize,
    /// When the lease ends.
    pub expires_at: u64,
}

/// A lease within its bounds.
pub fn clamp_lease_ms(lease_ms: u64) -> (r: u64)
    ensures
        r == if lease_ms < VIEW_LEASE_MS_MIN {
            VIEW_LEASE_MS_MIN
        } else if lease_ms > VIEW_LEASE_MS_MAX {
            VIEW_LEASE_MS_MAX
        } else {
            lease_ms
        },
{
    if lease_ms < VIEW_LEASE_MS_MIN {
        VIEW_LEASE_MS_MIN
    } else if lease_ms > VIEW_LEASE_MS_MAX {
        VIEW_LEASE_MS_MAX
    } else {
        lease_ms
    }
}

/// The smaller of two numbers.
pub open spec fn least(a: u16, b: u16) -> u16 {
    if a <= b {
        a
    } else {
        b
    }
}

/// The smaller rows and the smaller columns of two sizes.
pub open spec fn smaller(a: PaneSize, b: PaneSize) -> PaneSize {
    PaneSize { rows: least(a.rows, b.rows), cols: least(a.cols, b.cols) }
}

/// The smallest size among the leases that still run.
pub open spec fn smallest_live(overrides: Seq<ViewOverride>, now: u64) -> Option<PaneSize>
    decreases overrides.len(),
{
    if overrides.len() == 0 {
        None
    } else {
        let before = smallest_live(overrides.drop_last(), now);
        let v = overrides.last();
        if v.expires_at > now {
            match before {
                Some(s) => Some(smaller(s, v.size)),
                None => Some(v.size),
            }
        } else {
            before
        }
    }
}

/// The smallest size among the leases that still run.
pub fn min_live_view(overrides: &[ViewOverride], now: u64) -> (r: Option<PaneSize>)
    ensures
        r == smallest_live(overrides@, now),
{
    let mut best: Option<PaneSize> = None;
    let mut i: usize = 0;
    while i < overrides.len()
        invariant
            i <= overrides.len(),
            best == smallest_live(overrides@.take(i as int), now),
        decreases overrides.len() - i,
    {
        assert(overrides@.take(i + 1).drop_last() =~= overrides@.take(i as int));
        let v = &overrides[i];
        if v.expires_at > now {
            best = match best {
                Some(s) => Some(
                    PaneSize {
                        rows: if s.rows <= v.size.rows {
                            s.rows
                        } else {
                            v.size.rows
                        },
                        cols: if s.cols <= v.size.cols {
                            s.cols
                        } else {
                            v.size.cols
                        },
                    },
                ),
                None => Some(v.size),
            };
        }
        i += 1;
    }
    assert(overrides@.take(i as int) =~= overrides@);
    best
}

/// The size of a pane: that of the layout, cut to what is viewed, and never less than two
/// rows or columns then.
pub open spec fn effective(layout: PaneSize, view: Option<PaneSize>) -> PaneSize {
    match view {
        None => layout,
        Some(v) => PaneSize {
            rows: if least(layout.rows, v.rows) < 2 {
                2
            } else {
                least(layout.rows, v.rows)
            },
            cols: if least(layout.cols, v.cols) < 2 {
                2
            } else {
                least(layout.cols, v.cols)
            },
        },
    }
}

/// The size of a pane on a layout that is viewed at a size.
pub fn effective_pane_size(layout: PaneSize, view: Option<PaneSize>) -> (r: PaneSize)
    ensures
        r == effective(layout, view),
{
    match view {
        None => layout,
        Some(view) => {
            let rows = if layout.rows <= view.rows {
                layout.rows
            } else {
                view.rows
            };
            let cols = if layout.cols <= view.cols {
                layout.cols
            } else {
                view.cols
            };
            PaneSize {
                rows: if rows < 2 {
                    2
                } else {
                    rows
                },
                cols: if cols < 2 {
                    2
                } else {
                    cols
                },
            }
        },
    }
}

/// The size of a pane on a layout with viewers.
pub fn effective_with_overrides(
    layout: PaneSize,
    overrides: &[ViewOverride],
    now: u64,
) -> (r: PaneSize)
    ensures
        r == effective(layout, smallest_live(overrides@, now)),
{
    effective_pane_size(layout, min_live_view(overrides, now))
}

/// The place of the first lease of the viewer.
pub open spec fn lease_index(overrides: Seq<ViewOverride>, viewer: Seq<char>) -> Option<int>
    decreases overrides.len(),
{
    if overrides.len() == 0 {
        None
    } else if overrides[0].viewer_id@ == viewer {
        Some(0)
    } else {
        match lease_index(overrides.drop_first(), viewer) {
            Some(i) => Some(i + 1),
            None => None,
        }
    }
}

/// A lease of the viewer, at the size, until the time.
pub open spec fn is_lease(v: ViewOverride, viewer: Seq<char>, size: PaneSize, until: int) -> bool {
    v.viewer_id@ == viewer && v.size == size && v.expires_at == until
}

/// Gives a viewer a lease, or renews the one it has. A viewer without an id replaces all.
pub fn upsert_override(
    overrides: &mut Vec<ViewOverride>,
    viewer_id: String,
    size: PaneSize,
    lease: u64,
    now: u64,
)
    requires
        now + lease <= u64::MAX,
    ensures
        viewer_id@.len() == 0 ==> final(overrides)@.len() == 1 && is_lease(
            final(overrides)@[0],
            viewer_id@,
            size,
            now + lease,
        ),
        viewer_id@.len() > 0 ==> match lease_index(old(overrides)@, viewer_id@) {
            Some(i) => final(overrides)@ == old(overrides)@.update(i, final(overrides)@[i])
                && is_lease(final(overrides)@[i], viewer_id@, size, now + lease),
            None => final(overrides)@.len() == old(overrides)@.len() + 1
                && final(overrides)@.drop_last() == old(overrides)@ && is_lease(
                final(overrides)@.last(),
                viewer_id@,
                size,
                now + lease,
            ),
        },
{
    let expires_at = now + lease;
    if viewer_id.as_str().is_empty() {
        overrides.clear();
        overrides.push(ViewOverride { viewer_id, size, expires_at });
        return;
    }
    let ghost all = overrides@;
    let mut i: usize = 0;
    assert(all.skip(0) =~= all);
    while i < overrides.len()
        invariant
            i <= overrides.len(),
            overrides@ == all,
            all == old(overrides)@,
            viewer_id@.len() > 0,
            expires_at == now + lease,
            lease_index(all, viewer_id@) == match lease_index(all.skip(i as int), viewer_id@) {
                Some(k) => Some(k + i),
                None => None,
            },
        decreases overrides.len() - i,
    {
        assert(all.skip(i as int).drop_first() =~= all.skip(i + 1));
        if same(overrides[i].viewer_id.as_str(), viewer_id.as_str()) {
            overrides.set(i, ViewOverride { viewer_id, size, expires_at });
            assert(overrides@ =~= all.update(i as int, overrides@[i as int]));
            return;
        }
        i += 1;
    }
    overrides.push(ViewOverride { viewer_id, size, expires_at });
    assert(overrides@.drop_last() =~= all);
}

/// The leases of all viewers but one.
pub open spec fn without_viewer(overrides: Seq<ViewOverride>, viewer: Seq<char>) -> Seq<
    ViewOverride,
>
    decreases overrides.len(),
{
    if overrides.len() == 0 {
        overrides
    } else if overrides.last().viewer_id@ == viewer {
        without_viewer(overrides.drop_last(), viewer)
    } else {
        without_viewer(overrides.drop_last(), viewer).push(overrides.last())
    }
}

/// The leases that still run.
pub open spec fn live_only(overrides: Seq<ViewOverride>, now: u64) -> Seq<ViewOverride>
    decreases overrides.len(),
{
    if overrides.len() == 0 {
        overrides
    } else if overrides.last().expires_at > now {
        live_only(overrides.drop_last(), now).push(overrides.last())
    } else {
        live_only(overrides.drop_last(), now)
    }
}

/// Ends the lease of a viewer, or of all where none is named. Says whether any was there.
pub fn clear_override(overrides: &mut Vec<ViewOverride>, viewer_id: Option<&str>) -> (r: bool)
    ensures
        final(overrides)@ == (match viewer_id {
            Some(id) => if id@.len() == 0 {
                Seq::empty()
            } else {
                without_viewer(old(overrides)@, id@)
            },
            None => Seq::empty(),
        }),
        r == (final(overrides)@.len() != old(overrides)@.len()),
{
    let before = overrides.len();
    let viewer = match viewer_id {
        Some(id) => id,
        None => "",
    };
    proof {
        reveal_strlit("");
    }
    if viewer.is_empty() {
        overrides.clear();
        assert(overrides@ =~= Seq::empty());
        return before != 0;
    }
    let ghost all = overrides@;
    let ghost mut seen: int = 0;
    let mut i: usize = 0;
    assert(all.skip(0) =~= all);
    while i < overrides.len()
        invariant
            i <= overrides.len(),
            0 <= seen <= all.len(),
            i == without_viewer(all.take(seen), viewer@).len(),
            overrides@ == without_viewer(all.take(seen), viewer@) + all.skip(seen),
        decreases all.len() - seen,
    {
        let ghost kept = without_viewer(all.take(seen), viewer@);
        assert(overrides@[i as int] == all.skip(seen)[0]);
        assert(all.take(seen + 1).drop_last() =~= all.take(seen));
        if same(overrides[i].viewer_id.as_str(), viewer) {
            let _gone = overrides.remove(i);
            assert(overrides@ =~= kept + all.skip(seen + 1));
        } else {
            i += 1;
            assert(overrides@ =~= kept.push(all[seen]) + all.skip(seen + 1));
        }
        proof {
            seen = seen + 1;
        }
    }
    assert(all.take(seen) =~= all);
    assert(overrides@ =~= without_viewer(all, viewer@));
    overrides.len() != before
}

/// Drops the leases that have ended. Says whether there were any.
pub fn expire_overrides(overrides: &mut Vec<ViewOverride>, now: u64) -> (r: bool)
    ensures
        final(overrides)@ == live_only(old(overrides)@, now),
        r == (final(overrides)@.len() != old(overrides)@.len()),
{
    let before = overrides.len();
    let ghost all = overrides@;
    let ghost mut seen: int = 0;
    let mut i: usize = 0;
    assert(all.skip(0) =~= all);
    while i < overrides.len()
        invariant
            i <= overrides.len(),
            0 <= seen <= all.len(),
            i == live_only(all.take(seen), now).len(),
            overrides@ == live_only(all.take(seen), now) + all.skip(seen),
        decreases all.len() - seen,
    {
        let ghost kept = live_only(all.take(seen), now);
        assert(overrides@[i as int] == all.skip(seen)[0]);
        assert(all.take(seen + 1).drop_last() =~= all.take(seen));
        if overrides[i].expires_at > now {
            i += 1;
            assert(overrides@ =~= kept.push(all[seen]) + all.skip(seen + 1));
        } else {
            let _gone = overrides.remove(i);
            assert(overrides@ =~= kept + all.skip(seen + 1));
        }
        proof {
            seen = seen + 1;
        }
    }
    assert(all.take(seen) =~= all);
    assert(overrides@ =~= live_only(all, now));
    overrides.len() != before
}

/// The smallest client wins: no live viewer is shown more rows or columns than it asked for,
/// each side of the size is that of some live viewer, and there is a size exactly where
/// there is a live viewer.
pub proof fn smallest_client_wins(overrides: Seq<ViewOverride>, now: u64)
    ensures
        smallest_live(overrides, now) is Some <==> exists|i: int|
            0 <= i < overrides.len() && (#[trigger] overrides[i]).expires_at > now,
        smallest_live(overrides, now) matches Some(s) ==> {
            &&& forall|i: int|
                0 <= i < overrides.len() && (#[trigger] overrides[i]).expires_at > now ==> s.rows
                    <= overrides[i].size.rows && s.cols <= overrides[i].size.cols
            &&& exists|i: int|
                0 <= i < overrides.len() && (#[trigger] overrides[i]).expires_at > now && s.rows
                    == overrides[i].size.rows
            &&& exists|i: int|
                0 <= i < overrides.len() && (#[trigger] overrides[i]).expires_at > now && s.cols
                    == overrides[i].size.cols
        },
    decreases overrides.len(),
{
    if overrides.len() > 0 {
        let before = overrides.drop_last();
        let n = overrides.len() - 1;
        smallest_client_wins(before, now);
        assert forall|i: int| 0 <= i < n implies before[i] == overrides[i] by {}
        let v = overrides[n];
        match smallest_live(before, now) {
            Some(s) => {
                let a = choose|i: int|
                    0 <= i < before.len() && (#[trigger] before[i]).expires_at > now && s.rows
                        == before[i].size.rows;
                let b = choose|i: int|
                    0 <= i < before.len() && (#[trigger] before[i]).expires_at > now && s.cols
                        == before[i].size.cols;
                assert(overrides[a].expires_at > now && overrides[b].expires_at > now);
                assert(v == overrides.last());
            },
            None => {
                assert forall|i: int| 0 <= i < n implies overrides[i].expires_at <= now by {
                    assert(before[i].expires_at <= now);
                }
                assert(v == overrides.last());
            },
        }
    }
}

/// Dropping the leases that have ended changes no size.
pub proof fn expiry_changes_no_size(overrides: Seq<ViewOverride>, now: u64)
    ensures
        smallest_live(live_only(overrides, now), now) == smallest_live(overrides, now),
    decreases overrides.len(),
{
    if overrides.len() > 0 {
        expiry_changes_no_size(overrides.drop_last(), now);
        if overrides.last().expires_at > now {
            let kept = live_only(overrides.drop_last(), now);
            assert(kept.push(overrides.last()).drop_last() =~= kept);
        }
    }
}

/// A viewer never makes a pane larger than its layout, nor smaller than two rows and columns
/// where the layout is not.
pub proof fn viewers_only_shrink(layout: PaneSize, view: Option<PaneSize>)
    requires
        layout.rows >= 2,
        layout.cols >= 2,
    ensures
        2 <= effective(layout, view).rows <= layout.rows,
        2 <= effective(layout, view).cols <= layout.cols,
{
}

} // verus!

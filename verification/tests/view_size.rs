//! Sizes of panes, and the viewers who make them smaller.

use vmux::daemon::handlers::{
    claim_pane_sizes, clear_view_size, expire_view, set_layout_size, set_view_size,
};
use vmux::daemon::live::{new_runtime, ViewLease};
use vmux::daemon::runtime::sanitize_pane_size;
use vmux::daemon::view_size::{
    clamp_lease_ms, clear_override, effective_pane_size, effective_with_overrides,
    expire_overrides, min_live_view, upsert_override, ViewOverride,
};
use vmux::model::{Pane, PaneSize};

fn viewer(id: &str, cols: u16, rows: u16, expires_at: u64) -> ViewOverride {
    ViewOverride {
        viewer_id: id.to_string(),
        size: PaneSize { cols, rows },
        expires_at,
    }
}

#[test]
fn effective_pane_size_is_min_per_axis() {
    let layout = PaneSize { cols: 80, rows: 24 };
    // Narrower but taller than the layout: each axis for itself.
    let out = effective_pane_size(layout, Some(PaneSize { cols: 46, rows: 60 }));
    assert_eq!(out, PaneSize { cols: 46, rows: 24 });
    // Without a viewer the layout stands.
    assert_eq!(effective_pane_size(layout, None), layout);
    // Nothing at all still leaves a grid.
    let out = effective_pane_size(layout, Some(PaneSize { cols: 0, rows: 0 }));
    assert_eq!(out, PaneSize { cols: 2, rows: 2 });
}

#[test]
fn pane_size_sanitizer_keeps_vt100_dimensions_valid() {
    assert_eq!(
        sanitize_pane_size(PaneSize { rows: 0, cols: 0 }),
        PaneSize { rows: 2, cols: 2 }
    );
    assert_eq!(
        sanitize_pane_size(PaneSize { rows: 1, cols: 1 }),
        PaneSize { rows: 2, cols: 2 }
    );
    assert_eq!(
        sanitize_pane_size(PaneSize { rows: 24, cols: 80 }),
        PaneSize { rows: 24, cols: 80 }
    );
}

#[test]
fn min_across_two_viewers() {
    let now = 100_000;
    let overrides = vec![viewer("a", 40, 20, now + 10_000), viewer("b", 80, 10, now + 10_000)];
    let m = min_live_view(&overrides, now).unwrap();
    assert_eq!(m.cols, 40);
    assert_eq!(m.rows, 10);
}

#[test]
fn expired_viewer_ignored() {
    let now = 100_000;
    let overrides = vec![viewer("dead", 10, 10, now - 1_000), viewer("live", 50, 25, now + 5_000)];
    let m = min_live_view(&overrides, now).unwrap();
    assert_eq!(m, PaneSize { cols: 50, rows: 25 });
}

#[test]
fn empty_viewer_id_replaces_all() {
    let now = 100_000;
    let mut o = vec![viewer("a", 40, 20, now + 10_000)];
    upsert_override(&mut o, String::new(), PaneSize { cols: 30, rows: 15 }, 5_000, now);
    assert_eq!(o.len(), 1);
    assert!(o[0].viewer_id.is_empty());
    assert_eq!(o[0].size.cols, 30);
}

#[test]
fn upsert_refreshes_same_viewer() {
    let now = 100_000;
    let mut o = Vec::new();
    upsert_override(&mut o, "phone-1".into(), PaneSize { cols: 40, rows: 20 }, 5_000, now);
    upsert_override(&mut o, "phone-1".into(), PaneSize { cols: 36, rows: 18 }, 5_000, now);
    assert_eq!(o.len(), 1);
    assert_eq!(o[0].size.cols, 36);
}

#[test]
fn two_viewers_stand_side_by_side() {
    let now = 7;
    let mut o = vec![viewer("a", 40, 20, 50)];
    upsert_override(&mut o, "b".into(), PaneSize { cols: 60, rows: 10 }, 20, now);
    assert_eq!(o.len(), 2);
    assert_eq!(o[1].expires_at, 27);
    assert_eq!(
        effective_with_overrides(PaneSize { cols: 50, rows: 50 }, &o, now),
        PaneSize { cols: 40, rows: 10 }
    );
}

#[test]
fn leases_stay_within_their_bounds() {
    assert_eq!(clamp_lease_ms(0), 500);
    assert_eq!(clamp_lease_ms(5_000), 5_000);
    assert_eq!(clamp_lease_ms(1_000_000), 60_000);
}

#[test]
fn viewers_are_cleared_one_by_one_or_all() {
    let mut o = vec![viewer("a", 1, 1, 9), viewer("b", 2, 2, 9)];
    assert!(!clear_override(&mut o, Some("c")));
    assert!(clear_override(&mut o, Some("a")));
    assert_eq!(o.len(), 1);
    assert_eq!(o[0].viewer_id, "b");
    assert!(clear_override(&mut o, None));
    assert!(o.is_empty());
    assert!(!clear_override(&mut o, None));
}

#[test]
fn expiry_leaves_the_size_as_it_was() {
    let layout = PaneSize { cols: 100, rows: 40 };
    let mut o = vec![viewer("a", 10, 10, 9), viewer("b", 20, 30, 90)];
    let before = effective_with_overrides(layout, &o, 50);
    assert!(expire_overrides(&mut o, 50));
    assert_eq!(o.len(), 1);
    assert_eq!(effective_with_overrides(layout, &o, 50), before);
    assert_eq!(before, PaneSize { cols: 20, rows: 30 });
    assert!(!expire_overrides(&mut o, 50));
}

#[test]
fn pane_size_sync_uses_single_attach_owner() {
    let mut owner: Option<String> = None;
    assert!(claim_pane_sizes(&mut owner, Some("desktop"), true));
    assert_eq!(owner.as_deref(), Some("desktop"));

    assert!(!claim_pane_sizes(&mut owner, Some("phone"), false));
    assert_eq!(owner.as_deref(), Some("desktop"));

    assert!(claim_pane_sizes(&mut owner, Some("phone"), true));
    assert_eq!(owner.as_deref(), Some("phone"));
    // A client without a name is not held off, and owns nothing.
    assert!(claim_pane_sizes(&mut owner, None, false));
    assert_eq!(owner.as_deref(), Some("phone"));
}

#[test]
fn a_lease_makes_the_pane_smaller_until_it_runs_out() {
    let mut runtime = new_runtime(1, Pane::new("pane-1".into(), "sh".into(), 5), 16_000, 5);
    assert_eq!(set_layout_size(&mut runtime, PaneSize { cols: 80, rows: 24 }), PaneSize { cols: 80, rows: 24 });
    let next = set_view_size(&mut runtime, PaneSize { cols: 46, rows: 60 }, 10_000, 1_000);
    assert_eq!(next, PaneSize { cols: 46, rows: 24 });
    assert_eq!(
        runtime.view_override,
        Some(ViewLease { size: PaneSize { cols: 46, rows: 60 }, expires_at: 11_000 })
    );
    // The layout may grow meanwhile; the viewer still counts.
    let next = set_layout_size(&mut runtime, PaneSize { cols: 120, rows: 30 });
    assert_eq!(next, PaneSize { cols: 46, rows: 30 });
    assert_eq!(runtime.layout_size, PaneSize { cols: 120, rows: 30 });
    assert_eq!(expire_view(&mut runtime, 10_999), None);
    assert_eq!(expire_view(&mut runtime, 11_000), Some(PaneSize { cols: 120, rows: 30 }));
    assert_eq!(runtime.view_override, None);
    set_view_size(&mut runtime, PaneSize { cols: 10, rows: 10 }, 10_000, 20_000);
    assert_eq!(clear_view_size(&mut runtime), PaneSize { cols: 120, rows: 30 });
}

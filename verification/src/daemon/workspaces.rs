//! Workspaces and tabs of a session: finding, making, changing and closing them.
use crate::daemon::handlers::{
    acknowledge_panes, acknowledged, find_pane_location, find_workspace, finish_killed,
    holder_index, killed, tab_of_pane, workspace_index,
};
use crate::daemon::navigate::{
    active_tab_index, activated, detached, flush_active_tab, flushed_tabs, on_tab,
    remove_pane_anywhere, switch_tab, take_pane, workspace_pane_ids, workspace_tab_index,
    workspace_tab_index_is_first,
};
use crate::daemon::panes::{listed, lists};
use crate::daemon::runtime::{
    highest_number, id_numbers_read_back, largest_number, numbers_are_within,
};
use crate::model::{
    is_new_tab, is_new_workspace, pane_index, Pane, PaneStatus, Session, Workspace, WorkspaceTab,
};
use crate::text::chars::{clone_opt, is_opt_text, opt_str, opt_text, push_chars, same, texts};
use crate::text::numbers::{decimal, decimal_chars};
use vstd::prelude::*;

verus! {

/// Why no workspace is found.
#[derive(Debug)]
pub enum SelectError {
    /// No workspace has the text as its id or its name.
    Unknown(String),
    /// Several workspaces have the text as their name.
    Ambiguous(String),
}

/// What a selector names.
pub enum Selection {
    At(int),
    Unknown(Seq<char>),
    Ambiguous(Seq<char>),
}

/// The places of the workspaces with the name.
pub open spec fn name_hits(workspaces: Seq<Workspace>, name: Seq<char>) -> Seq<int>
    decreases workspaces.len(),
{
    if workspaces.len() == 0 {
        Seq::empty()
    } else {
        let before = name_hits(workspaces.drop_last(), name);
        if workspaces.last().name@ == name {
            before.push(workspaces.len() - 1)
        } else {
            before
        }
    }
}

/// The workspace that a selector names: the one with it as its id, or else the only one with
/// it as its name; the active one where there is no selector.
pub open spec fn selection(session: Session, selector: Option<Seq<char>>) -> Selection {
    let spaces = session.workspaces@;
    match selector {
        None => match workspace_index(spaces, session.active_workspace@) {
            Some(i) => Selection::At(i),
            None => Selection::Unknown(session.active_workspace@),
        },
        Some(s) => match workspace_index(spaces, s) {
            Some(i) => Selection::At(i),
            None => {
                let hits = name_hits(spaces, s);
                if hits.len() == 1 {
                    Selection::At(hits[0])
                } else if hits.len() == 0 {
                    Selection::Unknown(s)
                } else {
                    Selection::Ambiguous(s)
                }
            },
        },
    }
}

/// The error says why the selector names no workspace.
pub open spec fn is_select_error(sel: Selection, e: SelectError) -> bool {
    match sel {
        Selection::At(_) => false,
        Selection::Unknown(s) => e matches SelectError::Unknown(got) && got@ == s,
        Selection::Ambiguous(s) => e matches SelectError::Ambiguous(got) && got@ == s,
    }
}

/// The workspace that a selector names.
pub fn select_workspace(session: &Session, selector: Option<&str>) -> (r: Result<
    usize,
    SelectError,
>)
    ensures
        match r {
            Ok(i) => selection(*session, opt_str(selector)) == Selection::At(i as int) && i
                < session.workspaces@.len(),
            Err(e) => is_select_error(selection(*session, opt_str(selector)), e),
        },
{
    let spaces = &session.workspaces;
    let s = match selector {
        None => {
            return match find_workspace(spaces, session.active_workspace.as_str()) {
                Some(i) => Ok(i),
                None => Err(SelectError::Unknown(session.active_workspace.clone())),
            };
        },
        Some(s) => s,
    };
    if let Some(i) = find_workspace(spaces, s) {
        return Ok(i);
    }
    let ghost all = spaces@;
    let mut found: Option<usize> = None;
    let mut several = false;
    let mut i: usize = 0;
    while i < spaces.len()
        invariant
            i <= spaces.len(),
            all == spaces@,
            several == (name_hits(all.take(i as int), s@).len() > 1),
            found is None <==> name_hits(all.take(i as int), s@).len() == 0,
            found matches Some(f) ==> f < i && name_hits(all.take(i as int), s@)[0] == f,
        decreases spaces.len() - i,
    {
        assert(all.take(i + 1).drop_last() =~= all.take(i as int));
        if same(spaces[i].name.as_str(), s) {
            if found.is_none() {
                found = Some(i);
            } else {
                several = true;
            }
        }
        i += 1;
    }
    assert(all.take(i as int) =~= all);
    match found {
        None => Err(SelectError::Unknown(s.to_string())),
        Some(f) => if several {
            Err(SelectError::Ambiguous(s.to_string()))
        } else {
            Ok(f)
        },
    }
}

/// The place of the first workspace with an id lies within the list.
proof fn index_is_a_place(workspaces: Seq<Workspace>, id: Seq<char>)
    ensures
        workspace_index(workspaces, id) matches Some(i) ==> 0 <= i < workspaces.len(),
    decreases workspaces.len(),
{
    if workspaces.len() > 0 {
        index_is_a_place(workspaces.drop_first(), id);
    }
}

/// Hits by name lie within the list.
proof fn hits_are_places(workspaces: Seq<Workspace>, name: Seq<char>)
    ensures
        forall|k: int|
            0 <= k < name_hits(workspaces, name).len() ==> 0 <= #[trigger] name_hits(
                workspaces,
                name,
            )[k] < workspaces.len(),
    decreases workspaces.len(),
{
    if workspaces.len() > 0 {
        hits_are_places(workspaces.drop_last(), name);
        let before = name_hits(workspaces.drop_last(), name);
        let after = name_hits(workspaces, name);
        assert forall|k: int| 0 <= k < after.len() implies 0 <= #[trigger] after[k]
            < workspaces.len() by {
            if k < before.len() {
                assert(after[k] == before[k]);
            }
        }
    }
}

/// What a selector names is there.
pub proof fn selection_is_a_place(session: Session, selector: Option<Seq<char>>)
    ensures
        selection(session, selector) matches Selection::At(w) ==> 0 <= w
            < session.workspaces@.len(),
{
    match selector {
        None => index_is_a_place(session.workspaces@, session.active_workspace@),
        Some(s) => {
            index_is_a_place(session.workspaces@, s);
            hits_are_places(session.workspaces@, s);
        },
    }
}

/// `after` is the session `before` with another workspace, which is the active one.
pub open spec fn workspace_added(
    before: Session,
    after: Session,
    number: u64,
    name: Seq<char>,
    cwd: Seq<char>,
) -> bool {
    let w = after.workspaces@.last();
    &&& after.workspaces@ == before.workspaces@.push(w)
    &&& is_new_workspace(w, "ws-"@ + decimal(number as nat), name, cwd)
    &&& after.active_workspace@ == w.id@
    &&& after == Session {
        workspaces: after.workspaces,
        active_workspace: after.active_workspace,
        ..before
    }
}

/// Makes a workspace, with the next number, and makes it the active one.
pub fn new_workspace(session: &mut Session, next: &mut u64, name: String, cwd: String)
    requires
        *old(next) < u64::MAX,
    ensures
        workspace_added(*old(session), *final(session), *old(next), name@, cwd@),
        *final(next) == *old(next) + 1,
{
    let mut id = "ws-".to_string();
    push_chars(&mut id, decimal_chars(*next).as_slice());
    let mut workspace = Workspace::new(id.as_str(), name.as_str());
    workspace.cwd = cwd;
    *next = *next + 1;
    session.active_workspace = id;
    session.workspaces.push(workspace);
}

/// `after` is the session `before` once the workspace in a place is the active one and the
/// finished turns of its panes have been seen.
pub open spec fn workspace_switched(before: Session, after: Session, w: int, now: u64) -> bool {
    &&& after.active_workspace@ == before.workspaces@[w].id@
    &&& after.panes@ == acknowledged(
        before.panes@,
        workspace_pane_ids(before.workspaces@[w]),
        now,
    )
    &&& after == Session {
        active_workspace: after.active_workspace,
        panes: after.panes,
        ..before
    }
}

/// Makes the workspace in a place the active one, and takes the finished turns of its panes as
/// seen.
pub fn switch_workspace(session: &mut Session, w: usize, now: u64)
    requires
        w < old(session).workspaces@.len(),
    ensures
        workspace_switched(*old(session), *final(session), w as int, now),
{
    let ids = session.workspaces[w].all_pane_ids();
    session.active_workspace = session.workspaces[w].id.clone();
    acknowledge_panes(&mut session.panes, &ids, now);
}

/// `after` is the session `before` with `space` in the place of a workspace.
pub open spec fn workspace_replaced(
    before: Session,
    after: Session,
    w: int,
    space: Workspace,
) -> bool {
    &&& after.workspaces@ == before.workspaces@.update(w, space)
    &&& after == Session { workspaces: after.workspaces, ..before }
}

/// Gives the workspace in a place another name.
pub fn rename_workspace(session: &mut Session, w: usize, name: String)
    requires
        w < old(session).workspaces@.len(),
    ensures
        workspace_replaced(
            *old(session),
            *final(session),
            w as int,
            Workspace { name, ..old(session).workspaces@[w as int] },
        ),
{
    let space = &mut session.workspaces[w];
    space.name = name;
}

/// Gives the workspace in a place another directory. What was known of the old one goes.
pub fn set_workspace_cwd(session: &mut Session, w: usize, cwd: String)
    requires
        w < old(session).workspaces@.len(),
    ensures
        workspace_replaced(
            *old(session),
            *final(session),
            w as int,
            Workspace {
                cwd,
                git_branch: None,
                pull_request: None,
                ..old(session).workspaces@[w as int]
            },
        ),
{
    let space = &mut session.workspaces[w];
    space.cwd = cwd;
    space.git_branch = None;
    space.pull_request = None;
}

/// Pins the workspace in a place, or takes the pin away.
pub fn set_workspace_pinned(session: &mut Session, w: usize, pinned: bool)
    requires
        w < old(session).workspaces@.len(),
    ensures
        workspace_replaced(
            *old(session),
            *final(session),
            w as int,
            Workspace { pinned, ..old(session).workspaces@[w as int] },
        ),
{
    let space = &mut session.workspaces[w];
    space.pinned = pinned;
}

/// The place within a list of so many, or its end.
pub open spec fn capped(position: usize, len: int) -> int {
    if position <= len {
        position as int
    } else {
        len
    }
}

/// The workspaces once the one in a place has gone to a position.
pub open spec fn moved(spaces: Seq<Workspace>, w: int, position: usize) -> Seq<Workspace> {
    spaces.remove(w).insert(capped(position, spaces.len() - 1), spaces[w])
}

/// Takes the workspace in a place to a position. Returns its place.
pub fn move_workspace(session: &mut Session, w: usize, position: usize) -> (place: usize)
    requires
        w < old(session).workspaces@.len(),
    ensures
        final(session).workspaces@ == moved(old(session).workspaces@, w as int, position),
        *final(session) == (Session { workspaces: final(session).workspaces, ..*old(session) }),
        place == capped(position, old(session).workspaces@.len() - 1),
{
    let space = session.workspaces.remove(w);
    let place = if position <= session.workspaces.len() {
        position
    } else {
        session.workspaces.len()
    };
    session.workspaces.insert(place, space);
    place
}

/// The panes whose ids are not listed.
pub open spec fn panes_without(panes: Seq<Pane>, ids: Seq<Seq<char>>) -> Seq<Pane>
    decreases panes.len(),
{
    if panes.len() == 0 {
        Seq::empty()
    } else if ids.contains(panes.last().id@) {
        panes_without(panes.drop_last(), ids)
    } else {
        panes_without(panes.drop_last(), ids).push(panes.last())
    }
}

/// Drops the records of the listed panes.
pub fn drop_panes(panes: &mut Vec<Pane>, ids: &Vec<String>)
    ensures
        final(panes)@ == panes_without(old(panes)@, texts(ids@)),
{
    let ghost all = panes@;
    let ghost mut seen: int = 0;
    let mut i: usize = 0;
    assert(all.skip(0) =~= all);
    while i < panes.len()
        invariant
            i <= panes.len(),
            0 <= seen <= all.len(),
            i == panes_without(all.take(seen), texts(ids@)).len(),
            panes@ == panes_without(all.take(seen), texts(ids@)) + all.skip(seen),
        decreases all.len() - seen,
    {
        let ghost kept = panes_without(all.take(seen), texts(ids@));
        assert(panes@[i as int] == all.skip(seen)[0]);
        assert(all.take(seen + 1).drop_last() =~= all.take(seen));
        proof {
            crate::daemon::handlers::lists_is_contains(ids@, all[seen].id@);
        }
        if listed(ids, panes[i].id.as_str()) {
            let _gone = panes.remove(i);
            assert(panes@ =~= kept + all.skip(seen + 1));
        } else {
            i += 1;
            assert(panes@ =~= kept.push(all[seen]) + all.skip(seen + 1));
        }
        proof {
            seen = seen + 1;
        }
    }
    assert(all.take(seen) =~= all);
    assert(panes@ =~= panes_without(all, texts(ids@)));
}

/// `after` is the session `before` once the workspace in a place is closed: its panes are gone
/// with it, and where it was the active one, the one that now stands in its place is, or the
/// last.
pub open spec fn workspace_closed(before: Session, after: Session, w: int) -> bool {
    let spaces = before.workspaces@.remove(w);
    &&& after.workspaces@ == spaces
    &&& after.panes@ == panes_without(
        before.panes@,
        workspace_pane_ids(before.workspaces@[w]),
    )
    &&& after.active_workspace@ == if before.active_workspace@ == before.workspaces@[w].id@ {
        spaces[capped(w as usize, spaces.len() - 1)].id@
    } else {
        before.active_workspace@
    }
    &&& after == Session {
        workspaces: after.workspaces,
        panes: after.panes,
        active_workspace: after.active_workspace,
        ..before
    }
}

/// Closes the workspace in a place, which may not be the only one. Returns it.
pub fn close_workspace(session: &mut Session, w: usize) -> (closed: Workspace)
    requires
        w < old(session).workspaces@.len(),
        old(session).workspaces@.len() > 1,
    ensures
        workspace_closed(*old(session), *final(session), w as int),
        closed == old(session).workspaces@[w as int],
{
    let closed = session.workspaces.remove(w);
    let ids = closed.all_pane_ids();
    drop_panes(&mut session.panes, &ids);
    if same(session.active_workspace.as_str(), closed.id.as_str()) {
        let n = session.workspaces.len();
        let place = if w <= n - 1 {
            w
        } else {
            n - 1
        };
        session.active_workspace = session.workspaces[place].id.clone();
    }
    closed
}

/// Why a pane is not shown.
#[derive(Debug)]
pub enum FocusError {
    /// No workspace has the pane.
    Detached(String),
    /// The tab of the pane is gone.
    NoTab(String),
    /// The workspace does not show the pane.
    NotHere(String),
}

/// `r` and `after` are what comes of showing a pane, on whatever tab of whatever workspace it
/// is. A pane that its workspace does not show is not made the active one, but its workspace
/// is.
pub open spec fn focused(
    before: Session,
    after: Session,
    pane: Seq<char>,
    now: u64,
    r: Result<(), FocusError>,
) -> bool {
    let spaces = before.workspaces@;
    match holder_index(spaces, pane) {
        None => r matches Err(FocusError::Detached(p)) && p@ == pane && after == before,
        Some(w) => {
            let tab = tab_of_pane(spaces[w], pane);
            let space = after.workspaces@[w];
            if tab is Some && tab != opt_text(spaces[w].active_tab) && workspace_tab_index(
                spaces[w].tabs@,
                tab->0,
            ) is None {
                &&& r matches Err(FocusError::NoTab(t)) && t@ == tab->0
                &&& after.active_workspace@ == spaces[w].id@
                &&& after.workspaces@ == spaces
                &&& after == Session {
                    active_workspace: after.active_workspace,
                    workspaces: after.workspaces,
                    ..before
                }
            } else {
                exists|mid: Workspace| #[trigger]
                    on_tab(spaces[w], mid, tab) && {
                        &&& after.active_workspace@ == spaces[w].id@
                        &&& after.workspaces@ == spaces.update(w, space)
                        &&& if lists(mid.panes@, pane) {
                            &&& r is Ok
                            &&& activated(mid, space, pane)
                            &&& after.panes@ == acknowledged(before.panes@, seq![pane], now)
                        } else {
                            &&& r matches Err(FocusError::NotHere(p)) && p@ == pane
                            &&& space == mid
                            &&& after.panes@ == before.panes@
                        }
                        &&& after == Session {
                            active_workspace: after.active_workspace,
                            workspaces: after.workspaces,
                            panes: after.panes,
                            ..before
                        }
                    }
            }
        },
    }
}

/// Shows a pane: makes its workspace the active one, shows its tab, makes it the active pane,
/// and takes its finished turn as seen.
pub fn focus_pane(session: &mut Session, pane: &str, now: u64) -> (r: Result<(), FocusError>)
    ensures
        focused(*old(session), *final(session), pane@, now, r),
{
    let ghost spaces = session.workspaces@;
    let location = match find_pane_location(&session.workspaces, pane) {
        Some(l) => l,
        None => {
            return Err(FocusError::Detached(pane.to_string()));
        },
    };
    let w = location.workspace;
    session.active_workspace = session.workspaces[w].id.clone();
    let space = &mut session.workspaces[w];
    if let Some(tab) = location.tab {
        if !is_opt_text(&space.active_tab, tab.as_str()) {
            if !switch_tab(space, tab.as_str()) {
                assert(session.workspaces@ =~= spaces);
                return Err(FocusError::NoTab(tab));
            }
        }
    }
    let ghost mid = *space;
    assert(on_tab(spaces[w as int], mid, tab_of_pane(spaces[w as int], pane@)));
    if !listed(&space.panes, pane) {
        return Err(FocusError::NotHere(pane.to_string()));
    }
    space.active_pane = Some(pane.to_string());
    flush_active_tab(space);
    assert(activated(mid, *space, pane@));
    let mut seen: Vec<String> = Vec::new();
    seen.push(pane.to_string());
    assert(texts(seen@) =~= seq![pane@]);
    acknowledge_panes(&mut session.panes, &seen, now);
    Ok(())
}

/// `after` is the workspace `before` with a pane more, which is the active one.
pub open spec fn linked(before: Workspace, after: Workspace, id: Seq<char>) -> bool {
    &&& after.panes@.len() == before.panes@.len() + 1
    &&& after.panes@.drop_last() == before.panes@
    &&& after.panes@.last()@ == id
    &&& opt_text(after.active_pane) == Some(id)
    &&& after == Workspace { panes: after.panes, active_pane: after.active_pane, ..before }
}

/// Puts a pane on the active tab of a workspace and makes it the active one.
pub fn link_pane(workspace: &mut Workspace, id: &str)
    ensures
        linked(*old(workspace), *final(workspace), id@),
{
    let ghost before = workspace.panes@;
    workspace.panes.push(id.to_string());
    assert(workspace.panes@.drop_last() =~= before);
    workspace.active_pane = Some(id.to_string());
}

/// `after` is the session `before` once a pane has left where it was and is the active pane of
/// the workspace in a place.
pub open spec fn pane_moved(before: Session, after: Session, id: Seq<char>, w: int) -> bool {
    let spaces = before.workspaces@;
    &&& after.workspaces@.len() == spaces.len()
    &&& forall|i: int|
        0 <= i < spaces.len() && i != w ==> detached(spaces[i], #[trigger] after.workspaces@[i], id)
    &&& exists|mid: Workspace| #[trigger]
        detached(spaces[w], mid, id) && linked(mid, after.workspaces@[w], id)
    &&& after == Session { workspaces: after.workspaces, ..before }
}

/// Takes a pane to the workspace in a place.
pub fn move_pane(session: &mut Session, id: &str, w: usize)
    requires
        w < old(session).workspaces@.len(),
    ensures
        pane_moved(*old(session), *final(session), id@, w as int),
{
    let ghost before = *session;
    let mut i: usize = 0;
    while i < session.workspaces.len()
        invariant
            i <= session.workspaces@.len(),
            session.workspaces@.len() == before.workspaces@.len(),
            *session == (Session { workspaces: session.workspaces, ..before }),
            forall|k: int|
                0 <= k < i ==> detached(
                    before.workspaces@[k],
                    #[trigger] session.workspaces@[k],
                    id@,
                ),
            forall|k: int|
                i <= k < before.workspaces@.len() ==> #[trigger] session.workspaces@[k]
                    == before.workspaces@[k],
        decreases session.workspaces@.len() - i,
    {
        remove_pane_anywhere(&mut session.workspaces[i], id);
        i += 1;
    }
    let ghost mid = session.workspaces@[w as int];
    link_pane(&mut session.workspaces[w], id);
    assert(detached(before.workspaces@[w as int], mid, id@));
}

/// The place of the first workspace that shows both panes.
pub open spec fn shower_of_both(spaces: Seq<Workspace>, a: Seq<char>, b: Seq<char>) -> Option<int>
    decreases spaces.len(),
{
    if spaces.len() == 0 {
        None
    } else if lists(spaces[0].panes@, a) && lists(spaces[0].panes@, b) {
        Some(0)
    } else {
        match shower_of_both(spaces.drop_first(), a, b) {
            Some(i) => Some(i + 1),
            None => None,
        }
    }
}

/// The ids with the two exchanged.
pub open spec fn exchanged(ids: Seq<String>, a: Seq<char>, b: Seq<char>) -> Seq<Seq<char>> {
    Seq::new(
        ids.len(),
        |i: int|
            if ids[i]@ == a {
                b
            } else if ids[i]@ == b {
                a
            } else {
                ids[i]@
            },
    )
}

/// `r` and `after` are what comes of letting two panes change places.
pub open spec fn panes_swapped(
    before: Session,
    after: Session,
    a: Seq<char>,
    b: Seq<char>,
    r: Option<usize>,
) -> bool {
    match shower_of_both(before.workspaces@, a, b) {
        None => r is None && after == before,
        Some(w) => {
            let space = after.workspaces@[w];
            &&& r == Some(w as usize)
            &&& r->0 < before.workspaces@.len()
            &&& workspace_replaced(before, after, w, space)
            &&& space == Workspace { panes: space.panes, ..before.workspaces@[w] }
            &&& texts(space.panes@) == exchanged(before.workspaces@[w].panes@, a, b)
        },
    }
}

/// Lets two panes of a workspace change places. Returns the place of the workspace, where
/// there is one that shows both.
pub fn swap_panes(session: &mut Session, first: &str, second: &str) -> (r: Option<usize>)
    ensures
        panes_swapped(*old(session), *final(session), first@, second@, r),
{
    let ghost spaces = session.workspaces@;
    let mut w: usize = 0;
    assert(spaces.skip(0) =~= spaces);
    while w < session.workspaces.len() && !(listed(&session.workspaces[w].panes, first) && listed(
        &session.workspaces[w].panes,
        second,
    ))
        invariant
            w <= spaces.len(),
            session.workspaces@ == spaces,
            *session == *old(session),
            shower_of_both(spaces, first@, second@) == match shower_of_both(
                spaces.skip(w as int),
                first@,
                second@,
            ) {
                Some(k) => Some(k + w),
                None => None::<int>,
            },
        decreases spaces.len() - w,
    {
        assert(spaces.skip(w as int).drop_first() =~= spaces.skip(w + 1));
        assert(spaces.skip(w as int)[0] == spaces[w as int]);
        w += 1;
    }
    if w == session.workspaces.len() {
        assert(spaces.skip(w as int).len() == 0);
        return None;
    }
    assert(spaces.skip(w as int)[0] == spaces[w as int]);
    let mut panes: Vec<String> = Vec::new();
    let mut i: usize = 0;
    let ghost ids = spaces[w as int].panes@;
    while i < session.workspaces[w].panes.len()
        invariant
            w < session.workspaces@.len(),
            session.workspaces@ == spaces,
            ids == spaces[w as int].panes@,
            i <= ids.len(),
            panes@.len() == i,
            forall|k: int|
                0 <= k < i ==> (#[trigger] panes@[k])@ == exchanged(ids, first@, second@)[k],
        decreases ids.len() - i,
    {
        let id = session.workspaces[w].panes[i].as_str();
        if same(id, first) {
            panes.push(second.to_string());
        } else if same(id, second) {
            panes.push(first.to_string());
        } else {
            panes.push(id.to_string());
        }
        i += 1;
    }
    assert(texts(panes@) =~= exchanged(ids, first@, second@));
    let space = &mut session.workspaces[w];
    space.panes = panes;
    Some(w)
}

/// `after` is the session `before` once the pane has been taken out of it.
pub open spec fn taken(before: Session, after: Session, id: Seq<char>) -> bool {
    &&& after.panes@ == match pane_index(before.panes@, id) {
        Some(i) => before.panes@.remove(i),
        None => before.panes@,
    }
    &&& after.workspaces@.len() == before.workspaces@.len()
    &&& forall|i: int|
        0 <= i < before.workspaces@.len() ==> detached(
            before.workspaces@[i],
            #[trigger] after.workspaces@[i],
            id,
        )
    &&& after == Session { panes: after.panes, workspaces: after.workspaces, ..before }
}

/// Takes a pane that is killed out of the session, with what it had shown. Returns its record.
pub fn kill_pane(session: &mut Session, id: &str, output: Option<String>, now: u64) -> (r: Option<
    Pane,
>)
    ensures
        taken(*old(session), *final(session), id@),
        match pane_index(old(session).panes@, id@) {
            None => r is None,
            Some(i) => r matches Some(pane) && killed(
                old(session).panes@[i],
                pane,
                opt_text(output),
                now,
            ),
        },
{
    match take_pane(session, id) {
        None => None,
        Some(mut pane) => {
            finish_killed(&mut pane, output, now);
            Some(pane)
        },
    }
}

/// `after` is the session `before` once the panes have been taken out of it, one after the
/// other.
pub open spec fn all_taken(before: Session, after: Session, ids: Seq<Seq<char>>) -> bool
    decreases ids.len(),
{
    if ids.len() == 0 {
        after == before
    } else {
        exists|mid: Session|
            all_taken(before, mid, ids.drop_last()) && #[trigger] taken(mid, after, ids.last())
    }
}

/// The panes of a session that have exited, out of those that are listed, or out of all.
pub open spec fn exited_ids(panes: Seq<Pane>, scope: Option<Seq<Seq<char>>>) -> Seq<Seq<char>>
    decreases panes.len(),
{
    if panes.len() == 0 {
        Seq::empty()
    } else {
        let before = exited_ids(panes.drop_last(), scope);
        let pane = panes.last();
        if pane.status == PaneStatus::Exited && (scope is None || scope->0.contains(pane.id@)) {
            before.push(pane.id@)
        } else {
            before
        }
    }
}

/// The panes that a scope covers: those of the workspace in a place, or all.
pub open spec fn scope_ids(session: Session, w: Option<usize>) -> Option<Seq<Seq<char>>> {
    match w {
        Some(w) => Some(workspace_pane_ids(session.workspaces@[w as int])),
        None => None,
    }
}

/// Takes out of a session the panes that have exited: those of the workspace in a place, or
/// all. Returns their ids.
pub fn prune_exited(session: &mut Session, w: Option<usize>) -> (removed: Vec<String>)
    requires
        w matches Some(w) ==> w < old(session).workspaces@.len(),
    ensures
        texts(removed@) == exited_ids(old(session).panes@, scope_ids(*old(session), w)),
        all_taken(*old(session), *final(session), texts(removed@)),
{
    let ghost scope = scope_ids(*session, w);
    let ids = match w {
        Some(w) => session.workspaces[w].all_pane_ids(),
        None => Vec::new(),
    };
    let ghost panes = session.panes@;
    let mut removed: Vec<String> = Vec::new();
    let mut i: usize = 0;
    assert(panes.take(0) =~= Seq::empty());
    assert(texts(removed@) =~= Seq::empty());
    while i < session.panes.len()
        invariant
            i <= panes.len(),
            session.panes@ == panes,
            *session == *old(session),
            scope == scope_ids(*session, w),
            w is Some ==> scope == Some(texts(ids@)),
            texts(removed@) == exited_ids(panes.take(i as int), scope),
        decreases panes.len() - i,
    {
        assert(panes.take(i + 1).drop_last() =~= panes.take(i as int));
        let pane = &session.panes[i];
        proof {
            crate::daemon::handlers::lists_is_contains(ids@, pane.id@);
        }
        let ghost before = removed@;
        if pane.status == PaneStatus::Exited && (w.is_none() || listed(&ids, pane.id.as_str())) {
            removed.push(pane.id.clone());
            assert(texts(removed@) =~= texts(before).push(pane.id@));
        }
        i += 1;
    }
    assert(panes.take(i as int) =~= panes);
    let ghost all = texts(removed@);
    let ghost start = *session;
    let mut k: usize = 0;
    assert(all.take(0) =~= Seq::empty());
    while k < removed.len()
        invariant
            k <= removed.len(),
            all == texts(removed@),
            start == *old(session),
            all_taken(start, *session, all.take(k as int)),
        decreases removed.len() - k,
    {
        let ghost mid = *session;
        let _gone = take_pane(session, removed[k].as_str());
        assert(all.take(k + 1).drop_last() =~= all.take(k as int));
        assert(taken(mid, *session, all.take(k + 1).last()));
        k += 1;
    }
    assert(all.take(k as int) =~= all);
    removed
}

/// The ids of tabs.
pub open spec fn tab_id_list(tabs: Seq<WorkspaceTab>) -> Seq<Seq<char>> {
    Seq::new(tabs.len(), |i: int| tabs[i].id@)
}

/// The largest number that a tab of a workspace has or had.
pub open spec fn last_tab_number(w: Workspace) -> int {
    let here = largest_number("tab-"@, tab_id_list(w.tabs@));
    if here < w.next_tab_seq {
        w.next_tab_seq as int
    } else {
        here
    }
}

/// `after` is the workspace `before` with another tab, which it shows and which has no panes
/// yet.
pub open spec fn tab_added(before: Workspace, after: Workspace, title: Seq<char>) -> bool {
    let tab = after.tabs@.last();
    &&& after.tabs@.len() == before.tabs@.len() + 1
    &&& flushed_tabs(before, after.tabs@.drop_last())
    &&& is_new_tab(tab, "tab-"@ + decimal((last_tab_number(before) + 1) as nat), title)
    &&& after.panes@.len() == 0
    &&& opt_text(after.active_tab) == Some(tab.id@)
    &&& after == Workspace {
        tabs: after.tabs,
        panes: after.panes,
        active_tab: after.active_tab,
        next_tab_seq: (last_tab_number(before) + 1) as u64,
        active_pane: None,
        zoomed_pane: None,
        ..before
    }
}

/// Adds a tab to a workspace and shows it. Returns its id; none where numbers have run out.
pub fn add_tab(workspace: &mut Workspace, title: &str) -> (r: Option<String>)
    ensures
        match r {
            None => last_tab_number(*old(workspace)) == u64::MAX && *final(workspace)
                == *old(workspace),
            Some(id) => last_tab_number(*old(workspace)) != u64::MAX && tab_added(
                *old(workspace),
                *final(workspace),
                title@,
            ) && id@ == final(workspace).tabs@.last().id@,
        },
{
    let mut ids: Vec<String> = Vec::new();
    let mut i: usize = 0;
    while i < workspace.tabs.len()
        invariant
            i <= workspace.tabs@.len(),
            *workspace == *old(workspace),
            ids@.len() == i,
            forall|k: int| 0 <= k < i ==> (#[trigger] ids@[k])@ == workspace.tabs@[k].id@,
        decreases workspace.tabs@.len() - i,
    {
        ids.push(workspace.tabs[i].id.clone());
        i += 1;
    }
    assert(texts(ids@) =~= tab_id_list(workspace.tabs@));
    let here = highest_number("tab-", &ids);
    let last: u64 = if here < workspace.next_tab_seq {
        workspace.next_tab_seq
    } else {
        here
    };
    if last == u64::MAX {
        return None;
    }
    let mut id = "tab-".to_string();
    push_chars(&mut id, decimal_chars(last + 1).as_slice());
    proof {
        if active_tab_index(*workspace) is Some {
            workspace_tab_index_is_first(workspace.tabs@, opt_text(workspace.active_tab)->0);
        }
    }
    flush_active_tab(workspace);
    let ghost flushed = workspace.tabs@;
    workspace.tabs.push(WorkspaceTab::new(id.as_str(), title));
    assert(workspace.tabs@.drop_last() =~= flushed);
    workspace.panes = Vec::new();
    workspace.active_pane = None;
    workspace.zoomed_pane = None;
    workspace.active_tab = Some(id.clone());
    workspace.next_tab_seq = last + 1;
    Some(id)
}

/// A tab's id is not given again, whatever became of the tab: of two tabs that a workspace was
/// given one after the other, with changes between that leave its count of tabs alone, the
/// ids differ, and no tab that is there when a tab comes has the new tab's id.
pub proof fn tab_ids_are_fresh(
    first: Workspace,
    with_first: Workspace,
    second: Workspace,
    with_second: Workspace,
    title: Seq<char>,
    other: Seq<char>,
)
    requires
        tab_added(first, with_first, title),
        last_tab_number(first) < u64::MAX,
        second.next_tab_seq == with_first.next_tab_seq,
        tab_added(second, with_second, other),
        last_tab_number(second) < u64::MAX,
    ensures
        with_second.tabs@.last().id@ != with_first.tabs@.last().id@,
        forall|i: int|
            0 <= i < second.tabs@.len() ==> (#[trigger] second.tabs@[i]).id@
                != with_second.tabs@.last().id@,
{
    let n = (last_tab_number(first) + 1) as nat;
    let m = (last_tab_number(second) + 1) as nat;
    id_numbers_read_back("tab-"@, n);
    id_numbers_read_back("tab-"@, m);
    assert forall|i: int| 0 <= i < second.tabs@.len() implies (#[trigger] second.tabs@[i]).id@
        != with_second.tabs@.last().id@ by {
        numbers_are_within("tab-"@, tab_id_list(second.tabs@), i);
        assert(tab_id_list(second.tabs@)[i] == second.tabs@[i].id@);
    }
}

/// `after` is the workspace `before` once the tab in a place has a title, which was given by
/// hand.
pub open spec fn tab_renamed(before: Workspace, after: Workspace, i: int, title: Seq<char>) -> bool {
    let tab = after.tabs@[i];
    &&& after.tabs@ == before.tabs@.update(i, tab)
    &&& tab == WorkspaceTab { title: tab.title, title_locked: true, ..before.tabs@[i] }
    &&& tab.title@ == title
    &&& after == Workspace { tabs: after.tabs, ..before }
}

/// Gives the tab in a place a title.
pub fn rename_tab(workspace: &mut Workspace, i: usize, title: String)
    requires
        i < old(workspace).tabs@.len(),
    ensures
        tab_renamed(*old(workspace), *final(workspace), i as int, title@),
{
    let tab = &mut workspace.tabs[i];
    tab.title = title;
    tab.title_locked = true;
}

/// The workspace shows the tab.
pub open spec fn shows_tab(w: Workspace, tab: WorkspaceTab) -> bool {
    &&& w.panes@ == tab.panes@
    &&& w.active_pane == tab.active_pane
    &&& w.zoomed_pane == tab.zoomed_pane
    &&& opt_text(w.active_tab) == Some(tab.id@)
}

/// `after` is the workspace `before` once the tab in a place is closed, with the panes that it
/// showed. Where it was the active one, the tab that now stands in its place is shown, or the
/// last.
pub open spec fn tab_closed(
    before: Workspace,
    after: Workspace,
    i: int,
    gone: Seq<String>,
) -> bool {
    exists|flushed: Seq<WorkspaceTab>| #[trigger]
        flushed_tabs(before, flushed) && {
            &&& after.tabs@ == flushed.remove(i)
            &&& gone == flushed[i].panes@
            &&& if opt_text(before.active_tab) == Some(before.tabs@[i].id@) {
                &&& shows_tab(after, after.tabs@[capped(i as usize, after.tabs@.len() - 1)])
                &&& after == Workspace {
                    tabs: after.tabs,
                    panes: after.panes,
                    active_pane: after.active_pane,
                    zoomed_pane: after.zoomed_pane,
                    active_tab: after.active_tab,
                    ..before
                }
            } else {
                after == Workspace { tabs: after.tabs, ..before }
            }
        }
}

/// Closes the tab in a place, which may not be the only one. Returns the panes that it showed.
pub fn close_tab(workspace: &mut Workspace, i: usize) -> (gone: Vec<String>)
    requires
        i < old(workspace).tabs@.len(),
        old(workspace).tabs@.len() > 1,
    ensures
        tab_closed(*old(workspace), *final(workspace), i as int, gone@),
{
    let ghost before = *workspace;
    let active = is_opt_text(&workspace.active_tab, workspace.tabs[i].id.as_str());
    flush_active_tab(workspace);
    let ghost flushed = workspace.tabs@;
    proof {
        if active_tab_index(before) is Some {
            workspace_tab_index_is_first(before.tabs@, opt_text(before.active_tab)->0);
        }
    }
    let closed = workspace.tabs.remove(i);
    assert(flushed_tabs(before, flushed));
    if active {
        let n = workspace.tabs.len();
        let place = if i <= n - 1 {
            i
        } else {
            n - 1
        };
        workspace.panes = crate::daemon::handlers::clone_texts(&workspace.tabs[place].panes);
        workspace.active_pane = clone_opt(&workspace.tabs[place].active_pane);
        workspace.zoomed_pane = clone_opt(&workspace.tabs[place].zoomed_pane);
        workspace.active_tab = Some(workspace.tabs[place].id.clone());
    }
    closed.panes
}

/// None of the panes that stay is listed.
proof fn unlisted_stay(panes: Seq<Pane>, ids: Seq<Seq<char>>)
    ensures
        forall|i: int|
            0 <= i < panes_without(panes, ids).len() ==> !ids.contains(
                (#[trigger] panes_without(panes, ids)[i]).id@,
            ),
    decreases panes.len(),
{
    if panes.len() > 0 {
        unlisted_stay(panes.drop_last(), ids);
        let before = panes_without(panes.drop_last(), ids);
        let after = panes_without(panes, ids);
        assert forall|i: int| 0 <= i < after.len() implies !ids.contains(
            (#[trigger] after[i]).id@,
        ) by {
            if i < before.len() {
                assert(after[i] == before[i]);
            }
        }
    }
}

/// Of a closed workspace no pane is left, on whatever tab it was.
pub proof fn closed_panes_are_gone(before: Session, after: Session, w: int)
    requires
        workspace_closed(before, after, w),
    ensures
        forall|i: int|
            0 <= i < after.panes@.len() ==> !workspace_pane_ids(before.workspaces@[w]).contains(
                (#[trigger] after.panes@[i]).id@,
            ),
{
    unlisted_stay(before.panes@, workspace_pane_ids(before.workspaces@[w]));
}

/// The place of the first workspace with an id stays when one of them changes and keeps its id.
proof fn place_stays(spaces: Seq<Workspace>, w: int, space: Workspace, id: Seq<char>)
    requires
        0 <= w < spaces.len(),
        space.id@ == spaces[w].id@,
    ensures
        workspace_index(spaces.update(w, space), id) == workspace_index(spaces, id),
    decreases spaces.len(),
{
    let after = spaces.update(w, space);
    if spaces[0].id@ != id {
        if w == 0 {
            assert(after.drop_first() =~= spaces.drop_first());
        } else {
            assert(after.drop_first() =~= spaces.drop_first().update(w - 1, space));
            place_stays(spaces.drop_first(), w - 1, space, id);
        }
    }
}

/// The place of a holder lies within the list.
proof fn holder_is_a_place(spaces: Seq<Workspace>, pane: Seq<char>)
    ensures
        holder_index(spaces, pane) matches Some(w) ==> 0 <= w < spaces.len(),
    decreases spaces.len(),
{
    if spaces.len() > 0 {
        holder_is_a_place(spaces.drop_first(), pane);
    }
}

/// A pane that is shown is the active pane of the active workspace, on whatever tab of
/// whatever workspace it was.
pub proof fn focus_shows_the_pane(
    before: Session,
    after: Session,
    pane: Seq<char>,
    now: u64,
    r: Result<(), FocusError>,
)
    requires
        focused(before, after, pane, now, r),
        r is Ok,
        forall|i: int, j: int|
            0 <= i < j < before.workspaces@.len() ==> (#[trigger] before.workspaces@[i]).id@ != (
            #[trigger] before.workspaces@[j]).id@,
    ensures
        crate::daemon::handlers::active_pane_of(after) == Some(pane),
{
    let spaces = before.workspaces@;
    holder_is_a_place(spaces, pane);
    let w = holder_index(spaces, pane)->0;
    let space = after.workspaces@[w];
    place_stays(spaces, w, space, spaces[w].id@);
    first_place(spaces, w);
}

/// A workspace whose id no other has is found by it.
proof fn first_place(spaces: Seq<Workspace>, w: int)
    requires
        0 <= w < spaces.len(),
        forall|i: int, j: int|
            0 <= i < j < spaces.len() ==> (#[trigger] spaces[i]).id@ != (#[trigger] spaces[j]).id@,
    ensures
        workspace_index(spaces, spaces[w].id@) == Some(w),
    decreases spaces.len(),
{
    if w > 0 {
        let rest = spaces.drop_first();
        assert forall|i: int, j: int| 0 <= i < j < rest.len() implies (#[trigger] rest[i]).id@ != (
        #[trigger] rest[j]).id@ by {
            assert(rest[i] == spaces[i + 1] && rest[j] == spaces[j + 1]);
        }
        assert(rest[w - 1] == spaces[w]);
        first_place(rest, w - 1);
        assert(spaces[0].id@ != spaces[w].id@);
    }
}

} // verus!

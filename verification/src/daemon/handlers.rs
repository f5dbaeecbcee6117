//! What requests to a session do to it.
use crate::daemon::live::{PaneRuntime, ViewLease};
use crate::daemon::output::trim_output;
use crate::daemon::panes::{
    holds_pane, listed, lists, normalize_metadata_key, normalize_required_pane_title,
    sync_active_pane_tab, tabs_mirroring, KeyError, TitleError,
};
use crate::daemon::runtime::{sane, sanitize_pane_size};
use crate::daemon::session::{logged, next_id, push_event};
use crate::daemon::view_size::{
    clamp_lease_ms, effective, effective_pane_size, VIEW_LEASE_MS_MAX, VIEW_LEASE_MS_MIN,
};
use crate::model::{
    acknowledge_done_status, event_views, find_pane, notes, pane_index, touch_agent_status,
    AgentStatus, BroadcastScope, ClipboardItem, EventRecord, EventView, NoteView, Notification,
    Pane, PaneSize, PaneStatus, Session, SplitDirection, Workspace, WorkspaceTab,
};
use crate::text::chars::{
    blank, chars_of, clone_opt, contains_chars, has_text, is_blank, is_opt_text, opt_str, opt_text,
    same, string_of, texts, trim_text, trimmed, views,
};
use crate::text::lines::{line_list, split_lines};
use crate::text::numbers::{decimal, decimal_chars};
use crate::text::pairs::{remove_key, set_pair, with_pair, without_key};
use crate::text::utf8::tail_within;
use vstd::prelude::*;

verus! {

/// Why a request names no pane.
#[derive(Debug)]
pub enum PaneError {
    /// No pane was named and none is active.
    NoActive,
    /// There is no pane with the id.
    Unknown(String),
}

/// The place of the first workspace with the id.
pub open spec fn workspace_index(workspaces: Seq<Workspace>, id: Seq<char>) -> Option<int>
    decreases workspaces.len(),
{
    if workspaces.len() == 0 {
        None
    } else if workspaces[0].id@ == id {
        Some(0)
    } else {
        match workspace_index(workspaces.drop_first(), id) {
            Some(i) => Some(i + 1),
            None => None,
        }
    }
}

/// The place of the first workspace with the id.
pub fn find_workspace(workspaces: &Vec<Workspace>, id: &str) -> (r: Option<usize>)
    ensures
        r matches Some(i) ==> workspace_index(workspaces@, id@) == Some(i as int) && i
            < workspaces@.len(),
        r is None ==> workspace_index(workspaces@, id@) is None,
{
    let mut i: usize = 0;
    assert(workspaces@.skip(0) =~= workspaces@);
    while i < workspaces.len()
        invariant
            i <= workspaces.len(),
            workspace_index(workspaces@, id@) == match workspace_index(
                workspaces@.skip(i as int),
                id@,
            ) {
                Some(k) => Some(k + i),
                None => None,
            },
        decreases workspaces.len() - i,
    {
        assert(workspaces@.skip(i as int).drop_first() =~= workspaces@.skip(i + 1));
        if same(workspaces[i].id.as_str(), id) {
            return Some(i);
        }
        i += 1;
    }
    None
}

/// The active pane of the active workspace.
pub open spec fn active_pane_of(session: Session) -> Option<Seq<char>> {
    match workspace_index(session.workspaces@, session.active_workspace@) {
        Some(i) => opt_text(session.workspaces@[i].active_pane),
        None => None,
    }
}

/// The pane that a request names: trimmed, or the active one where it names none.
pub open spec fn named_pane(session: Session, pane: Option<Seq<char>>) -> Option<Seq<char>> {
    match pane {
        Some(p) => if is_blank(p) {
            active_pane_of(session)
        } else {
            Some(trimmed(p))
        },
        None => active_pane_of(session),
    }
}

/// What a request names.
pub enum Naming {
    /// A pane that is there.
    Pane(Seq<char>),
    /// No pane was named and none is active.
    NoActive,
    /// There is no pane with the id.
    Unknown(Seq<char>),
}

/// What a request names.
pub open spec fn naming(session: Session, pane: Option<Seq<char>>) -> Naming {
    match named_pane(session, pane) {
        None => Naming::NoActive,
        Some(id) => if pane_index(session.panes@, id) is Some {
            Naming::Pane(id)
        } else {
            Naming::Unknown(id)
        },
    }
}

/// The error says why a request names no pane.
pub open spec fn is_pane_error(n: Naming, e: PaneError) -> bool {
    match n {
        Naming::Pane(_) => false,
        Naming::NoActive => e is NoActive,
        Naming::Unknown(id) => e matches PaneError::Unknown(got) && got@ == id,
    }
}

/// The id of the pane that a request names, where there is such a pane.
pub fn resolve_pane(session: &Session, pane: Option<&str>) -> (r: Result<String, PaneError>)
    ensures
        match r {
            Ok(id) => naming(*session, opt_str(pane)) == Naming::Pane(id@),
            Err(e) => is_pane_error(naming(*session, opt_str(pane)), e),
        },
{
    let named = match pane {
        Some(p) => if blank(p) {
            None
        } else {
            Some(trim_text(p))
        },
        None => None,
    };
    let id = match named {
        Some(id) => id,
        None => {
            let active = match find_workspace(
                &session.workspaces,
                session.active_workspace.as_str(),
            ) {
                Some(i) => clone_opt(&session.workspaces[i].active_pane),
                None => None,
            };
            match active {
                Some(id) => id,
                None => {
                    return Err(PaneError::NoActive);
                },
            }
        },
    };
    if find_pane(&session.panes, id.as_str()).is_some() {
        Ok(id)
    } else {
        Err(PaneError::Unknown(id))
    }
}

/// `after` is the session `before` once the pane has the title, trimmed.
pub open spec fn pane_titled(
    before: Session,
    after: Session,
    pane_id: Seq<char>,
    title: Seq<char>,
    now: u64,
) -> bool {
    &&& after == Session { panes: after.panes, ..before }
    &&& match pane_index(before.panes@, pane_id) {
        None => after.panes@ == before.panes@,
        Some(i) => {
            let old_pane = before.panes@[i];
            let pane = after.panes@[i];
            &&& after.panes@ == before.panes@.update(i, pane)
            &&& pane == Pane { title: pane.title, updated_at: now, tabs: pane.tabs, ..old_pane }
            &&& pane.title@ == trimmed(title)
            &&& pane.tabs@ == match opt_text(old_pane.active_tab) {
                Some(id) => tabs_mirroring(old_pane.tabs@, id, pane, now),
                None => old_pane.tabs@,
            }
        },
    }
}

/// Gives a pane a title, in the session. The title is trimmed and may not be empty.
pub fn set_pane_title(session: &mut Session, pane_id: &str, title: String, now: u64) -> (r: Result<
    bool,
    TitleError,
>)
    ensures
        r is Err <==> is_blank(title@),
        r is Err ==> *final(session) == *old(session),
        r matches Ok(found) ==> found == (pane_index(old(session).panes@, pane_id@) is Some),
        r matches Ok(_) ==> pane_titled(*old(session), *final(session), pane_id@, title@, now),
{
    let title = match normalize_required_pane_title(title) {
        Ok(t) => t,
        Err(e) => {
            return Err(e);
        },
    };
    match find_pane(&session.panes, pane_id) {
        Some(i) => {
            let pane = &mut session.panes[i];
            pane.title = title;
            pane.updated_at = now;
            sync_active_pane_tab(pane, now);
            Ok(true)
        },
        None => Ok(false),
    }
}

/// The event that a change of metadata leaves in the log.
pub open spec fn metadata_event(
    pane: Seq<char>,
    key: Seq<char>,
    value: Option<Seq<char>>,
    now: u64,
) -> EventView {
    EventView {
        id: 0,
        time: now,
        kind: "metadata"@,
        pane: Some(pane),
        workspace: None,
        status: None,
        key: Some(key),
        value,
        message: ""@,
    }
}

/// The value that a key gets: trimmed, and none where it is empty.
pub open spec fn metadata_value(value: Option<Seq<char>>) -> Option<Seq<char>> {
    match value {
        Some(v) => if is_blank(v) {
            None
        } else {
            Some(trimmed(v))
        },
        None => None,
    }
}

/// `after` is `before` once the key has the value, or is gone where there is none.
pub open spec fn metadata_set(
    before: Seq<(String, String)>,
    after: Seq<(String, String)>,
    key: Seq<char>,
    value: Option<Seq<char>>,
) -> bool {
    match value {
        Some(v) => exists|pair: (String, String)|
            pair.0@ == key && pair.1@ == v && after == #[trigger] with_pair(before, pair),
        None => after == without_key(before, key),
    }
}

/// A key that metadata can have, once it is trimmed.
pub open spec fn is_metadata_key(key: Seq<char>) -> bool {
    !is_blank(key) && !crate::daemon::panes::has_white(trimmed(key))
}

/// `after` is the session `before` once the pane, which is there, has the value under the key.
pub open spec fn metadata_noted(
    before: Session,
    after: Session,
    pane_id: Seq<char>,
    key: Seq<char>,
    value: Option<Seq<char>>,
    now: u64,
) -> bool {
    let i = pane_index(before.panes@, pane_id)->0;
    let pane = after.panes@[i];
    &&& after.panes@ == before.panes@.update(i, pane)
    &&& pane == Pane { metadata: pane.metadata, updated_at: now, ..before.panes@[i] }
    &&& metadata_set(
        before.panes@[i].metadata@,
        pane.metadata@,
        trimmed(key),
        metadata_value(value),
    )
    &&& event_views(after.events@) == logged(
        event_views(before.events@),
        before.next_event_id,
        metadata_event(pane_id, trimmed(key), metadata_value(value), now),
    )
    &&& after == Session {
        panes: after.panes,
        events: after.events,
        next_event_id: next_id(before.next_event_id),
        ..before
    }
}

/// Metadata of panes that can grow.
pub open spec fn metadata_fits(panes: Seq<Pane>) -> bool {
    forall|i: int| 0 <= i < panes.len() ==> (#[trigger] panes[i]).metadata@.len() < usize::MAX
}

/// Sets or removes a key of a pane's metadata, in the session. Says whether there is such
/// a pane.
pub fn set_pane_metadata(
    session: &mut Session,
    pane_id: &str,
    key: &str,
    value: Option<&str>,
    now: u64,
) -> (r: Result<bool, KeyError>)
    requires
        metadata_fits(old(session).panes@),
    ensures
        r is Err <==> !is_metadata_key(key@),
        r matches Err(e) ==> e == if is_blank(key@) {
            KeyError::Empty
        } else {
            KeyError::WhiteSpace
        },
        r is Err ==> *final(session) == *old(session),
        r matches Ok(found) ==> found == (pane_index(old(session).panes@, pane_id@) is Some),
        r == Ok::<bool, KeyError>(false) ==> *final(session) == *old(session),
        r == Ok::<bool, KeyError>(true) ==> metadata_noted(
            *old(session),
            *final(session),
            pane_id@,
            key@,
            opt_str(value),
            now,
        ),
{
    let key = match normalize_metadata_key(key) {
        Ok(k) => k,
        Err(e) => {
            return Err(e);
        },
    };
    let value = match value {
        Some(v) => if blank(v) {
            None
        } else {
            Some(trim_text(v))
        },
        None => None,
    };
    let i = match find_pane(&session.panes, pane_id) {
        Some(i) => i,
        None => {
            return Ok(false);
        },
    };
    {
        let pane = &mut session.panes[i];
        let ghost held = pane.metadata@;
        match &value {
            Some(v) => {
                let k = key.clone();
                let w = v.clone();
                set_pair(&mut pane.metadata, k, w);
                assert(pane.metadata@ == with_pair(held, (k, w)));
            },
            None => {
                remove_key(&mut pane.metadata, key.as_str());
            },
        }
        pane.updated_at = now;
    }
    let event = EventRecord {
        id: 0,
        time: now,
        kind: "metadata".to_string(),
        pane: Some(pane_id.to_string()),
        workspace: None,
        status: None,
        key: Some(key),
        value,
        message: "".to_string(),
    };
    push_event(session, event);
    Ok(true)
}

/// A percentage of at most a hundred.
pub open spec fn capped_percent(value: Option<u8>) -> Option<u8> {
    match value {
        Some(v) => Some(
            if v <= 100 {
                v
            } else {
                100
            },
        ),
        None => None,
    }
}

/// The event that a progress report leaves in the log.
pub open spec fn progress_event(pane: Seq<char>, value: Option<u8>, now: u64) -> EventView {
    let text = match value {
        Some(v) => Some(decimal(v as nat)),
        None => None,
    };
    EventView {
        id: 0,
        time: now,
        kind: "progress"@,
        pane: Some(pane),
        workspace: None,
        status: text,
        key: None,
        value: text,
        message: ""@,
    }
}

fn percent_text(value: Option<u8>) -> (r: Option<String>)
    ensures
        opt_text(r) == match value {
            Some(v) => Some(decimal(v as nat)),
            None => None,
        },
{
    match value {
        Some(v) => {
            let digits = decimal_chars(v as u64);
            Some(string_of(digits.as_slice()))
        },
        None => None,
    }
}

/// `after` is the session `before` once the pane, which is there, has the progress.
pub open spec fn progress_noted(
    before: Session,
    after: Session,
    pane_id: Seq<char>,
    value: Option<u8>,
    now: u64,
) -> bool {
    let i = pane_index(before.panes@, pane_id)->0;
    &&& after.panes@ == before.panes@.update(
        i,
        Pane { progress: capped_percent(value), updated_at: now, ..before.panes@[i] },
    )
    &&& event_views(after.events@) == logged(
        event_views(before.events@),
        before.next_event_id,
        progress_event(pane_id, capped_percent(value), now),
    )
    &&& after == Session {
        panes: after.panes,
        events: after.events,
        next_event_id: next_id(before.next_event_id),
        ..before
    }
}

/// Sets or removes the progress of a pane, in the session. Says whether there is such a pane.
pub fn set_progress(session: &mut Session, pane_id: &str, value: Option<u8>, now: u64) -> (found: bool)
    ensures
        found == (pane_index(old(session).panes@, pane_id@) is Some),
        !found ==> *final(session) == *old(session),
        found ==> progress_noted(*old(session), *final(session), pane_id@, value, now),
{
    let value = match value {
        Some(v) => Some(
            if v <= 100 {
                v
            } else {
                100
            },
        ),
        None => None,
    };
    let i = match find_pane(&session.panes, pane_id) {
        Some(i) => i,
        None => {
            return false;
        },
    };
    {
        let pane = &mut session.panes[i];
        pane.progress = value;
        pane.updated_at = now;
    }
    let event = EventRecord {
        id: 0,
        time: now,
        kind: "progress".to_string(),
        pane: Some(pane_id.to_string()),
        workspace: None,
        status: percent_text(value),
        key: None,
        value: percent_text(value),
        message: "".to_string(),
    };
    push_event(session, event);
    true
}

/// Empties the notification feed. Returns how many were in it.
pub fn clear_notifications(session: &mut Session) -> (cleared: usize)
    ensures
        cleared == old(session).notifications@.len(),
        final(session).notifications@.len() == 0,
        *final(session) == (Session {
            notifications: final(session).notifications,
            ..*old(session)
        }),
{
    let cleared = session.notifications.len();
    session.notifications.clear();
    cleared
}

/// How many of `len` entries are shown where `limit` are asked for, at least one and at most
/// `max`.
pub open spec fn shown_count(len: nat, limit: usize, max: usize) -> nat {
    let wanted = if limit < 1 {
        1
    } else if limit > max {
        max as nat
    } else {
        limit as nat
    };
    if len <= wanted {
        len
    } else {
        wanted
    }
}

/// The places of the entries that are shown, the newest first.
pub fn newest_first(len: usize, limit: usize, max: usize) -> (r: Vec<usize>)
    requires
        max >= 1,
    ensures
        r@.len() == shown_count(len as nat, limit, max),
        forall|i: int| 0 <= i < r@.len() ==> #[trigger] r@[i] == len - 1 - i,
{
    let wanted: usize = if limit < 1 {
        1
    } else if limit > max {
        max
    } else {
        limit
    };
    let mut out: Vec<usize> = Vec::new();
    let mut n: usize = 0;
    while n < wanted && n < len
        invariant
            n <= wanted,
            n <= len,
            out@.len() == n,
            forall|i: int| 0 <= i < n ==> #[trigger] out@[i] == len - 1 - i,
        decreases len - n,
    {
        out.push(len - 1 - n);
        n += 1;
    }
    out
}

/// A notification that a jump can go to: it says something and clears nothing.
pub open spec fn is_visible(note: NoteView) -> bool {
    !note.clear && note.message.len() > 0
}

/// A visible notification that wants its user: attention, an error, or no status at all.
pub open spec fn is_urgent(note: NoteView) -> bool {
    is_visible(note) && (note.status is None || note.status == Some("attention"@) || note.status
        == Some("error"@))
}

/// The place of the last notification that wants its user, or else of the last visible one.
pub open spec fn jump_index(feed: Seq<NoteView>) -> Option<int> {
    match last_where(feed, |n: NoteView| is_urgent(n)) {
        Some(i) => Some(i),
        None => last_where(feed, |n: NoteView| is_visible(n)),
    }
}

/// The place of the last entry with the property.
pub open spec fn last_where(feed: Seq<NoteView>, p: spec_fn(NoteView) -> bool) -> Option<int>
    decreases feed.len(),
{
    if feed.len() == 0 {
        None
    } else if p(feed.last()) {
        Some(feed.len() - 1)
    } else {
        last_where(feed.drop_last(), p)
    }
}

/// The place of the notification that a jump goes to.
pub fn jump_target(feed: &Vec<Notification>) -> (r: Option<usize>)
    ensures
        r matches Some(i) ==> jump_index(notes(feed@)) == Some(i as int) && i < feed@.len(),
        r is None ==> jump_index(notes(feed@)) is None,
{
    let ghost all = notes(feed@);
    let ghost urgent = |n: NoteView| is_urgent(n);
    let ghost visible = |n: NoteView| is_visible(n);
    let mut newest_visible: Option<usize> = None;
    let mut n: usize = feed.len();
    assert(all.take(n as int) =~= all);
    while n > 0
        invariant
            n <= feed.len(),
            all == notes(feed@),
            urgent == (|n: NoteView| is_urgent(n)),
            visible == (|n: NoteView| is_visible(n)),
            last_where(all.take(n as int), urgent) == last_where(all, urgent),
            match newest_visible {
                Some(v) => v < feed.len() && last_where(all, visible) == Some(v as int),
                None => last_where(all.take(n as int), visible) == last_where(all, visible),
            },
        decreases n,
    {
        let note = &feed[n - 1];
        assert(all.take(n as int).last() == note@);
        assert(all.take(n as int).drop_last() =~= all.take(n - 1));
        if !note.clear && !note.message.as_str().is_empty() {
            if newest_visible.is_none() {
                newest_visible = Some(n - 1);
            }
            if note.status.is_none() || is_opt_text(&note.status, "attention") || is_opt_text(
                &note.status,
                "error",
            ) {
                return Some(n - 1);
            }
        }
        n -= 1;
    }
    newest_visible
}

/// Where a pane is.
pub struct PaneLocation {
    pub workspace: usize,
    /// The tab that shows it, where it is known.
    pub tab: Option<String>,
}

/// The place of the first tab that shows the pane.
pub open spec fn tab_showing(tabs: Seq<WorkspaceTab>, pane: Seq<char>) -> Option<int>
    decreases tabs.len(),
{
    if tabs.len() == 0 {
        None
    } else if lists(tabs[0].panes@, pane) {
        Some(0)
    } else {
        match tab_showing(tabs.drop_first(), pane) {
            Some(i) => Some(i + 1),
            None => None,
        }
    }
}

/// The tab of a workspace that shows the pane: the active one where it does.
pub open spec fn tab_of_pane(w: Workspace, pane: Seq<char>) -> Option<Seq<char>> {
    if lists(w.panes@, pane) {
        opt_text(w.active_tab)
    } else {
        match tab_showing(w.tabs@, pane) {
            Some(i) => Some(w.tabs@[i].id@),
            None => None,
        }
    }
}

/// The place of the first workspace that holds the pane.
pub open spec fn holder_index(workspaces: Seq<Workspace>, pane: Seq<char>) -> Option<int>
    decreases workspaces.len(),
{
    if workspaces.len() == 0 {
        None
    } else if holds_pane(workspaces[0], pane) {
        Some(0)
    } else {
        match holder_index(workspaces.drop_first(), pane) {
            Some(i) => Some(i + 1),
            None => None,
        }
    }
}

/// The first workspace that holds the pane, and its tab.
pub fn find_pane_location(workspaces: &Vec<Workspace>, pane: &str) -> (r: Option<PaneLocation>)
    ensures
        r is None ==> holder_index(workspaces@, pane@) is None,
        r matches Some(l) ==> l.workspace < workspaces@.len() && holder_index(workspaces@, pane@)
            == Some(l.workspace as int) && opt_text(l.tab) == tab_of_pane(
            workspaces@[l.workspace as int],
            pane@,
        ),
{
    let mut i: usize = 0;
    assert(workspaces@.skip(0) =~= workspaces@);
    while i < workspaces.len()
        invariant
            i <= workspaces.len(),
            holder_index(workspaces@, pane@) == match holder_index(
                workspaces@.skip(i as int),
                pane@,
            ) {
                Some(k) => Some(k + i),
                None => None,
            },
        decreases workspaces.len() - i,
    {
        assert(workspaces@.skip(i as int).drop_first() =~= workspaces@.skip(i + 1));
        let w = &workspaces[i];
        if w.contains_pane(pane) {
            let tab = if listed(&w.panes, pane) {
                clone_opt(&w.active_tab)
            } else {
                match find_tab_showing(&w.tabs, pane) {
                    Some(k) => Some(w.tabs[k].id.clone()),
                    None => None,
                }
            };
            return Some(PaneLocation { workspace: i, tab });
        }
        i += 1;
    }
    None
}

fn find_tab_showing(tabs: &Vec<WorkspaceTab>, pane: &str) -> (r: Option<usize>)
    ensures
        r matches Some(i) ==> tab_showing(tabs@, pane@) == Some(i as int) && i < tabs@.len(),
        r is None ==> tab_showing(tabs@, pane@) is None,
{
    let mut i: usize = 0;
    assert(tabs@.skip(0) =~= tabs@);
    while i < tabs.len()
        invariant
            i <= tabs.len(),
            tab_showing(tabs@, pane@) == match tab_showing(tabs@.skip(i as int), pane@) {
                Some(k) => Some(k + i),
                None => None,
            },
        decreases tabs.len() - i,
    {
        assert(tabs@.skip(i as int).drop_first() =~= tabs@.skip(i + 1));
        if listed(&tabs[i].panes, pane) {
            return Some(i);
        }
        i += 1;
    }
    None
}

/// A line that holds what was searched for.
pub struct SearchMatch {
    /// The number of the line, from one.
    pub line: usize,
    pub text: String,
}

/// The lines among the first `n` that hold the query, by number.
pub open spec fn search_hits(lines: Seq<Seq<char>>, query: Seq<char>) -> Seq<(int, Seq<char>)>
    decreases lines.len(),
{
    if lines.len() == 0 {
        Seq::empty()
    } else {
        let before = search_hits(lines.drop_last(), query);
        if has_text(lines.last(), query) {
            before.push((lines.len() as int, lines.last()))
        } else {
            before
        }
    }
}

/// What a list of matches says.
pub open spec fn match_views(v: Seq<SearchMatch>) -> Seq<(int, Seq<char>)> {
    Seq::new(v.len(), |i: int| (v[i].line as int, v[i].text@))
}

/// The lines of a text that hold the query.
pub fn search_lines(text: &str, query: &str) -> (r: Vec<SearchMatch>)
    ensures
        match_views(r@) == search_hits(line_list(text@), query@),
{
    let chars = chars_of(text);
    let needle = chars_of(query);
    let lines = split_lines(chars.as_slice());
    let ghost all = line_list(text@);
    let mut out: Vec<SearchMatch> = Vec::new();
    let mut i: usize = 0;
    assert(match_views(out@) =~= Seq::empty());
    while i < lines.len()
        invariant
            i <= lines.len(),
            all == views(lines@),
            needle@ == query@,
            match_views(out@) == search_hits(all.take(i as int), query@),
        decreases lines.len() - i,
    {
        assert(all.take(i + 1).drop_last() =~= all.take(i as int));
        assert(all[i as int] == lines@[i as int]@);
        let ghost before = out@;
        if contains_chars(lines[i], needle.as_slice()) {
            let hit = SearchMatch { line: i + 1, text: string_of(lines[i]) };
            out.push(hit);
            assert(match_views(out@) =~= match_views(before).push((i + 1, all[i as int])));
        }
        i += 1;
    }
    assert(all.take(i as int) =~= all);
    out
}

/// Puts a text on the clipboard of the session.
pub fn set_clipboard(
    session: &mut Session,
    text: String,
    source_pane: Option<String>,
    source: String,
    now: u64,
)
    ensures
        *final(session) == (Session {
            clipboard: Some(ClipboardItem { text, source_pane, source, copied_at: now }),
            ..*old(session)
        }),
{
    session.clipboard = Some(ClipboardItem { text, source_pane, source, copied_at: now });
}

/// What a paste writes: what was copied, and a return where one is asked for. Nothing where
/// nothing was copied.
pub fn paste_data(session: &Session, enter: bool) -> (r: Option<String>)
    ensures
        opt_text(r) == match session.clipboard {
            None => None,
            Some(item) => Some(
                if enter {
                    item.text@.push('\n')
                } else {
                    item.text@
                },
            ),
        },
{
    match &session.clipboard {
        None => None,
        Some(item) => {
            let mut data = item.text.clone();
            if enter {
                data.push('\n');
            }
            Some(data)
        },
    }
}

/// The name of what was copied from a pane.
pub fn copy_source(scrollback: bool) -> (r: String)
    ensures
        r@ == if scrollback {
            "scrollback"@
        } else {
            "screen"@
        },
{
    if scrollback {
        "scrollback".to_string()
    } else {
        "screen".to_string()
    }
}

/// Zooming a pane, or taking the zoom back.
pub struct Zoom {
    pub pane: String,
    pub zoomed: bool,
}

/// Why a pane is not zoomed.
#[derive(Debug)]
pub enum ZoomError {
    /// The workspace has no active pane.
    NoPanes,
    /// The pane is not on the active tab.
    NotHere(String),
}

/// `r` and `after` are what comes of zooming the pane in the workspace `before`, the active one
/// where none is named.
pub open spec fn zoom_toggled(
    before: Workspace,
    after: Workspace,
    pane: Option<Seq<char>>,
    r: Result<Zoom, ZoomError>,
) -> bool {
    let target = if pane is Some {
        pane
    } else {
        opt_text(before.active_pane)
    };
    match target {
        None => r matches Err(ZoomError::NoPanes) && after == before,
        Some(id) => if !lists(before.panes@, id) {
            r matches Err(ZoomError::NotHere(got)) && got@ == id && after == before
        } else if opt_text(before.zoomed_pane) == Some(id) {
            r matches Ok(z) && z.pane@ == id && !z.zoomed && after == (Workspace {
                zoomed_pane: None,
                ..before
            })
        } else {
            &&& r matches Ok(z) && z.pane@ == id && z.zoomed
            &&& after == (Workspace {
                active_pane: after.active_pane,
                zoomed_pane: after.zoomed_pane,
                ..before
            })
            &&& opt_text(after.active_pane) == Some(id)
            &&& opt_text(after.zoomed_pane) == Some(id)
        },
    }
}

/// Zooms a pane of the workspace, the active one where none is named; a pane that is zoomed
/// already is zoomed no more.
pub fn toggle_zoom(workspace: &mut Workspace, pane: Option<String>) -> (r: Result<Zoom, ZoomError>)
    ensures
        zoom_toggled(*old(workspace), *final(workspace), opt_text(pane), r),
{
    let target = match pane {
        Some(p) => Some(p),
        None => clone_opt(&workspace.active_pane),
    };
    let id = match target {
        Some(id) => id,
        None => {
            return Err(ZoomError::NoPanes);
        },
    };
    if !listed(&workspace.panes, id.as_str()) {
        return Err(ZoomError::NotHere(id));
    }
    if is_opt_text(&workspace.zoomed_pane, id.as_str()) {
        workspace.zoomed_pane = None;
        return Ok(Zoom { pane: id, zoomed: false });
    }
    workspace.active_pane = Some(id.clone());
    workspace.zoomed_pane = Some(id.clone());
    Ok(Zoom { pane: id, zoomed: true })
}

/// How far a resize moves a split: at most fifty, and back where it goes left or up.
pub open spec fn resize_by(direction: SplitDirection, amount: u16) -> int {
    let n = if amount <= 50 {
        amount as int
    } else {
        50
    };
    match direction {
        SplitDirection::Right | SplitDirection::Down => n,
        SplitDirection::Left | SplitDirection::Up => -n,
    }
}

/// How far a resize moves a split.
pub fn resize_delta(direction: SplitDirection, amount: u16) -> (r: i16)
    ensures
        r == resize_by(direction, amount),
{
    let n: i16 = if amount <= 50 {
        amount as i16
    } else {
        50
    };
    match direction {
        SplitDirection::Right | SplitDirection::Down => n,
        SplitDirection::Left | SplitDirection::Up => -n,
    }
}

/// Whether a client may set the sizes of panes. The first client that asks owns them, until
/// another one takes control; a caller without an id always may.
pub fn claim_pane_sizes(owner: &mut Option<String>, client: Option<&str>, take_control: bool) -> (r:
    bool)
    ensures
        opt_text(*final(owner)) == match opt_str(client) {
            Some(id) => if take_control || *old(owner) is None {
                Some(id)
            } else {
                opt_text(*old(owner))
            },
            None => opt_text(*old(owner)),
        },
        r == (client is None || opt_text(*final(owner)) == opt_str(client)),
{
    match client {
        None => true,
        Some(id) => {
            if take_control || owner.is_none() {
                *owner = Some(id.to_string());
            }
            is_opt_text(owner, id)
        },
    }
}

/// The size that a running pane should have.
pub open spec fn wanted_size(r: PaneRuntime) -> PaneSize {
    effective(
        r.layout_size,
        match r.view_override {
            Some(v) => Some(v.size),
            None => None,
        },
    )
}

fn wanted(runtime: &PaneRuntime) -> (r: PaneSize)
    ensures
        r == wanted_size(*runtime),
{
    effective_pane_size(
        runtime.layout_size,
        match runtime.view_override {
            Some(v) => Some(v.size),
            None => None,
        },
    )
}

/// Notes the size that the layout gives a running pane. Returns the size that its terminal
/// should have then.
pub fn set_layout_size(runtime: &mut PaneRuntime, size: PaneSize) -> (next: PaneSize)
    ensures
        *final(runtime) == (PaneRuntime { layout_size: sane(size), ..*old(runtime) }),
        next == wanted_size(*final(runtime)),
{
    runtime.layout_size = sanitize_pane_size(size);
    wanted(runtime)
}

/// Notes that a viewer holds the pane to a size until its lease ends. Returns the size that
/// the terminal should have then.
pub fn set_view_size(runtime: &mut PaneRuntime, view: PaneSize, lease_ms: u64, now_ms: u64) -> (next:
    PaneSize)
    requires
        now_ms + VIEW_LEASE_MS_MAX <= u64::MAX,
    ensures
        final(runtime).pane == (Pane { view_size: Some(sane(view)), ..old(runtime).pane }),
        *final(runtime) == (PaneRuntime {
            view_override: final(runtime).view_override,
            pane: final(runtime).pane,
            ..*old(runtime)
        }),
        final(runtime).view_override == Some(
            ViewLease {
                size: sane(view),
                expires_at: (now_ms + if lease_ms < VIEW_LEASE_MS_MIN {
                    VIEW_LEASE_MS_MIN
                } else if lease_ms > VIEW_LEASE_MS_MAX {
                    VIEW_LEASE_MS_MAX
                } else {
                    lease_ms
                }) as u64,
            },
        ),
        next == wanted_size(*final(runtime)),
{
    let view = sanitize_pane_size(view);
    let lease = clamp_lease_ms(lease_ms);
    runtime.view_override = Some(ViewLease { size: view, expires_at: now_ms + lease });
    runtime.pane.view_size = Some(view);
    wanted(runtime)
}

/// Notes that no viewer holds the pane to a size. Returns the size that the terminal should
/// have then: that of the layout.
pub fn clear_view_size(runtime: &mut PaneRuntime) -> (next: PaneSize)
    ensures
        final(runtime).pane == (Pane { view_size: None, ..old(runtime).pane }),
        *final(runtime) == (PaneRuntime {
            view_override: None,
            pane: final(runtime).pane,
            ..*old(runtime)
        }),
        next == old(runtime).layout_size,
{
    runtime.view_override = None;
    runtime.pane.view_size = None;
    runtime.layout_size
}

/// Ends the lease of a viewer whose time is over. Returns the size that the terminal should
/// have then, where a lease ended.
pub fn expire_view(runtime: &mut PaneRuntime, now_ms: u64) -> (r: Option<PaneSize>)
    ensures
        r is Some <==> (old(runtime).view_override matches Some(v) && v.expires_at <= now_ms),
        r is None ==> *final(runtime) == *old(runtime),
        r matches Some(next) ==> next == old(runtime).layout_size && final(runtime).pane == (Pane {
            view_size: None,
            ..old(runtime).pane
        }) && *final(runtime) == (PaneRuntime {
            view_override: None,
            pane: final(runtime).pane,
            ..*old(runtime)
        }),
{
    let expired = match runtime.view_override {
        Some(v) => v.expires_at <= now_ms,
        None => false,
    };
    if expired {
        Some(clear_view_size(runtime))
    } else {
        None
    }
}

/// The pane is zoomed in some workspace or tab.
pub open spec fn is_zoomed(workspaces: Seq<Workspace>, pane: Seq<char>) -> bool {
    exists|i: int| 0 <= i < workspaces.len() && zooms(#[trigger] workspaces[i], pane)
}

/// The workspace or one of its tabs zooms the pane.
pub open spec fn zooms(w: Workspace, pane: Seq<char>) -> bool {
    ||| opt_text(w.zoomed_pane) == Some(pane)
    ||| exists|i: int|
        0 <= i < w.tabs@.len() && opt_text((#[trigger] w.tabs@[i]).zoomed_pane) == Some(pane)
}

fn zoomed_in(w: &Workspace, pane: &str) -> (r: bool)
    ensures
        r == zooms(*w, pane@),
{
    if is_opt_text(&w.zoomed_pane, pane) {
        return true;
    }
    let mut i: usize = 0;
    while i < w.tabs.len()
        invariant
            i <= w.tabs.len(),
            opt_text(w.zoomed_pane) != Some(pane@),
            forall|k: int|
                0 <= k < i ==> opt_text((#[trigger] w.tabs@[k]).zoomed_pane) != Some(pane@),
        decreases w.tabs.len() - i,
    {
        if is_opt_text(&w.tabs[i].zoomed_pane, pane) {
            assert(opt_text(w.tabs@[i as int].zoomed_pane) == Some(pane@));
            return true;
        }
        i += 1;
    }
    false
}

/// Whether the pane is zoomed in some workspace or tab.
pub fn pane_is_zoomed(workspaces: &Vec<Workspace>, pane: &str) -> (r: bool)
    ensures
        r == is_zoomed(workspaces@, pane@),
{
    let mut i: usize = 0;
    while i < workspaces.len()
        invariant
            i <= workspaces.len(),
            forall|k: int| 0 <= k < i ==> !zooms(#[trigger] workspaces@[k], pane@),
        decreases workspaces.len() - i,
    {
        if zoomed_in(&workspaces[i], pane) {
            assert(zooms(workspaces@[i as int], pane@));
            return true;
        }
        i += 1;
    }
    false
}

/// The ids of panes.
pub open spec fn pane_ids(panes: Seq<Pane>) -> Seq<Seq<char>> {
    Seq::new(panes.len(), |i: int| panes[i].id@)
}

/// The panes that a broadcast reaches: those of the active tab, or all.
pub open spec fn broadcast_ids(session: Session, scope: BroadcastScope) -> Seq<Seq<char>> {
    match scope {
        BroadcastScope::Workspace => match workspace_index(
            session.workspaces@,
            session.active_workspace@,
        ) {
            Some(i) => texts(session.workspaces@[i].panes@),
            None => Seq::empty(),
        },
        BroadcastScope::Session => pane_ids(session.panes@),
    }
}

/// A copy of a list of texts.
pub fn clone_texts(list: &Vec<String>) -> (r: Vec<String>)
    ensures
        r@ == list@,
{
    let mut out: Vec<String> = Vec::new();
    let mut i: usize = 0;
    while i < list.len()
        invariant
            i <= list.len(),
            out@ == list@.take(i as int),
        decreases list.len() - i,
    {
        out.push(list[i].clone());
        i += 1;
        assert(list@.take(i as int) =~= list@.take(i - 1).push(list@[i - 1]));
    }
    assert(list@.take(i as int) =~= list@);
    out
}

/// The ids of all panes.
pub fn all_pane_ids(panes: &Vec<Pane>) -> (r: Vec<String>)
    ensures
        texts(r@) == pane_ids(panes@),
{
    let mut out: Vec<String> = Vec::new();
    let mut i: usize = 0;
    while i < panes.len()
        invariant
            i <= panes.len(),
            out@.len() == i,
            forall|k: int| 0 <= k < i ==> (#[trigger] out@[k])@ == panes@[k].id@,
        decreases panes.len() - i,
    {
        out.push(panes[i].id.clone());
        i += 1;
    }
    assert(texts(out@) =~= pane_ids(panes@));
    out
}

/// The panes that a broadcast reaches.
pub fn broadcast_targets(session: &Session, scope: BroadcastScope) -> (r: Vec<String>)
    ensures
        texts(r@) == broadcast_ids(*session, scope),
{
    match scope {
        BroadcastScope::Workspace => match find_workspace(
            &session.workspaces,
            session.active_workspace.as_str(),
        ) {
            Some(i) => clone_texts(&session.workspaces[i].panes),
            None => {
                let r: Vec<String> = Vec::new();
                assert(texts(r@) =~= Seq::empty());
                r
            },
        },
        BroadcastScope::Session => all_pane_ids(&session.panes),
    }
}

/// The bytes of output that a killed pane keeps.
pub const KILLED_OUTPUT: usize = 16_000;

/// `after` is the pane `before` once it has been killed, with what it had shown.
pub open spec fn killed(before: Pane, after: Pane, output: Option<Seq<char>>, now: u64) -> bool {
    let ended = Pane {
        status: PaneStatus::Exited,
        notification_message: None,
        notification_color: None,
        updated_at: now,
        ..before.touched(AgentStatus::Done, true, now)
    };
    match output {
        None => after == ended,
        Some(text) => {
            &&& after == Pane {
                output: after.output,
                output_formatted: after.output_formatted,
                scrollback: after.scrollback,
                scrollback_formatted: after.scrollback_formatted,
                ..ended
            }
            &&& after.output@ == tail_within(text, KILLED_OUTPUT as int)
            &&& after.scrollback@ == tail_within(text, KILLED_OUTPUT as int)
            &&& after.output_formatted@.len() == 0
            &&& after.scrollback_formatted@.len() == 0
        },
    }
}

/// Notes in the record of a pane that it has been killed.
pub fn finish_killed(pane: &mut Pane, output: Option<String>, now: u64)
    ensures
        killed(*old(pane), *final(pane), opt_text(output), now),
{
    pane.status = PaneStatus::Exited;
    touch_agent_status(pane, AgentStatus::Done, true, now);
    pane.notification_message = None;
    pane.notification_color = None;
    if let Some(text) = output {
        pane.scrollback = trim_output(text.clone(), KILLED_OUTPUT);
        pane.output = trim_output(text, KILLED_OUTPUT);
        pane.output_formatted = String::new();
        pane.scrollback_formatted = String::new();
    }
    pane.updated_at = now;
}

/// What a wait for panes has come to.
#[derive(Debug, Clone, Copy, PartialEq, Eq, Structural)]
pub enum WaitState {
    /// All have exited.
    Over,
    /// The time is up.
    TimedOut,
    /// Look again after so many milliseconds at most.
    Again(u64),
}

/// Every one of the panes has exited.
pub open spec fn all_exited(statuses: Seq<PaneStatus>) -> bool {
    forall|i: int| 0 <= i < statuses.len() ==> #[trigger] statuses[i] == PaneStatus::Exited
}

/// What a wait has come to after `elapsed` milliseconds.
pub fn wait_step(statuses: &Vec<PaneStatus>, timeout_ms: Option<u64>, elapsed: u64) -> (r: WaitState)
    ensures
        r == if all_exited(statuses@) {
            WaitState::Over
        } else {
            match timeout_ms {
                Some(t) => if elapsed >= t {
                    WaitState::TimedOut
                } else if t - elapsed < 200 {
                    WaitState::Again((t - elapsed) as u64)
                } else {
                    WaitState::Again(200)
                },
                None => WaitState::Again(200),
            }
        },
{
    let mut over = true;
    let mut i: usize = 0;
    while i < statuses.len()
        invariant
            i <= statuses.len(),
            over == forall|k: int| 0 <= k < i ==> #[trigger] statuses@[k] == PaneStatus::Exited,
        decreases statuses.len() - i,
    {
        if statuses[i] != PaneStatus::Exited {
            assert(statuses@[i as int] != PaneStatus::Exited);
            over = false;
        }
        i += 1;
    }
    if over {
        return WaitState::Over;
    }
    match timeout_ms {
        Some(t) => if elapsed >= t {
            WaitState::TimedOut
        } else if t - elapsed < 200 {
            WaitState::Again(t - elapsed)
        } else {
            WaitState::Again(200)
        },
        None => WaitState::Again(200),
    }
}

/// The panes once the finished turns of the listed ones have been seen.
pub open spec fn acknowledged(panes: Seq<Pane>, ids: Seq<Seq<char>>, now: u64) -> Seq<Pane> {
    panes.map_values(
        |p: Pane|
            if ids.contains(p.id@) && p.agent_status == AgentStatus::Done {
                p.touched(AgentStatus::Idle, true, now)
            } else {
                p
            },
    )
}

/// A list holds an id where its texts do.
pub proof fn lists_is_contains(list: Seq<String>, id: Seq<char>)
    ensures
        lists(list, id) == texts(list).contains(id),
{
    if lists(list, id) {
        let k = choose|k: int| 0 <= k < list.len() && (#[trigger] list[k])@ == id;
        assert(texts(list)[k] == id);
    }
    if texts(list).contains(id) {
        let k = choose|k: int| 0 <= k < texts(list).len() && texts(list)[k] == id;
        assert(list[k]@ == id);
    }
}

/// Acknowledges the finished turns of the listed panes, in the session.
pub fn acknowledge_panes(panes: &mut Vec<Pane>, ids: &Vec<String>, now: u64)
    ensures
        final(panes)@ == acknowledged(old(panes)@, texts(ids@), now),
{
    let ghost all = panes@;
    let mut i: usize = 0;
    while i < panes.len()
        invariant
            i <= panes.len(),
            panes@.len() == all.len(),
            forall|k: int|
                0 <= k < i ==> #[trigger] panes@[k] == if texts(ids@).contains(all[k].id@)
                    && all[k].agent_status == AgentStatus::Done {
                    all[k].touched(AgentStatus::Idle, true, now)
                } else {
                    all[k]
                },
            forall|k: int| i <= k < all.len() ==> #[trigger] panes@[k] == all[k],
        decreases panes.len() - i,
    {
        proof {
            lists_is_contains(ids@, all[i as int].id@);
        }
        if listed(ids, panes[i].id.as_str()) {
            let _changed = acknowledge_done_status(&mut panes[i], now);
        }
        i += 1;
    }
    assert(panes@ =~= acknowledged(all, texts(ids@), now));
}

} // verus!

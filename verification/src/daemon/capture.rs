//! Reading, searching, copying and clearing what panes show.
use crate::daemon::emulator::{
    clear_terminal, cleared, screen_of, screen_of_mut, shown, with_screen,
};
use crate::daemon::live::{PaneRuntime, ScreenFacts};
use crate::daemon::output::{flat, joined_output, scrollback_budget, scrollback_limit, trim_output};
use crate::daemon::panes::{sync_active_pane_tab, tabs_mirroring};
use crate::daemon::runtime::{active_key, active_runtime_key_for_pane};
use crate::daemon::screen::{
    history_count, history_row, mouse_encoding, mouse_mode, parser_history_rows, same_modes,
    screen_alternate, screen_contents_ansi, screen_cursor, screen_mouse_encoding,
    screen_mouse_mode, screen_size, screen_text, scrolled, styled_rows,
};
use crate::daemon::handlers::{match_views, search_hits, search_lines, SearchMatch};
use crate::model::{find_pane, pane_index, Pane, PaneSize, Session};
use crate::text::chars::{begins, chars_of, joined, opt_text, push_chars, same, starts_with, texts};
use crate::text::lines::line_list;
use crate::text::numbers::{decimal, decimal_chars};
use crate::text::utf8::tail_within;
use std::collections::VecDeque;
use vstd::prelude::*;

verus! {

/// What a screen says besides its text.
pub open spec fn facts_of(screen: vt100::Screen) -> ScreenFacts {
    ScreenFacts {
        cursor_row: screen_cursor(screen).0,
        cursor_col: screen_cursor(screen).1,
        rows: screen_size(screen).0,
        cols: screen_size(screen).1,
        mouse_mode: screen_mouse_mode(screen),
        mouse_encoding: screen_mouse_encoding(screen),
        alternate_screen: screen_alternate(screen),
    }
}

/// Reads what a screen says besides its text.
pub fn screen_facts(screen: &vt100::Screen) -> (r: ScreenFacts)
    ensures
        r == facts_of(*screen),
{
    let (cursor_row, cursor_col) = screen.cursor_position();
    let (rows, cols) = screen.size();
    ScreenFacts {
        cursor_row,
        cursor_col,
        rows,
        cols,
        mouse_mode: mouse_mode(screen),
        mouse_encoding: mouse_encoding(screen),
        alternate_screen: screen.alternate_screen(),
    }
}

/// What a request to read a pane is answered.
pub struct ScreenReading {
    pub screen: String,
    /// The size of the pane and its cursor, where it runs.
    pub live: Option<(PaneSize, (u16, u16))>,
    pub scrollback: Option<String>,
    /// The rows above the screen, where any were asked for.
    pub history: Option<Vec<String>>,
}

/// Reads a running pane. Asking for history leaves the view at the live screen.
pub fn read_screen(
    runtime: &mut PaneRuntime,
    include_scrollback: bool,
    limit_bytes: Option<usize>,
    ansi: bool,
    history_lines: usize,
) -> (r: ScreenReading)
    ensures
        r.screen@ == ({
            let screen = shown(old(runtime).terminal);
            if ansi {
                joined(styled_rows(screen, screen_size(screen).0 as int), "\n"@)
            } else {
                screen_text(screen)
            }
        }),
        r.live == Some((old(runtime).size, screen_cursor(shown(old(runtime).terminal)))),
        opt_text(r.scrollback) == if include_scrollback {
            Some(tail_within(flat(texts(old(runtime).output@)), scrollback_budget(limit_bytes)))
        } else {
            None
        },
        history_lines == 0 ==> r.history is None && *final(runtime) == *old(runtime),
        history_lines > 0 ==> ({
            let screen = shown(old(runtime).terminal);
            &&& *final(runtime) == PaneRuntime {
                terminal: with_screen(old(runtime).terminal, scrolled(screen, 0)),
                ..*old(runtime)
            }
            &&& shown(final(runtime).terminal) == scrolled(screen, 0)
            &&& r.history matches Some(rows) && texts(rows@) == Seq::new(
                history_count(screen, history_lines),
                |i: int| history_row(screen, history_count(screen, history_lines) - i, ansi),
            )
        }),
        old(runtime).wf() ==> final(runtime).wf(),
{
    let limit = scrollback_limit(limit_bytes);
    let screen = screen_of(&runtime.terminal);
    let cursor = screen.cursor_position();
    let text = if ansi {
        screen_contents_ansi(screen)
    } else {
        screen.contents()
    };
    let scrollback = if include_scrollback {
        Some(trim_output(joined_output(&runtime.output), limit))
    } else {
        None
    };
    let size = runtime.size;
    let history = if history_lines > 0 {
        Some(parser_history_rows(screen_of_mut(&mut runtime.terminal), history_lines, ansi))
    } else {
        None
    };
    ScreenReading { screen: text, live: Some((size, cursor)), scrollback, history }
}

/// The bytes of output that are shown of a pane that does not run.
pub const STORED_SCREEN: usize = 16_000;

/// Reads a pane that does not run.
pub fn read_stored(pane: &Pane, include_scrollback: bool, limit_bytes: Option<usize>) -> (r:
    ScreenReading)
    ensures
        r.screen@ == tail_within(pane.output@, STORED_SCREEN as int),
        r.live is None,
        r.history is None,
        opt_text(r.scrollback) == if include_scrollback {
            Some(tail_within(pane.output@, scrollback_budget(limit_bytes)))
        } else {
            None
        },
{
    let limit = scrollback_limit(limit_bytes);
    let scrollback = if include_scrollback {
        Some(trim_output(pane.output.clone(), limit))
    } else {
        None
    };
    ScreenReading {
        screen: trim_output(pane.output.clone(), STORED_SCREEN),
        live: None,
        scrollback,
        history: None,
    }
}

/// The lines of a pane that hold a query.
pub struct SearchResult {
    pub screen: Vec<SearchMatch>,
    pub scrollback: Vec<SearchMatch>,
}

/// Searches what a pane shows and what scrolled off; none where the query is empty.
pub fn search_pane(screen: &str, scrollback: &str, query: &str) -> (r: Option<SearchResult>)
    ensures
        r is None <==> query@.len() == 0,
        r matches Some(found) ==> match_views(found.screen@) == search_hits(
            line_list(screen@),
            query@,
        ) && match_views(found.scrollback@) == search_hits(line_list(scrollback@), query@),
{
    if query.is_empty() {
        return None;
    }
    Some(
        SearchResult {
            screen: search_lines(screen, query),
            scrollback: search_lines(scrollback, query),
        },
    )
}

/// What is copied of a running pane.
pub fn copy_live(
    runtime: &PaneRuntime,
    scrollback: bool,
    limit_bytes: Option<usize>,
) -> (r: String)
    ensures
        r@ == if scrollback {
            tail_within(flat(texts(runtime.output@)), scrollback_budget(limit_bytes))
        } else {
            screen_text(shown(runtime.terminal))
        },
{
    if scrollback {
        trim_output(joined_output(&runtime.output), scrollback_limit(limit_bytes))
    } else {
        screen_of(&runtime.terminal).contents()
    }
}

/// What is copied of a pane that does not run.
pub fn copy_stored(pane: &Pane, scrollback: bool, limit_bytes: Option<usize>) -> (r: String)
    ensures
        r@ == if scrollback {
            tail_within(pane.scrollback@, scrollback_budget(limit_bytes))
        } else {
            pane.output@
        },
{
    if scrollback {
        trim_output(pane.scrollback.clone(), scrollback_limit(limit_bytes))
    } else {
        pane.output.clone()
    }
}

/// The pane without what it showed.
pub open spec fn blanked(before: Pane, after: Pane, alternate_scroll: bool) -> bool {
    &&& after == Pane {
        output: after.output,
        output_formatted: after.output_formatted,
        scrollback: after.scrollback,
        scrollback_formatted: after.scrollback_formatted,
        alternate_scroll_mode: alternate_scroll,
        ..before
    }
    &&& after.output@.len() == 0
    &&& after.output_formatted@.len() == 0
    &&& after.scrollback@.len() == 0
    &&& after.scrollback_formatted@.len() == 0
}

fn blank_pane(pane: &mut Pane, alternate_scroll: bool)
    ensures
        blanked(*old(pane), *final(pane), alternate_scroll),
{
    pane.output = String::new();
    pane.output_formatted = String::new();
    pane.scrollback = String::new();
    pane.scrollback_formatted = String::new();
    pane.alternate_scroll_mode = alternate_scroll;
}

/// Forgets what a running pane showed, and empties its terminal. The modes that its program has
/// asked for stay.
pub fn clear_runtime(runtime: &mut PaneRuntime)
    requires
        old(runtime).wf(),
    ensures
        final(runtime).wf(),
        final(runtime).terminal == cleared(old(runtime).terminal, old(runtime).size),
        same_modes(shown(final(runtime).terminal), shown(old(runtime).terminal)),
        final(runtime).output@.len() == 0,
        final(runtime).output_bytes == 0,
        final(runtime).pending@.len() == 0,
        final(runtime).osc_tail@.len() == 0,
        final(runtime).scrollback_formatted_cache@.len() == 0,
        blanked(
            old(runtime).pane,
            final(runtime).pane,
            old(runtime).pane.status == crate::model::PaneStatus::Running && old(
                runtime,
            ).terminal_modes.alternate_scroll && screen_alternate(shown(old(runtime).terminal)),
        ),
        *final(runtime) == (PaneRuntime {
            output: final(runtime).output,
            output_bytes: 0,
            pending: final(runtime).pending,
            osc_tail: final(runtime).osc_tail,
            terminal: final(runtime).terminal,
            pane: final(runtime).pane,
            scrollback_formatted_cache: final(runtime).scrollback_formatted_cache,
            scrollback_formatted_generation: u64::MAX,
            ..*old(runtime)
        }),
{
    runtime.output = VecDeque::new();
    runtime.output_bytes = 0;
    runtime.pending = Vec::new();
    runtime.osc_tail = String::new();
    clear_terminal(&mut runtime.terminal, runtime.size);
    let on = crate::daemon::screen::alternate_scroll_active(
        &runtime.pane.status,
        &runtime.terminal_modes,
        screen_of(&runtime.terminal),
    );
    blank_pane(&mut runtime.pane, on);
    runtime.scrollback_formatted_cache = String::new();
    runtime.scrollback_formatted_generation = u64::MAX;
    assert(texts(runtime.output@) =~= Seq::empty());
}

/// Forgets what the session knows of what a pane showed, in the record of its active tab too.
pub fn clear_record(pane: &mut Pane, alternate_scroll: bool, now: u64)
    ensures
        exists|mid: Pane| #[trigger]
            blanked(*old(pane), mid, alternate_scroll) && *final(pane) == (Pane {
                updated_at: now,
                tabs: final(pane).tabs,
                ..mid
            }) && final(pane).tabs@ == match opt_text(old(pane).active_tab) {
                Some(id) => tabs_mirroring(
                    old(pane).tabs@,
                    id,
                    Pane { updated_at: now, ..mid },
                    now,
                ),
                None => old(pane).tabs@,
            },
{
    blank_pane(pane, alternate_scroll);
    let ghost mid = *pane;
    pane.updated_at = now;
    sync_active_pane_tab(pane, now);
    assert(blanked(*old(pane), mid, alternate_scroll));
}

/// What a cleared pane is reported to show.
pub open spec fn cleared_text(size: PaneSize) -> Seq<char> {
    "cleared capture at "@ + decimal(size.rows as nat) + "x"@ + decimal(size.cols as nat)
}

/// What a cleared pane is reported to show.
pub fn cleared_message(size: PaneSize) -> (r: String)
    ensures
        r@ == cleared_text(size),
{
    let rows = decimal_chars(size.rows as u64);
    let cols = decimal_chars(size.cols as u64);
    let mut out = "cleared capture at ".to_string();
    push_chars(&mut out, rows.as_slice());
    out.append("x");
    push_chars(&mut out, cols.as_slice());
    assert(out@ =~= cleared_text(size));
    out
}

/// The key of the running pane that a request for a pane goes to.
pub open spec fn target_key(panes: Seq<Pane>, pane: Seq<char>) -> Seq<char> {
    match pane_index(panes, pane) {
        Some(i) => active_key(panes[i]),
        None => pane,
    }
}

/// The key of the running pane that a request for a pane goes to.
pub fn runtime_key_for(panes: &Vec<Pane>, pane: &str) -> (r: String)
    ensures
        r@ == target_key(panes@, pane@),
{
    match find_pane(panes, pane) {
        Some(i) => active_runtime_key_for_pane(&panes[i]),
        None => pane.to_string(),
    }
}

/// The key is one of the pane's: its own id, or that of one of its tabs.
pub open spec fn is_key_of(key: Seq<char>, pane: Seq<char>) -> bool {
    key == pane || begins(key, pane + "::"@)
}

/// The keys among `keys` that are the pane's, in order.
pub open spec fn keys_of_pane(keys: Seq<Seq<char>>, pane: Seq<char>) -> Seq<Seq<char>> {
    keys.filter(|key: Seq<char>| is_key_of(key, pane))
}

/// The keys of the running panes that go when a pane goes.
pub fn runtime_keys_of(keys: &Vec<String>, pane: &str) -> (r: Vec<String>)
    ensures
        texts(r@) == keys_of_pane(texts(keys@), pane@),
{
    let mut prefix = pane.to_string();
    prefix.append("::");
    let ghost all = texts(keys@);
    let ghost mine = |key: Seq<char>| is_key_of(key, pane@);
    let mut out: Vec<String> = Vec::new();
    let mut i: usize = 0;
    assert(all.take(0) =~= Seq::empty());
    assert(texts(out@) =~= Seq::empty());
    proof {
        reveal(Seq::filter);
    }
    assert(texts(out@) == all.take(0).filter(mine));
    while i < keys.len()
        invariant
            i <= keys.len(),
            all == texts(keys@),
            prefix@ == pane@ + "::"@,
            mine == (|key: Seq<char>| is_key_of(key, pane@)),
            texts(out@) == all.take(i as int).filter(mine),
        decreases keys.len() - i,
    {
        let key = keys[i].as_str();
        let chars = chars_of(key);
        let ghost before = out@;
        assert(all.take(i + 1).drop_last() =~= all.take(i as int));
        assert(all.take(i + 1).last() == key@);
        proof {
            reveal(Seq::filter);
        }
        if same(key, pane) || starts_with(chars.as_slice(), prefix.as_str()) {
            out.push(keys[i].clone());
            assert(texts(out@) =~= texts(before).push(key@));
        }
        i += 1;
    }
    assert(all.take(i as int) =~= all);
    out
}

/// What a pane starts when it is started again: what is asked for, the shell where that is
/// empty, and what it ran before where nothing is asked for.
pub fn restart_command(asked: Option<String>, before: &str, default_shell: &str) -> (r: String)
    ensures
        r@ == match opt_text(asked) {
            None => before@,
            Some(c) => if crate::text::chars::is_blank(c) {
                default_shell@
            } else {
                c
            },
        },
{
    match asked {
        None => before.to_string(),
        Some(c) => if crate::text::chars::blank(c.as_str()) {
            default_shell.to_string()
        } else {
            c
        },
    }
}

/// A command can be given only where one pane is started again.
pub fn restart_refused(has_workspace: bool, all: bool, has_command: bool) -> (r: bool)
    ensures
        r == ((has_workspace || all) && has_command),
{
    (has_workspace || all) && has_command
}

/// Why a viewer cannot hold a pane to a size.
#[derive(Debug)]
pub enum ViewError {
    /// The pane was zoomed for a full view of it.
    Zoomed(String),
    Unknown(String),
}

/// `after` is the session `before` once it is marked that a viewer holds a pane, which is
/// there, to a size.
pub open spec fn view_marked(before: Session, after: Session, pane: Seq<char>, view: PaneSize) -> bool {
    let i = pane_index(before.panes@, pane)->0;
    &&& after.panes@ == before.panes@.update(
        i,
        Pane { view_size: Some(crate::daemon::runtime::sane(view)), ..before.panes@[i] },
    )
    &&& after == Session { panes: after.panes, ..before }
}

/// Marks in the session that a viewer holds a pane to a size.
pub fn mark_view(session: &mut Session, pane: &str, view: PaneSize) -> (r: Result<(), ViewError>)
    ensures
        if crate::daemon::handlers::is_zoomed(old(session).workspaces@, pane@) {
            r matches Err(ViewError::Zoomed(id)) && id@ == pane@
        } else if pane_index(old(session).panes@, pane@) is None {
            r matches Err(ViewError::Unknown(id)) && id@ == pane@
        } else {
            r is Ok
        },
        r is Err ==> *final(session) == *old(session),
        r is Ok ==> view_marked(*old(session), *final(session), pane@, view),
{
    if crate::daemon::handlers::pane_is_zoomed(&session.workspaces, pane) {
        return Err(ViewError::Zoomed(pane.to_string()));
    }
    match find_pane(&session.panes, pane) {
        None => Err(ViewError::Unknown(pane.to_string())),
        Some(i) => {
            let p = &mut session.panes[i];
            p.view_size = Some(crate::daemon::runtime::sanitize_pane_size(view));
            Ok(())
        },
    }
}

/// Takes the marks of viewers from the listed panes.
pub fn unmark_views(panes: &mut Vec<Pane>, ids: &Vec<String>)
    ensures
        final(panes)@ == old(panes)@.map_values(
            |p: Pane|
                if crate::daemon::panes::lists(ids@, p.id@) {
                    Pane { view_size: None, ..p }
                } else {
                    p
                },
        ),
{
    let ghost all = panes@;
    let mut i: usize = 0;
    while i < panes.len()
        invariant
            i <= panes.len(),
            panes@.len() == all.len(),
            forall|k: int|
                0 <= k < i ==> #[trigger] panes@[k] == if crate::daemon::panes::lists(
                    ids@,
                    all[k].id@,
                ) {
                    Pane { view_size: None, ..all[k] }
                } else {
                    all[k]
                },
            forall|k: int| i <= k < all.len() ==> #[trigger] panes@[k] == all[k],
        decreases panes.len() - i,
    {
        if crate::daemon::panes::listed(ids, panes[i].id.as_str()) {
            let p = &mut panes[i];
            p.view_size = None;
        }
        i += 1;
    }
    assert(panes@ =~= all.map_values(
        |p: Pane|
            if crate::daemon::panes::lists(ids@, p.id@) {
                Pane { view_size: None, ..p }
            } else {
                p
            },
    ));
}

} // verus!

//! Changes to a session: events, notifications and what panes report.
use crate::daemon::output::{shortened, truncate_on_char_boundary};
use crate::daemon::runtime::{active_key, active_runtime_key_for_pane};
use crate::daemon::status::{
    apply_explicit_agent_status, is_completion_noise_notification, is_completion_notice,
    is_feed_worthy, is_idle_notice, is_late_busy, is_non_actionable_attention, opt_status,
    parse_agent_status, report_applied, should_record_in_notification_feed,
    should_skip_busy_after_settled,
};
use crate::model::{
    clone_note, event_views, find_pane, notes, pane_index, touch_agent_status, AgentStatus,
    EventRecord, EventView, NoteView, Notification, Pane, Session,
};
use crate::text::chars::{blank, clone_opt, is_blank, keep_newest, newest, opt_text, same, same_opt};
use vstd::prelude::*;

verus! {

/// The bytes of a message that are kept at most.
pub const MAX_MESSAGE: usize = 4_096;

/// The events that are kept at most.
pub const MAX_EVENTS: usize = 500;

/// The notifications that are kept at most.
pub const MAX_NOTIFICATIONS: usize = 100;

/// The id that follows `last`; the largest id follows itself.
pub open spec fn next_id(last: u64) -> u64 {
    if last == u64::MAX {
        last
    } else {
        (last + 1) as u64
    }
}

/// The log after an event: it gets the next id, its message is cut to size, and only the
/// newest events are kept.
pub open spec fn logged(
    log: Seq<EventView>,
    last: u64,
    event: EventView,
) -> Seq<EventView> {
    newest(
        log.push(
            EventView {
                id: next_id(last),
                message: shortened(event.message, MAX_MESSAGE as int),
                ..event
            },
        ),
        MAX_EVENTS as int,
    )
}

/// Appends an event to the log.
pub fn push_event(session: &mut Session, event: EventRecord)
    ensures
        event_views(final(session).events@) == logged(
            event_views(old(session).events@),
            old(session).next_event_id,
            event@,
        ),
        *final(session) == (Session {
            events: final(session).events,
            next_event_id: next_id(old(session).next_event_id),
            ..*old(session)
        }),
{
    let mut event = event;
    let ghost given = event@;
    session.next_event_id = if session.next_event_id == u64::MAX {
        u64::MAX
    } else {
        session.next_event_id + 1
    };
    event.id = session.next_event_id;
    truncate_on_char_boundary(&mut event.message, MAX_MESSAGE);
    let ghost before = session.events@;
    session.events.push(event);
    assert(event_views(session.events@) =~= event_views(before).push(event@));
    let ghost grown = session.events@;
    keep_newest(&mut session.events, MAX_EVENTS);
    assert(event_views(newest(grown, MAX_EVENTS as int)) =~= newest(
        event_views(grown),
        MAX_EVENTS as int,
    ));
}

/// The ids of a log rise, and none is above the last one given out.
pub open spec fn log_in_order(log: Seq<EventView>, last: u64) -> bool {
    &&& forall|i: int, j: int|
        0 <= i < j < log.len() ==> (#[trigger] log[i]).id < (#[trigger] log[j]).id
    &&& forall|i: int| 0 <= i < log.len() ==> (#[trigger] log[i]).id <= last
}

/// Ids rise from event to event, also past those that are dropped, until the largest id has
/// been given out.
pub proof fn event_ids_rise(log: Seq<EventView>, last: u64, event: EventView)
    requires
        log_in_order(log, last),
        last < u64::MAX,
    ensures
        log_in_order(logged(log, last, event), next_id(last)),
        logged(log, last, event).len() <= MAX_EVENTS,
        logged(log, last, event).last().id == next_id(last),
{
}

/// A report as it counts: completion noise that asks for attention counts as done.
pub struct Notice {
    pub status: Option<String>,
    pub color: Option<String>,
    pub clear: bool,
    pub message: String,
    /// The report carries the title of a new turn.
    pub new_turn: bool,
}

/// What a report says.
pub struct NoticeView {
    pub status: Option<Seq<char>>,
    pub color: Option<Seq<char>>,
    pub clear: bool,
    pub message: Seq<char>,
    pub new_turn: bool,
}

impl View for Notice {
    type V = NoticeView;

    open spec fn view(&self) -> NoticeView {
        NoticeView {
            status: opt_text(self.status),
            color: opt_text(self.color),
            clear: self.clear,
            message: self.message@,
            new_turn: self.new_turn,
        }
    }
}

/// A report that asks nothing of the user changes no status, unless it gives one other than
/// attention.
pub open spec fn keeps_status(n: NoticeView) -> bool {
    (is_idle_notice(n.message) || is_completion_notice(n.message)) && (n.status is None
        || opt_status(n.status) == AgentStatus::Attention)
}

/// `after` is the pane `before` once the report has been taken in.
pub open spec fn notified(before: Pane, after: Pane, n: NoticeView, now: u64) -> bool {
    if n.clear {
        after == Pane {
            notification_color: None,
            notification_message: None,
            updated_at: now,
            ..before
        }
    } else if keeps_status(n) {
        after == Pane { updated_at: now, ..before }
    } else if n.status is Some {
        &&& after.updated_at == now
        &&& if is_late_busy(before, n.status->0, n.message, n.new_turn) {
            after == Pane { updated_at: now, ..before }
        } else {
            report_applied(
                Pane { updated_at: now, ..before },
                after,
                n.status->0,
                n.color,
                n.message,
                now,
            )
        }
    } else if n.message.len() > 0 {
        &&& after == Pane {
            notification_color: after.notification_color,
            notification_message: after.notification_message,
            updated_at: now,
            ..before.touched(AgentStatus::Attention, true, now)
        }
        &&& opt_text(after.notification_color) == Some(
            match n.color {
                Some(c) => c,
                None => "blue"@,
            },
        )
        &&& opt_text(after.notification_message) == Some(n.message)
    } else {
        after == Pane { updated_at: now, ..before }
    }
}

/// Takes a report into a pane.
pub fn notify_pane(pane: &mut Pane, notice: &Notice, now: u64)
    ensures
        notified(*old(pane), *final(pane), notice@, now),
{
    let message = notice.message.as_str();
    let attention = match &notice.status {
        Some(s) => parse_agent_status(s.as_str()) == AgentStatus::Attention,
        None => true,
    };
    let skip_status = is_non_actionable_attention(message) && attention;
    pane.updated_at = now;
    if notice.clear {
        pane.notification_color = None;
        pane.notification_message = None;
    } else if skip_status {
    } else if let Some(status) = &notice.status {
        if !should_skip_busy_after_settled(pane, status.as_str(), message, notice.new_turn) {
            let color = match &notice.color {
                Some(c) => Some(c.as_str()),
                None => None,
            };
            apply_explicit_agent_status(pane, status.as_str(), color, message, now);
        }
    } else if !message.is_empty() {
        touch_agent_status(pane, AgentStatus::Attention, true, now);
        pane.notification_color = match &notice.color {
            Some(c) => Some(c.clone()),
            None => Some("blue".to_string()),
        };
        pane.notification_message = Some(notice.message.clone());
    }
}

/// A request to note something about a pane or a workspace.
pub struct NotifyRequest {
    /// The pane it is about, where one is named or active.
    pub pane: Option<String>,
    /// The workspace it is about.
    pub workspace: Option<String>,
    pub status: Option<String>,
    pub color: Option<String>,
    pub clear: bool,
    pub message: String,
    pub title: Option<String>,
}

/// The title that the report gives to the tab: what its title comes down to, or else what
/// the message of a busy report does.
pub open spec fn notice_title(
    enabled: bool,
    clear: bool,
    status: Option<Seq<char>>,
    condensed: Option<Seq<char>>,
    from_message: Option<Seq<char>>,
) -> Option<Seq<char>> {
    if !enabled || clear {
        None
    } else if condensed is Some {
        condensed
    } else if status is Some && opt_status(status) == AgentStatus::Busy {
        from_message
    } else {
        None
    }
}

/// Completion noise that asks for attention.
pub open spec fn counts_as_done(status: Option<Seq<char>>, clear: bool, message: Seq<char>) -> bool {
    !clear && status is Some && opt_status(status) == AgentStatus::Attention
        && is_completion_notice(message)
}

/// The report that a request makes, where `titled` says that a title was found for the tab.
pub open spec fn notice_of(
    status: Option<Seq<char>>,
    color: Option<Seq<char>>,
    clear: bool,
    message: Seq<char>,
    title: Option<Seq<char>>,
    titled: bool,
) -> NoticeView {
    let text = shortened(message, MAX_MESSAGE as int);
    let done = counts_as_done(status, clear, text);
    NoticeView {
        status: if done {
            Some("done"@)
        } else {
            status
        },
        color: if done {
            Some("green"@)
        } else {
            color
        },
        clear,
        message: text,
        new_turn: titled || match title {
            Some(t) => !is_blank(t),
            None => false,
        },
    }
}

/// The notification that a request leaves.
pub open spec fn note_of(r: NotifyRequest, titled: bool, now: u64) -> NoteView {
    let n = notice_of(
        opt_text(r.status),
        opt_text(r.color),
        r.clear,
        r.message@,
        opt_text(r.title),
        titled,
    );
    NoteView {
        time: now,
        pane: opt_text(r.pane),
        workspace: opt_text(r.workspace),
        status: n.status,
        color: n.color,
        clear: n.clear,
        message: n.message,
    }
}

/// Two notifications are about the same pane and workspace.
pub open spec fn same_target(a: NoteView, b: NoteView) -> bool {
    a.pane == b.pane && a.workspace == b.workspace
}

/// The latest notification about the same target says the same.
pub open spec fn repeats_latest(feed: Seq<NoteView>, note: NoteView) -> bool
    decreases feed.len(),
{
    if note.clear || feed.len() == 0 {
        false
    } else if same_target(feed.last(), note) {
        let prev = feed.last();
        !prev.clear && prev.status == note.status && prev.color == note.color && prev.message
            == note.message
    } else {
        repeats_latest(feed.drop_last(), note)
    }
}

fn is_repeat(feed: &Vec<Notification>, note: &Notification) -> (r: bool)
    ensures
        r == repeats_latest(notes(feed@), note@),
{
    if note.clear {
        return false;
    }
    let ghost all = notes(feed@);
    let mut n: usize = feed.len();
    assert(all.take(n as int) =~= all);
    while n > 0
        invariant
            n <= feed.len(),
            all == notes(feed@),
            !note.clear,
            repeats_latest(all.take(n as int), note@) == repeats_latest(all, note@),
        decreases n,
    {
        let prev = &feed[n - 1];
        assert(all.take(n as int).last() == prev@);
        assert(all.take(n as int).drop_last() =~= all.take(n - 1));
        if same_opt(&prev.pane, &note.pane) && same_opt(&prev.workspace, &note.workspace) {
            return !prev.clear && same_opt(&prev.status, &note.status) && same_opt(
                &prev.color,
                &note.color,
            ) && same(prev.message.as_str(), note.message.as_str());
        }
        n -= 1;
    }
    false
}

/// The event that a recorded notification leaves in the log.
pub open spec fn note_event(note: NoteView) -> EventView {
    EventView {
        id: 0,
        time: note.time,
        kind: "notification"@,
        pane: note.pane,
        workspace: note.workspace,
        status: note.status,
        key: None,
        value: note.color,
        message: note.message,
    }
}

/// A notification goes into the feed unless it repeats the latest one or is routine.
pub open spec fn is_news(feed: Seq<NoteView>, note: NoteView) -> bool {
    !repeats_latest(feed, note) && is_feed_worthy(note.status, note.clear, note.message)
}

/// Puts a notification into the feed and the log, where it is news.
pub fn record_note(session: &mut Session, note: &Notification) -> (recorded: bool)
    ensures
        recorded == is_news(notes(old(session).notifications@), note@),
        recorded ==> notes(final(session).notifications@) == newest(
            notes(old(session).notifications@).push(note@),
            MAX_NOTIFICATIONS as int,
        ),
        recorded ==> event_views(final(session).events@) == logged(
            event_views(old(session).events@),
            old(session).next_event_id,
            note_event(note@),
        ),
        recorded ==> *final(session) == (Session {
            notifications: final(session).notifications,
            events: final(session).events,
            next_event_id: next_id(old(session).next_event_id),
            ..*old(session)
        }),
        !recorded ==> *final(session) == *old(session),
{
    if is_repeat(&session.notifications, note) || !should_record_in_notification_feed(note) {
        return false;
    }
    append_note(session, clone_note(note));
    keep_feed(session);
    push_event(session, event_for_note(note));
    true
}

fn append_note(session: &mut Session, note: Notification)
    ensures
        notes(final(session).notifications@) == notes(old(session).notifications@).push(note@),
        *final(session) == (Session {
            notifications: final(session).notifications,
            ..*old(session)
        }),
{
    let ghost before = session.notifications@;
    session.notifications.push(note);
    assert(notes(session.notifications@) =~= notes(before).push(note@));
}

fn keep_feed(session: &mut Session)
    ensures
        notes(final(session).notifications@) == newest(
            notes(old(session).notifications@),
            MAX_NOTIFICATIONS as int,
        ),
        *final(session) == (Session {
            notifications: final(session).notifications,
            ..*old(session)
        }),
{
    let ghost before = session.notifications@;
    keep_newest(&mut session.notifications, MAX_NOTIFICATIONS);
    assert(notes(newest(before, MAX_NOTIFICATIONS as int)) =~= newest(
        notes(before),
        MAX_NOTIFICATIONS as int,
    ));
}

fn event_for_note(note: &Notification) -> (r: EventRecord)
    ensures
        r@ == note_event(note@),
{
    EventRecord {
        id: 0,
        time: note.time,
        kind: "notification".to_string(),
        pane: clone_opt(&note.pane),
        workspace: clone_opt(&note.workspace),
        status: clone_opt(&note.status),
        key: None,
        value: clone_opt(&note.color),
        message: note.message.clone(),
    }
}

/// What came of a request to note something.
pub struct Notified {
    pub note: Notification,
    /// The report to be taken into the running pane as well.
    pub notice: Notice,
    /// The key of the running pane that it is about.
    pub runtime_key: Option<String>,
    /// The title that the tab gets.
    pub auto_title: Option<String>,
    /// It went into the feed and the log.
    pub recorded: bool,
}

/// The panes after a report about the pane with the id, where there is one.
pub open spec fn panes_notified(
    before: Seq<Pane>,
    after: Seq<Pane>,
    id: Option<Seq<char>>,
    n: NoticeView,
    now: u64,
) -> bool {
    match id {
        None => after == before,
        Some(id) => match pane_index(before, id) {
            None => after == before,
            Some(i) => {
                &&& after.len() == before.len()
                &&& after == before.update(i, after[i])
                &&& notified(before[i], after[i], n, now)
            },
        },
    }
}

/// `after` is the session `before` once something is noted, and `r` tells what came of it.
pub open spec fn noted(
    before: Session,
    after: Session,
    request: NotifyRequest,
    titles_enabled: bool,
    condensed: Option<String>,
    from_message: Option<String>,
    now: u64,
    r: Notified,
) -> bool {
    &&& opt_text(r.auto_title) == notice_title(
        titles_enabled,
        request.clear,
        opt_text(request.status),
        opt_text(condensed),
        opt_text(from_message),
    )
    &&& r.notice@ == notice_of(
        opt_text(request.status),
        opt_text(request.color),
        request.clear,
        request.message@,
        opt_text(request.title),
        r.auto_title is Some,
    )
    &&& r.note@ == note_of(request, r.auto_title is Some, now)
    &&& panes_notified(
        before.panes@,
        after.panes@,
        opt_text(request.pane),
        r.notice@,
        now,
    )
    &&& opt_text(r.runtime_key) == match opt_text(request.pane) {
        None => None,
        Some(id) => match pane_index(before.panes@, id) {
            None => None,
            Some(i) => Some(active_key(before.panes@[i])),
        },
    }
    &&& r.recorded == is_news(notes(before.notifications@), r.note@)
    &&& notes(after.notifications@) == if r.recorded {
        newest(notes(before.notifications@).push(r.note@), MAX_NOTIFICATIONS as int)
    } else {
        notes(before.notifications@)
    }
    &&& event_views(after.events@) == if r.recorded {
        logged(
            event_views(before.events@),
            before.next_event_id,
            note_event(r.note@),
        )
    } else {
        event_views(before.events@)
    }
    &&& after == Session {
        panes: after.panes,
        notifications: after.notifications,
        events: after.events,
        next_event_id: if r.recorded {
            next_id(before.next_event_id)
        } else {
            before.next_event_id
        },
        ..before
    }
}

/// Takes a request into a session: the pane it is about takes the report in, and it goes
/// into the feed and the log where it is news. `condensed` is what the title of the
/// request comes down to, `from_message` is what its message does.
pub fn notify(
    session: &mut Session,
    request: NotifyRequest,
    titles_enabled: bool,
    condensed: Option<String>,
    from_message: Option<String>,
    now: u64,
) -> (r: Notified)
    ensures
        noted(
            *old(session),
            *final(session),
            request,
            titles_enabled,
            condensed,
            from_message,
            now,
            r,
        ),
{
    let mut message = request.message;
    truncate_on_char_boundary(&mut message, MAX_MESSAGE);
    let busy = match &request.status {
        Some(s) => parse_agent_status(s.as_str()) == AgentStatus::Busy,
        None => false,
    };
    let auto_title = if !titles_enabled || request.clear {
        None
    } else if condensed.is_some() {
        condensed
    } else if busy {
        from_message
    } else {
        None
    };
    let attention = match &request.status {
        Some(s) => parse_agent_status(s.as_str()) == AgentStatus::Attention,
        None => false,
    };
    let done = !request.clear && attention && is_completion_noise_notification(message.as_str());
    let titled = match &request.title {
        Some(t) => !blank(t.as_str()),
        None => false,
    };
    let notice = Notice {
        status: if done {
            Some("done".to_string())
        } else {
            clone_opt(&request.status)
        },
        color: if done {
            Some("green".to_string())
        } else {
            clone_opt(&request.color)
        },
        clear: request.clear,
        message,
        new_turn: auto_title.is_some() || titled,
    };
    let note = Notification {
        time: now,
        pane: clone_opt(&request.pane),
        workspace: clone_opt(&request.workspace),
        status: clone_opt(&notice.status),
        color: clone_opt(&notice.color),
        clear: request.clear,
        message: notice.message.clone(),
    };
    let mut runtime_key = None;
    if let Some(pane_id) = &request.pane {
        if let Some(i) = find_pane(&session.panes, pane_id.as_str()) {
            let pane = &mut session.panes[i];
            runtime_key = Some(active_runtime_key_for_pane(pane));
            notify_pane(pane, &notice, now);
        }
    }
    let recorded = record_note(session, &note);
    Notified { note, notice, runtime_key, auto_title, recorded }
}

/// A report that says again what the latest one about the same target said is no news, whenever
/// it comes.
pub proof fn repeated_report_is_no_news(feed: Seq<NoteView>, first: NoteView, again: NoteView)
    requires
        !first.clear,
        again == (NoteView { time: again.time, ..first }),
    ensures
        !is_news(newest(feed.push(first), MAX_NOTIFICATIONS as int), again),
{
    let grown = feed.push(first);
    let kept = newest(grown, MAX_NOTIFICATIONS as int);
    assert(kept.last() == grown.last());
}

/// The feed never holds more than its share, whatever is noted.
pub proof fn feed_is_bounded(feed: Seq<NoteView>, note: NoteView)
    ensures
        newest(feed.push(note), MAX_NOTIFICATIONS as int).len() <= MAX_NOTIFICATIONS,
        newest(feed.push(note), MAX_NOTIFICATIONS as int).last() == note,
{
}

/// A routine report of work that comes after a turn is over does not bring the work back, as
/// long as it does not tell of a new turn.
pub proof fn late_work_does_not_come_back(before: Pane, after: Pane, n: NoticeView, now: u64)
    requires
        notified(before, after, n, now),
        !n.clear,
        n.status matches Some(status) && is_late_busy(before, status, n.message, n.new_turn),
    ensures
        after == (Pane { updated_at: now, ..before }),
{
}

/// A notice that an agent waits for input, or that its turn is over, leaves the status and the
/// banner of the pane as they are, where it gives no status or asks for attention.
pub proof fn idle_notice_keeps_status(before: Pane, after: Pane, n: NoticeView, now: u64)
    requires
        notified(before, after, n, now),
        !n.clear,
        keeps_status(n),
    ensures
        after.agent_status == before.agent_status,
        after.notification_message == before.notification_message,
        after.notification_color == before.notification_color,
{
}

} // verus!

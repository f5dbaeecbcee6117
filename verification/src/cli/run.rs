//! Commands that go on after an answer: a run to its end, a watch on events, an image.
use super::commands::{wait_limit, wait_timeout_ms};
use super::remote::{replied_id, reply_id, Reply, ReplyError};
use crate::model::SplitDirection;
use crate::protocol::Request;
use crate::text::chars::push_chars;
use crate::text::numbers::{decimal, decimal_chars};
use vstd::prelude::*;

verus! {

/// The request that begins a run.
pub fn run_request(
    direction: SplitDirection,
    command: String,
    title: Option<String>,
    workspace: Option<String>,
) -> (r: Request)
    ensures
        r == (Request::NewPane { direction, command, title, workspace, surface_kind: None }),
{
    Request::NewPane { direction, command, title, workspace, surface_kind: None }
}

/// What follows once a pane runs: the wait for its end, and then the look at its output.
#[derive(Debug)]
pub struct RunPlan {
    pub wait: Request,
    pub read: Request,
}

/// What follows once there is an answer on the pane of a run.
pub fn run_pane(reply: Reply, timeout: Option<u64>) -> (r: Result<RunPlan, ReplyError>)
    ensures
        exists|id: Result<String, ReplyError>| #[trigger]
            replied_id(reply, id) && match id {
                Err(e) => r == Err::<RunPlan, ReplyError>(e),
                Ok(id) => r == Ok::<RunPlan, ReplyError>(
                    RunPlan {
                        wait: Request::WaitPane {
                            pane: Some(id),
                            workspace: None,
                            all: false,
                            timeout_ms: wait_limit(timeout),
                        },
                        read: Request::ReadScreen {
                            pane: Some(id),
                            scrollback: true,
                            limit_bytes: None,
                            ansi: false,
                            history_lines: 0,
                        },
                    },
                ),
            },
{
    match reply_id(reply) {
        Err(e) => Err(e),
        Ok(id) => Ok(
            RunPlan {
                wait: Request::WaitPane {
                    pane: Some(id.clone()),
                    workspace: None,
                    all: false,
                    timeout_ms: wait_timeout_ms(timeout),
                },
                read: Request::ReadScreen {
                    pane: Some(id),
                    scrollback: true,
                    limit_bytes: None,
                    ansi: false,
                    history_lines: 0,
                },
            },
        ),
    }
}

/// What is said where a command failed without words.
pub const COMMAND_FAILED: &'static str = "vmux command failed";

/// Whether a command went well, and what is said where it did not.
pub fn verdict(ok: bool, error: Option<String>) -> (r: Result<(), String>)
    ensures
        match r {
            Ok(_) => ok,
            Err(text) => !ok && text@ == match error {
                Some(error) => error@,
                None => COMMAND_FAILED@,
            },
        },
{
    if ok {
        return Ok(());
    }
    match error {
        Some(error) => Err(error),
        None => Err(COMMAND_FAILED.to_string()),
    }
}

/// The largest id among events; zero where there is none.
pub open spec fn largest_id(ids: Seq<Option<u64>>) -> u64
    decreases ids.len(),
{
    if ids.len() == 0 {
        0
    } else {
        let before = largest_id(ids.drop_last());
        match ids.last() {
            Some(id) => if id > before {
                id
            } else {
                before
            },
            None => before,
        }
    }
}

/// The largest id among events.
pub fn follow_start(ids: &Vec<Option<u64>>) -> (r: u64)
    ensures
        r == largest_id(ids@),
{
    let mut largest: u64 = 0;
    let mut i: usize = 0;
    assert(ids@.take(0) =~= Seq::empty());
    while i < ids.len()
        invariant
            i <= ids.len(),
            largest == largest_id(ids@.take(i as int)),
        decreases ids.len() - i,
    {
        assert(ids@.take(i + 1).drop_last() =~= ids@.take(i as int));
        if let Some(id) = ids[i] {
            if id > largest {
                largest = id;
            }
        }
        i += 1;
    }
    assert(ids@.take(i as int) =~= ids@);
    largest
}

/// The places of events that are shown, in the order in which they are shown, and the id of
/// the last one: from the oldest, which is the last of the list, to the newest, those with an
/// id above all that were shown.
pub open spec fn fresh(ids: Seq<Option<u64>>, last: u64) -> (Seq<int>, u64)
    decreases ids.len(),
{
    if ids.len() == 0 {
        (Seq::empty(), last)
    } else {
        match ids.last() {
            Some(id) => if id > last {
                let rest = fresh(ids.drop_last(), id);
                (seq![ids.len() - 1] + rest.0, rest.1)
            } else {
                fresh(ids.drop_last(), last)
            },
            None => fresh(ids.drop_last(), last),
        }
    }
}

/// Places as integers.
pub open spec fn places(list: Seq<usize>) -> Seq<int> {
    Seq::new(list.len(), |i: int| list[i] as int)
}

/// Which of the events, newest first, are shown, and up to which id events have been shown.
pub fn fresh_events(ids: &Vec<Option<u64>>, last_id: u64) -> (r: (Vec<usize>, u64))
    ensures
        places(r.0@) == fresh(ids@, last_id).0,
        r.1 == fresh(ids@, last_id).1,
{
    let mut out: Vec<usize> = Vec::new();
    let mut last = last_id;
    let mut n = ids.len();
    assert(ids@.take(n as int) =~= ids@);
    assert(places(out@) + fresh(ids@, last).0 =~= fresh(ids@, last).0);
    while n > 0
        invariant
            n <= ids.len(),
            places(out@) + fresh(ids@.take(n as int), last).0 == fresh(ids@, last_id).0,
            fresh(ids@.take(n as int), last).1 == fresh(ids@, last_id).1,
        decreases n,
    {
        let ghost here = ids@.take(n as int);
        assert(here.drop_last() =~= ids@.take(n - 1));
        let ghost before = out@;
        let ghost was = last;
        if let Some(id) = ids[n - 1] {
            if id > last {
                out.push(n - 1);
                last = id;
                assert(places(out@) =~= places(before).push(n - 1));
                assert(places(out@) + fresh(here.drop_last(), last).0 =~= places(before) + fresh(
                    here,
                    was,
                ).0);
            }
        }
        n -= 1;
    }
    assert(places(out@) =~= fresh(ids@, last_id).0);
    (out, last)
}

/// The id up to which events have been shown never falls, and is no less than any event's.
pub proof fn follow_catches_up(ids: Seq<Option<u64>>, last: u64)
    ensures
        fresh(ids, last).1 >= last,
        forall|i: int|
            0 <= i < ids.len() && (#[trigger] ids[i]) is Some ==> ids[i]->0 <= fresh(ids, last).1,
    decreases ids.len(),
{
    if ids.len() > 0 {
        let next = match ids.last() {
            Some(id) => if id > last {
                id
            } else {
                last
            },
            None => last,
        };
        follow_catches_up(ids.drop_last(), next);
        assert forall|i: int|
            0 <= i < ids.len() && (#[trigger] ids[i]) is Some implies ids[i]->0 <= fresh(
            ids,
            last,
        ).1 by {
            if i < ids.len() - 1 {
                assert(ids.drop_last()[i] == ids[i]);
            }
        }
    }
}

/// Where no event is above what was shown, nothing is shown.
proof fn nothing_above(ids: Seq<Option<u64>>, last: u64)
    requires
        forall|i: int| 0 <= i < ids.len() && (#[trigger] ids[i]) is Some ==> ids[i]->0 <= last,
    ensures
        fresh(ids, last).0.len() == 0,
    decreases ids.len(),
{
    if ids.len() > 0 {
        assert forall|i: int| 0 <= i < ids.len() - 1 && (#[trigger] ids.drop_last()[i])
            is Some implies ids.drop_last()[i]->0 <= last by {
            assert(ids.drop_last()[i] == ids[i]);
        }
        nothing_above(ids.drop_last(), last);
    }
}

/// No event is shown twice: with what was shown in mind, the same list shows nothing. What
/// else changes in an event makes no difference.
pub proof fn nothing_is_shown_twice(ids: Seq<Option<u64>>, last: u64)
    ensures
        fresh(ids, fresh(ids, last).1).0.len() == 0,
{
    follow_catches_up(ids, last);
    nothing_above(ids, fresh(ids, last).1);
}

/// How long a watch pauses, in milliseconds.
pub fn follow_interval(interval_ms: u64) -> (r: u64)
    ensures
        r == if interval_ms < 100 {
            100
        } else if interval_ms > 10_000 {
            10_000
        } else {
            interval_ms
        },
{
    if interval_ms < 100 {
        100
    } else if interval_ms > 10_000 {
        10_000
    } else {
        interval_ms
    }
}

/// The bytes begin with these.
pub open spec fn led_by(bytes: Seq<u8>, head: Seq<u8>) -> bool {
    head.len() <= bytes.len() && bytes.take(head.len() as int) == head
}

/// The usual ending of an image's name, by the bytes with which it begins.
pub open spec fn image_kind(bytes: Seq<u8>) -> Option<Seq<char>> {
    if led_by(bytes, seq![0x89, 80, 78, 71]) {
        Some("png"@)
    } else if led_by(bytes, seq![0xFF, 0xD8, 0xFF]) {
        Some("jpg"@)
    } else if led_by(bytes, seq![71, 73, 70, 56]) {
        Some("gif"@)
    } else if led_by(bytes, seq![82, 73, 70, 70]) && bytes.len() >= 12 && led_by(
        bytes.skip(8),
        seq![87, 69, 66, 80],
    ) {
        Some("webp"@)
    } else if led_by(bytes, seq![66, 77]) {
        Some("bmp"@)
    } else {
        None
    }
}

/// Whether four bytes stand at a place.
fn four_at(bytes: &[u8], at: usize, a: u8, b: u8, c: u8, d: u8) -> (r: bool)
    requires
        at <= 8,
    ensures
        r == (at <= bytes@.len() && led_by(bytes@.skip(at as int), seq![a, b, c, d])),
{
    let r = bytes.len() >= at + 4 && bytes[at] == a && bytes[at + 1] == b && bytes[at + 2] == c
        && bytes[at + 3] == d;
    proof {
        if at <= bytes@.len() {
            let rest = bytes@.skip(at as int);
            let head = seq![a, b, c, d];
            if r {
                assert(rest.take(4) =~= head);
            } else if led_by(rest, head) {
                assert(rest.take(4)[0] == a && rest.take(4)[1] == b && rest.take(4)[2] == c
                    && rest.take(4)[3] == d);
                assert(false);
            }
        }
    }
    r
}

/// The usual ending of an image's name, by the bytes with which it begins; none where they are
/// those of no image.
pub fn image_extension(bytes: &[u8]) -> (r: Option<&'static str>)
    ensures
        match r {
            Some(name) => image_kind(bytes@) == Some(name@),
            None => image_kind(bytes@) is None,
        },
{
    proof {
        assert(bytes@.skip(0) =~= bytes@);
        let jpg = seq![0xFFu8, 0xD8, 0xFF];
        let bmp = seq![66u8, 77];
        if bytes@.len() >= 3 {
            assert(bytes@.take(3)[0] == bytes@[0] && bytes@.take(3)[1] == bytes@[1]
                && bytes@.take(3)[2] == bytes@[2]);
            if bytes@[0] == 0xFF && bytes@[1] == 0xD8 && bytes@[2] == 0xFF {
                assert(bytes@.take(3) =~= jpg);
            }
        }
        if bytes@.len() >= 2 {
            assert(bytes@.take(2)[0] == bytes@[0] && bytes@.take(2)[1] == bytes@[1]);
            if bytes@[0] == 66 && bytes@[1] == 77 {
                assert(bytes@.take(2) =~= bmp);
            }
        }
    }
    if four_at(bytes, 0, 0x89, 80, 78, 71) {
        return Some("png");
    }
    if bytes.len() >= 3 && bytes[0] == 0xFF && bytes[1] == 0xD8 && bytes[2] == 0xFF {
        return Some("jpg");
    }
    if four_at(bytes, 0, 71, 73, 70, 56) {
        return Some("gif");
    }
    if bytes.len() >= 12 && four_at(bytes, 0, 82, 73, 70, 70) && four_at(bytes, 8, 87, 69, 66, 80) {
        return Some("webp");
    }
    if bytes.len() >= 2 && bytes[0] == 66 && bytes[1] == 77 {
        return Some("bmp");
    }
    None
}

/// The largest image that is sent, in bytes.
pub const MAX_SEND_IMAGE_BYTES: u64 = 33_554_432;

/// Why an image is not sent.
#[derive(Debug, Clone, Copy, PartialEq, Eq, Structural)]
pub enum ImageError {
    Empty,
    TooLarge,
    /// The bytes are those of no image.
    NoImage,
}

/// The usual ending of the name of an image that is to be sent.
pub fn image_to_send(bytes: &[u8]) -> (r: Result<&'static str, ImageError>)
    ensures
        if bytes@.len() == 0 {
            r matches Err(ImageError::Empty)
        } else if bytes@.len() > MAX_SEND_IMAGE_BYTES {
            r matches Err(ImageError::TooLarge)
        } else {
            match image_kind(bytes@) {
                Some(kind) => r matches Ok(name) && name@ == kind,
                None => r matches Err(ImageError::NoImage),
            }
        },
{
    if bytes.len() == 0 {
        return Err(ImageError::Empty);
    }
    if bytes.len() as u64 > MAX_SEND_IMAGE_BYTES {
        return Err(ImageError::TooLarge);
    }
    match image_extension(bytes) {
        Some(name) => Ok(name),
        None => Err(ImageError::NoImage),
    }
}

/// How often a name for an image is tried.
pub const IMAGE_NAME_ATTEMPTS: u32 = 8;

/// The name under which an image is kept.
pub fn image_name(stamp: u64, pid: u32, attempt: u32, ext: &str) -> (r: String)
    ensures
        r@ == "image-"@ + decimal(stamp as nat) + "-"@ + decimal(pid as nat) + "-"@ + decimal(
            attempt as nat,
        ) + "."@ + ext@,
{
    let mut out = "image-".to_string();
    push_chars(&mut out, decimal_chars(stamp).as_slice());
    out.append("-");
    push_chars(&mut out, decimal_chars(pid as u64).as_slice());
    out.append("-");
    push_chars(&mut out, decimal_chars(attempt as u64).as_slice());
    out.append(".");
    out.append(ext);
    out
}

} // verus!

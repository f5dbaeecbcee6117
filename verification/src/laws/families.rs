//! Processes and their children, the ports that they listen on, and addresses as they are written.
use crate::daemon::sockets::{
    below_heading, colon_parts, grown, ipv6_text, leading_digits, listen_line, listening,
    longest_zeros, pids_in, pids_joined, socket_line, socket_lines, stat_parent, zeros_from,
};
use crate::text::chars::{last_position, position, words};
use crate::text::lines::line_list;
use crate::text::numbers::number;
use vstd::prelude::*;

verus! {

proof fn row_from(segs: Seq<int>, i: int, n: int)
    requires
        0 <= i,
        0 <= n,
        i + n <= segs.len(),
    ensures
        (forall|k: int| i <= k < i + n ==> #[trigger] segs[k] == 0) ==> zeros_from(segs, i) >= n,
        (exists|k: int| i <= k < i + n && #[trigger] segs[k] != 0) ==> zeros_from(segs, i) < n,
    decreases n,
{
    if n > 0 {
        if segs[i] == 0 {
            row_from(segs, i + 1, n - 1);
            if exists|k: int| i <= k < i + n && #[trigger] segs[k] != 0 {
                let k = choose|k: int| i <= k < i + n && #[trigger] segs[k] != 0;
                assert(i + 1 <= k < i + 1 + (n - 1) && segs[k] != 0);
            }
        }
    } else {
        zeros_are_counted(segs, i);
    }
}

proof fn zeros_are_counted(segs: Seq<int>, i: int)
    requires
        0 <= i <= segs.len(),
    ensures
        0 <= zeros_from(segs, i) <= segs.len() - i,
    decreases segs.len() - i,
{
    if i < segs.len() {
        zeros_are_counted(segs, i + 1);
    }
}

proof fn longest_is_first(segs: Seq<int>, n: int, start: int)
    requires
        0 <= start < segs.len(),
        0 <= n <= segs.len(),
        forall|i: int|
            0 <= i < start ==> #[trigger] zeros_from(segs, i) < zeros_from(segs, start),
        forall|i: int|
            start < i < segs.len() ==> #[trigger] zeros_from(segs, i) <= zeros_from(segs, start),
    ensures
        n > start ==> longest_zeros(segs, n) == start,
        n <= start ==> 0 <= longest_zeros(segs, n) && (longest_zeros(segs, n) < n || n == 0),
    decreases n,
{
    if n > 1 {
        longest_is_first(segs, n - 1, start);
        if n - 1 == start {
            assert(zeros_from(segs, longest_zeros(segs, n - 1)) < zeros_from(segs, start));
        } else if n - 1 > start {
            assert(zeros_from(segs, n - 1) <= zeros_from(segs, start));
        }
    }
}

/// Not all of the parts from `i` on are noughts.
pub open spec fn is_broken(segs: Seq<int>, i: int, len: int) -> bool {
    exists|k: int| i <= k < i + len && #[trigger] segs[k] != 0
}

/// Of an IPv6 address the longest row of noughts is left out, the first where two are as long, and
/// two colons stand in its place. A single nought is written.
pub proof fn the_longest_row_of_noughts_is_left_out(segs: Seq<int>, start: int, len: int)
    requires
        0 <= start,
        0 < len,
        start + len <= segs.len(),
        forall|k: int| start <= k < start + len ==> #[trigger] segs[k] == 0,
        start + len < segs.len() ==> segs[start + len] != 0,
        forall|i: int|
            0 <= i < start && i + len <= segs.len() ==> #[trigger] is_broken(segs, i, len),
        forall|i: int|
            start < i && i + len < segs.len() ==> #[trigger] is_broken(segs, i, len + 1),
    ensures
        len > 1 ==> ipv6_text(segs) == colon_parts(segs.take(start)) + "::"@ + colon_parts(
            segs.skip(start + len),
        ),
        len == 1 ==> ipv6_text(segs) == colon_parts(segs),
{
    row_from(segs, start, len);
    if start + len < segs.len() {
        row_from(segs, start, len + 1);
        assert(start <= start + len < start + (len + 1) && segs[start + len] != 0);
    } else {
        zeros_are_counted(segs, start);
    }
    assert(zeros_from(segs, start) == len);
    assert forall|i: int| 0 <= i < start implies #[trigger] zeros_from(segs, i) < zeros_from(
        segs,
        start,
    ) by {
        if i + len <= segs.len() {
            assert(is_broken(segs, i, len));
            row_from(segs, i, len);
        } else {
            zeros_are_counted(segs, i);
        }
    }
    assert forall|i: int| start < i < segs.len() implies #[trigger] zeros_from(segs, i)
        <= zeros_from(segs, start) by {
        if i + len < segs.len() {
            assert(is_broken(segs, i, len + 1));
            row_from(segs, i, len + 1);
        } else {
            zeros_are_counted(segs, i);
        }
    }
    longest_is_first(segs, segs.len() as int, start);
}

proof fn owned_stay(owned: Set<u32>, procs: Seq<(u32, u32)>, p: u32)
    ensures
        owned.contains(p) ==> grown(owned, procs).contains(p),
    decreases procs.len(),
{
    if procs.len() > 0 {
        owned_stay(owned, procs.drop_last(), p);
    }
}

/// Children belong to whom their parents belong to: a look at the processes adds each whose parent
/// was owned, keeps those that were, and adds only children of what is owned then.
pub proof fn children_are_owned(owned: Set<u32>, procs: Seq<(u32, u32)>, i: int, p: u32)
    ensures
        owned.contains(p) ==> grown(owned, procs).contains(p),
        0 <= i < procs.len() && owned.contains(procs[i].1) ==> grown(owned, procs).contains(
            procs[i].0,
        ),
        grown(owned, procs).contains(p) && !owned.contains(p) ==> exists|k: int|
            0 <= k < procs.len() && (#[trigger] procs[k]).0 == p && grown(owned, procs).contains(
                procs[k].1,
            ),
    decreases procs.len(),
{
    if procs.len() > 0 {
        let shorter = procs.drop_last();
        children_are_owned(owned, shorter, i, p);
        let before = grown(owned, shorter);
        let after = grown(owned, procs);
        assert(procs[procs.len() - 1] == procs.last());
        if 0 <= i < shorter.len() {
            assert(shorter[i] == procs[i]);
        }
        if i == procs.len() - 1 && owned.contains(procs[i].1) {
            owned_stay(owned, shorter, procs[i].1);
        }
        if after.contains(p) && !owned.contains(p) {
            if before.contains(p) {
                let k = choose|k: int|
                    0 <= k < shorter.len() && (#[trigger] shorter[k]).0 == p && before.contains(
                        shorter[k].1,
                    );
                assert(procs[k] == shorter[k]);
                assert(after.contains(procs[k].1));
            } else {
                assert(procs[procs.len() - 1].0 == p);
            }
        }
    }
}

/// Once a look at the processes adds none, every child of an owned process is owned.
pub proof fn looks_end_with_all_children(owned: Set<u32>, procs: Seq<(u32, u32)>, i: int)
    requires
        grown(owned, procs) == owned,
        0 <= i < procs.len(),
    ensures
        owned.contains(procs[i].1) ==> owned.contains(procs[i].0),
{
    children_are_owned(owned, procs, i, procs[i].0);
}

/// Two lists of processes that are joined hold those of both, the first list first and in its
/// order, and each that the second adds once.
pub proof fn joined_processes_are_those_of_both(a: Seq<int>, b: Seq<int>, p: int)
    ensures
        pids_joined(a, b).contains(p) <==> a.contains(p) || b.contains(p),
        pids_joined(a, b).len() >= a.len(),
        pids_joined(a, b).take(a.len() as int) == a,
        a.no_duplicates() ==> pids_joined(a, b).no_duplicates(),
    decreases b.len(),
{
    if b.len() > 0 {
        let shorter = b.drop_last();
        joined_processes_are_those_of_both(a, shorter, p);
        let before = pids_joined(a, shorter);
        let after = pids_joined(a, b);
        assert(b =~= shorter.push(b.last()));
        if b.contains(p) && p != b.last() {
            let k = choose|k: int| 0 <= k < b.len() && b[k] == p;
            assert(shorter[k] == p);
        }
        if shorter.contains(p) {
            let k = choose|k: int| 0 <= k < shorter.len() && shorter[k] == p;
            assert(b[k] == p);
        }
        assert(b[b.len() - 1] == b.last());
        if !before.contains(b.last()) {
            assert(after[before.len() as int] == b.last());
            assert(after.take(a.len() as int) =~= before.take(a.len() as int));
            if before.contains(p) {
                let k = choose|k: int| 0 <= k < before.len() && before[k] == p;
                assert(after[k] == p);
            }
            if after.contains(p) && p != b.last() {
                let k = choose|k: int| 0 <= k < after.len() && after[k] == p;
                assert(before[k] == p);
            }
        }
    } else {
        assert(a.take(a.len() as int) =~= a);
    }
}

/// The line tells of a port on which one of the owned processes listens.
pub open spec fn tells_port(line: Seq<char>, owned: Set<u32>, port: u16) -> bool {
    listen_line(line, owned) matches Some(l) && l.port as u16 == port
}

/// The line tells that an owned process listens on the port.
pub open spec fn tells_process(line: Seq<char>, owned: Set<u32>, port: u16, pid: int) -> bool {
    listen_line(line, owned) matches Some(l) && l.port as u16 == port && l.pids.contains(pid)
}

/// A port is shown where some line tells of it, and with it are the processes of all lines that
/// do.
pub proof fn lines_of_a_port_are_one(
    lines: Seq<Seq<char>>,
    owned: Set<u32>,
    port: u16,
    pid: int,
)
    ensures
        listening(lines, owned).contains_key(port) <==> exists|i: int|
            0 <= i < lines.len() && tells_port(#[trigger] lines[i], owned, port),
        listening(lines, owned).contains_key(port) ==> (listening(
            lines,
            owned,
        )[port].pids.contains(pid) <==> exists|i: int|
            0 <= i < lines.len() && tells_process(#[trigger] lines[i], owned, port, pid)),
    decreases lines.len(),
{
    if lines.len() > 0 {
        let shorter = lines.drop_last();
        lines_of_a_port_are_one(shorter, owned, port, pid);
        let before = listening(shorter, owned);
        let last = lines.last();
        assert(lines[lines.len() - 1] == last);
        if exists|i: int| 0 <= i < shorter.len() && tells_port(#[trigger] shorter[i], owned, port) {
            let i = choose|i: int|
                0 <= i < shorter.len() && tells_port(#[trigger] shorter[i], owned, port);
            assert(tells_port(lines[i], owned, port));
        }
        if exists|i: int| 0 <= i < lines.len() && tells_port(#[trigger] lines[i], owned, port) {
            let i = choose|i: int|
                0 <= i < lines.len() && tells_port(#[trigger] lines[i], owned, port);
            if i < shorter.len() {
                assert(tells_port(shorter[i], owned, port));
            }
        }
        if exists|i: int|
            0 <= i < shorter.len() && tells_process(#[trigger] shorter[i], owned, port, pid) {
            let i = choose|i: int|
                0 <= i < shorter.len() && tells_process(#[trigger] shorter[i], owned, port, pid);
            assert(tells_process(lines[i], owned, port, pid));
            assert(tells_port(shorter[i], owned, port));
        }
        if exists|i: int|
            0 <= i < lines.len() && tells_process(#[trigger] lines[i], owned, port, pid) {
            let i = choose|i: int|
                0 <= i < lines.len() && tells_process(#[trigger] lines[i], owned, port, pid);
            if i < shorter.len() {
                assert(tells_process(shorter[i], owned, port, pid));
            }
        }
        if let Some(l) = listen_line(last, owned) {
            if l.port as u16 == port && before.contains_key(port) {
                joined_processes_are_those_of_both(before[port].pids, l.pids, pid);
            }
        }
    }
}

/// A line of the system's list of sockets counts where it can be read; the first line is a
/// heading.
pub proof fn readable_lines_count(lines: Seq<Seq<char>>, line: Seq<char>, v6: bool, text: Seq<char>)
    ensures
        socket_line(line, v6) is None ==> socket_lines(lines.push(line), v6) == socket_lines(
            lines,
            v6,
        ),
        socket_line(line, v6) matches Some(e) ==> socket_lines(lines.push(line), v6)
            == socket_lines(lines, v6).push(e),
        socket_lines(Seq::empty(), v6).len() == 0,
        line_list(text).len() > 0 ==> seq![line_list(text)[0]] + below_heading(text) == line_list(
            text,
        ),
{
    assert(lines.push(line).drop_last() =~= lines);
    if line_list(text).len() > 0 {
        assert(seq![line_list(text)[0]] + below_heading(text) =~= line_list(text));
    }
}

proof fn digits_lead(d: Seq<char>, rest: Seq<char>)
    requires
        forall|i: int| 0 <= i < d.len() ==> '0' <= #[trigger] d[i] <= '9',
        rest.len() > 0 ==> !('0' <= rest[0] <= '9'),
    ensures
        leading_digits(d + rest) == d,
    decreases d.len(),
{
    if d.len() == 0 {
        assert(d + rest =~= rest);
        assert(d =~= Seq::<char>::empty());
    } else {
        let s = d + rest;
        assert(s[0] == d[0]);
        assert(s.drop_first() =~= d.drop_first() + rest);
        assert forall|i: int| 0 <= i < d.drop_first().len() implies '0' <= #[trigger] d.drop_first()[
            i] <= '9' by {
            assert(d.drop_first()[i] == d[i + 1]);
        }
        digits_lead(d.drop_first(), rest);
        assert(seq![d[0]] + d.drop_first() =~= d);
    }
}

/// The processes of a line are the numbers behind each `pid=`.
pub proof fn processes_stand_behind_their_sign(
    before: Seq<char>,
    digits: Seq<char>,
    rest: Seq<char>,
    n: int,
)
    requires
        position(before + "pid="@ + digits + rest, "pid="@) == Some(before.len() as int),
        forall|i: int| 0 <= i < digits.len() ==> '0' <= #[trigger] digits[i] <= '9',
        rest.len() > 0 ==> !('0' <= rest[0] <= '9'),
    ensures
        number(digits, 10, u32::MAX as int) == Some(n) ==> pids_in(
            before + "pid="@ + digits + rest,
        ) == seq![n] + pids_in(digits + rest),
        number(digits, 10, u32::MAX as int) is None ==> pids_in(before + "pid="@ + digits + rest)
            == pids_in(digits + rest),
{
    reveal_strlit("pid=");
    let line = before + "pid="@ + digits + rest;
    assert(line.skip(before.len() as int + 4) =~= digits + rest);
    digits_lead(digits, rest);
}

/// A line without the sign names no process.
pub proof fn without_the_sign_no_process(line: Seq<char>)
    requires
        position(line, "pid="@) is None,
    ensures
        pids_in(line).len() == 0,
{
}

/// The parent of a process is the second word behind the last bracket and space of its line.
pub proof fn parents_stand_behind_the_name(stat: Seq<char>, p: int)
    requires
        last_position(stat, ") "@) == Some(p),
    ensures
        words(stat.skip(p + 2)).len() >= 2 ==> stat_parent(stat) == number(
            words(stat.skip(p + 2))[1],
            10,
            u32::MAX as int,
        ),
        words(stat.skip(p + 2)).len() < 2 ==> stat_parent(stat) is None,
{
    reveal_strlit(") ");
}

} // verus!

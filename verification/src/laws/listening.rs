//! Which listening ports are found, and whose they are.
use crate::daemon::panes::lists;
use crate::daemon::ports::{
    descends, holds_ports, is_in_a_pane, is_wildcard, owner_of, pane_of, port_of_socket,
    ports_of_sockets, roots_of, value_for, DetectedPort, MAX_GENERATIONS, ScanInput,
};
use crate::daemon::sockets::SockEntry;
use crate::text::chars::opt_text;
use vstd::prelude::*;

verus! {

/// Each process of the line is the child of the next.
pub open spec fn is_lineage(line: Seq<u32>, parents: Map<u32, u32>) -> bool {
    &&& line.len() > 0
    &&& forall|i: int|
        0 <= i < line.len() - 1 ==> parents.contains_key(#[trigger] line[i])
            && parents[line[i]] == line[i + 1]
    &&& forall|i: int| 0 < i < line.len() - 1 ==> #[trigger] line[i] != 0
}

/// The process is that of a pane.
pub open spec fn is_pane_process(pid: u32, panes: Seq<(String, u32)>) -> bool {
    exists|k: int| 0 <= k < panes.len() && (#[trigger] panes[k]).1 == pid
}

/// The process is that of a pane or comes from one, over sixty-four generations at most.
pub open spec fn comes_from_a_pane(
    line: Seq<u32>,
    pid: u32,
    panes: Seq<(String, u32)>,
    parents: Map<u32, u32>,
) -> bool {
    &&& is_lineage(line, parents)
    &&& line.len() <= 65
    &&& line[0] == pid
    &&& is_pane_process(line.last(), panes)
}

proof fn roots_are(panes: Seq<(String, u32)>, pid: u32)
    ensures
        roots_of(panes).contains(pid) <==> is_pane_process(pid, panes),
    decreases panes.len(),
{
    if panes.len() > 0 {
        let shorter = panes.drop_last();
        roots_are(shorter, pid);
        if is_pane_process(pid, panes) {
            let k = choose|k: int| 0 <= k < panes.len() && (#[trigger] panes[k]).1 == pid;
            if k < shorter.len() {
                assert(shorter[k].1 == pid);
            }
        }
        if is_pane_process(pid, shorter) {
            let k = choose|k: int| 0 <= k < shorter.len() && (#[trigger] shorter[k]).1 == pid;
            assert(panes[k].1 == pid);
        }
        assert(panes[panes.len() - 1].1 == panes.last().1);
    }
}

proof fn lineage_descends(line: Seq<u32>, roots: Set<u32>, parents: Map<u32, u32>, fuel: nat)
    requires
        is_lineage(line, parents),
        line.len() <= fuel + 1,
        roots.contains(line.last()),
    ensures
        descends(line[0], roots, parents, fuel),
    decreases line.len(),
{
    if !roots.contains(line[0]) {
        assert(line.len() > 1);
        assert(parents.contains_key(line[0]) && parents[line[0]] == line[1]);
        let rest = line.drop_first();
        assert forall|i: int| 0 <= i < rest.len() - 1 implies parents.contains_key(
            #[trigger] rest[i],
        ) && parents[rest[i]] == rest[i + 1] by {
            assert(rest[i] == line[i + 1] && rest[i + 1] == line[i + 1 + 1]);
            assert(parents.contains_key(line[i + 1]));
        }
        assert forall|i: int| 0 < i < rest.len() - 1 implies #[trigger] rest[i] != 0 by {
            assert(rest[i] == line[i + 1]);
        }
        assert(rest.last() == line.last());
        assert(rest[0] == line[1]);
        if line[1] == line[0] {
            // A process that is its own parent comes from no other.
            own_parent(line, parents, 0);
        } else if line[1] == 0 {
            if line.len() > 2 {
                assert(line[1] != 0);
            }
            assert(line.len() == 2);
        } else {
            lineage_descends(rest, roots, parents, (fuel - 1) as nat);
        }
    }
}

proof fn own_parent(line: Seq<u32>, parents: Map<u32, u32>, i: int)
    requires
        is_lineage(line, parents),
        line.len() > 1,
        line[1] == line[0],
        0 <= i < line.len(),
        line[i] == line[0],
    ensures
        line.last() == line[0],
    decreases line.len() - i,
{
    if i + 1 < line.len() {
        assert(parents.contains_key(line[0]) && parents[line[0]] == line[1]);
        assert(parents.contains_key(line[i]) && parents[line[i]] == line[i + 1]);
        own_parent(line, parents, i + 1);
    }
}

proof fn descends_by_a_lineage(
    pid: u32,
    roots: Set<u32>,
    parents: Map<u32, u32>,
    fuel: nat,
) -> (line: Seq<u32>)
    requires
        descends(pid, roots, parents, fuel),
    ensures
        is_lineage(line, parents),
        line.len() <= fuel + 1,
        line[0] == pid,
        roots.contains(line.last()),
    decreases fuel,
{
    if roots.contains(pid) {
        seq![pid]
    } else {
        let parent = parents[pid];
        if parent == 0 || parent == pid {
            seq![pid, parent]
        } else {
            let rest = descends_by_a_lineage(parent, roots, parents, (fuel - 1) as nat);
            let line = seq![pid] + rest;
            assert forall|i: int| 0 <= i < line.len() - 1 implies parents.contains_key(
                #[trigger] line[i],
            ) && parents[line[i]] == line[i + 1] by {
                if i > 0 {
                    assert(line[i] == rest[i - 1]);
                    assert(line[i + 1] == rest[i - 1 + 1]);
                    assert(parents.contains_key(rest[i - 1]));
                }
            }
            assert forall|i: int| 0 < i < line.len() - 1 implies #[trigger] line[i] != 0 by {
                assert(line[i] == rest[i - 1]);
                if i == 1 {
                    assert(line[i] == parent);
                }
            }
            assert(line.last() == rest.last());
            line
        }
    }
}

/// A process is in a pane where it comes from the process of one, and only there.
pub proof fn lineage_decides(
    pid: u32,
    panes: Seq<(String, u32)>,
    parents: Map<u32, u32>,
)
    ensures
        is_in_a_pane(pid, panes, parents) <==> exists|line: Seq<u32>|
            comes_from_a_pane(line, pid, panes, parents),
{
    if is_in_a_pane(pid, panes, parents) {
        let line = descends_by_a_lineage(
            pid,
            roots_of(panes),
            parents,
            MAX_GENERATIONS as nat,
        );
        roots_are(panes, line.last());
        assert(comes_from_a_pane(line, pid, panes, parents));
    }
    if exists|line: Seq<u32>| comes_from_a_pane(line, pid, panes, parents) {
        let line = choose|line: Seq<u32>| comes_from_a_pane(line, pid, panes, parents);
        roots_are(panes, line.last());
        lineage_descends(line, roots_of(panes), parents, MAX_GENERATIONS as nat);
    }
}

/// The first of the processes that hold a socket and are in a pane has it.
proof fn owner_is_first(
    inode: u64,
    holders: Seq<(u32, Vec<u64>)>,
    panes: Seq<(String, u32)>,
    parents: Map<u32, u32>,
)
    ensures
        match owner_of(inode, holders, panes, parents) {
            Some(pid) => exists|h: int|
                0 <= h < holders.len() && (#[trigger] holders[h]).0 == pid
                    && holders[h].1@.contains(inode) && is_in_a_pane(pid, panes, parents) && (
                forall|k: int|
                    0 <= k < h && (#[trigger] holders[k]).1@.contains(inode) ==> !is_in_a_pane(
                        holders[k].0,
                        panes,
                        parents,
                    )),
            None => forall|h: int|
                0 <= h < holders.len() && (#[trigger] holders[h]).1@.contains(inode)
                    ==> !is_in_a_pane(holders[h].0, panes, parents),
        },
    decreases holders.len(),
{
    if holders.len() > 0 {
        if holders[0].1@.contains(inode) && is_in_a_pane(holders[0].0, panes, parents) {
            assert(holders[0].0 == holders[0].0);
        } else {
            let rest = holders.drop_first();
            owner_is_first(inode, rest, panes, parents);
            match owner_of(inode, rest, panes, parents) {
                Some(pid) => {
                    let h = choose|h: int|
                        0 <= h < rest.len() && (#[trigger] rest[h]).0 == pid
                            && rest[h].1@.contains(inode) && is_in_a_pane(pid, panes, parents) && (
                        forall|k: int|
                            0 <= k < h && (#[trigger] rest[k]).1@.contains(inode)
                                ==> !is_in_a_pane(rest[k].0, panes, parents));
                    assert(holders[h + 1] == rest[h]);
                    assert forall|k: int|
                        0 <= k < h + 1 && (
                        #[trigger] holders[k]).1@.contains(inode) implies !is_in_a_pane(
                        holders[k].0,
                        panes,
                        parents,
                    ) by {
                        if k > 0 {
                            assert(rest[k - 1] == holders[k]);
                        }
                    }
                },
                None => {
                    assert forall|h: int|
                        0 <= h < holders.len() && (
                        #[trigger] holders[h]).1@.contains(inode) implies !is_in_a_pane(
                        holders[h].0,
                        panes,
                        parents,
                    ) by {
                        if h > 0 {
                            assert(rest[h - 1] == holders[h]);
                        }
                    }
                },
            }
        }
    }
}

/// The port of an entry is listed where the entry counts, with a host of one of the entries.
proof fn counted_entries_are_listed(
    input: ScanInput,
    entries: Seq<SockEntry>,
    floor: u16,
    holders: Seq<(u32, Vec<u64>)>,
    names: Map<u32, String>,
    parents: Map<u32, u32>,
    e: int,
)
    requires
        0 <= e < entries.len(),
        port_of_socket(input, entries[e], floor, holders, names, parents) is Some,
    ensures
        ({
            let ports = ports_of_sockets(input, entries, floor, holders, names, parents);
            let port = entries[e].port;
            &&& ports.contains_key(port)
            &&& ports[port].port == port
            &&& is_wildcard(entries[e].host@) ==> is_wildcard(ports[port].host)
            &&& exists|i: int|
                0 <= i < entries.len() && (#[trigger] entries[i]).port == port
                    && entries[i].host@ == ports[port].host
        }),
    decreases entries.len(),
{
    let shorter = entries.drop_last();
    let ports = ports_of_sockets(input, entries, floor, holders, names, parents);
    let before = ports_of_sockets(input, shorter, floor, holders, names, parents);
    let port = entries[e].port;
    let last = entries.last();
    assert(entries[entries.len() - 1] == last);
    if before.contains_key(port) {
        listed_comes_from_an_entry(input, shorter, floor, holders, names, parents, port);
        let f = choose|f: int|
            0 <= f < shorter.len() && (#[trigger] shorter[f]).port == port && port_of_socket(
                input,
                shorter[f],
                floor,
                holders,
                names,
                parents,
            ) is Some;
        let from = if e < shorter.len() { e } else { f };
        assert(shorter[from] == entries[from]);
        counted_entries_are_listed(input, shorter, floor, holders, names, parents, from);
        let i = choose|i: int|
            0 <= i < shorter.len() && (#[trigger] shorter[i]).port == port && shorter[i].host@
                == before[port].host;
        assert(entries[i] == shorter[i]);
    } else if e < shorter.len() {
        assert(shorter[e] == entries[e]);
        counted_entries_are_listed(input, shorter, floor, holders, names, parents, e);
    }
}

proof fn listed_comes_from_an_entry(
    input: ScanInput,
    entries: Seq<SockEntry>,
    floor: u16,
    holders: Seq<(u32, Vec<u64>)>,
    names: Map<u32, String>,
    parents: Map<u32, u32>,
    port: u16,
)
    requires
        ports_of_sockets(input, entries, floor, holders, names, parents).contains_key(port),
    ensures
        exists|f: int|
            0 <= f < entries.len() && (#[trigger] entries[f]).port == port && port_of_socket(
                input,
                entries[f],
                floor,
                holders,
                names,
                parents,
            ) is Some,
    decreases entries.len(),
{
    let shorter = entries.drop_last();
    let before = ports_of_sockets(input, shorter, floor, holders, names, parents);
    if before.contains_key(port) {
        listed_comes_from_an_entry(input, shorter, floor, holders, names, parents, port);
        let f = choose|f: int|
            0 <= f < shorter.len() && (#[trigger] shorter[f]).port == port && port_of_socket(
                input,
                shorter[f],
                floor,
                holders,
                names,
                parents,
            ) is Some;
        assert(entries[f] == shorter[f]);
    } else {
        assert(entries[entries.len() - 1] == entries.last());
    }
}

/// A process whose name is on the list of those that are left out.
pub open spec fn is_left_out(input: ScanInput, names: Map<u32, String>, pid: u32) -> bool {
    names.contains_key(pid) && exists|i: int|
        0 <= i < input.ignore_processes@.len() && (#[trigger] input.ignore_processes@[i])@
            == names[pid]@
}

/// A listening socket that a process in a pane holds is found, whatever address it listens on,
/// unless its port or the processes in panes that hold it are left out. Where it listens on all
/// addresses, the port is said to.
pub proof fn sockets_of_panes_are_found(
    found: Map<u16, DetectedPort>,
    input: ScanInput,
    entries: Seq<SockEntry>,
    floor: u16,
    holders: Seq<(u32, Vec<u64>)>,
    names: Map<u32, String>,
    parents: Map<u32, u32>,
    e: int,
    h: int,
    line: Seq<u32>,
)
    requires
        holds_ports(found, ports_of_sockets(input, entries, floor, holders, names, parents)),
        0 <= e < entries.len(),
        !input.ignore_ports@.contains(entries[e].port),
        entries[e].port < floor || !input.ignore_ephemeral,
        0 <= h < holders.len(),
        holders[h].1@.contains(entries[e].inode),
        comes_from_a_pane(line, holders[h].0, input.pane_pids@, parents),
        forall|k: int|
            0 <= k < holders.len() && (#[trigger] holders[k]).1@.contains(entries[e].inode)
                && is_in_a_pane(holders[k].0, input.pane_pids@, parents) ==> !is_left_out(
                input,
                names,
                holders[k].0,
            ),
    ensures
        found.contains_key(entries[e].port),
        found[entries[e].port].port == entries[e].port,
        exists|i: int|
            0 <= i < entries.len() && (#[trigger] entries[i]).port == entries[e].port
                && entries[i].host@ == found[entries[e].port].host@,
        entries[e].host@ == "0.0.0.0"@ || entries[e].host@ == "::"@ || entries[e].host@ == "*"@ ==> (
        found[entries[e].port].host@ == "0.0.0.0"@ || found[entries[e].port].host@ == "::"@
            || found[entries[e].port].host@ == "*"@),
{
    let inode = entries[e].inode;
    lineage_decides(holders[h].0, input.pane_pids@, parents);
    owner_is_first(inode, holders, input.pane_pids@, parents);
    counted_entries_are_listed_here(input, entries, floor, holders, names, parents, e);
    let port = entries[e].port;
    let ports = ports_of_sockets(input, entries, floor, holders, names, parents);
    assert(found.dom().contains(port));
    assert(found[port]@ == ports[port]);
}

proof fn counted_entries_are_listed_here(
    input: ScanInput,
    entries: Seq<SockEntry>,
    floor: u16,
    holders: Seq<(u32, Vec<u64>)>,
    names: Map<u32, String>,
    parents: Map<u32, u32>,
    e: int,
)
    requires
        0 <= e < entries.len(),
        !input.ignore_ports@.contains(entries[e].port),
        entries[e].port < floor || !input.ignore_ephemeral,
        exists|h: int|
            0 <= h < holders.len() && (#[trigger] holders[h]).1@.contains(entries[e].inode)
                && is_in_a_pane(holders[h].0, input.pane_pids@, parents),
        forall|k: int|
            0 <= k < holders.len() && (#[trigger] holders[k]).1@.contains(entries[e].inode)
                && is_in_a_pane(holders[k].0, input.pane_pids@, parents) ==> !is_left_out(
                input,
                names,
                holders[k].0,
            ),
    ensures
        ({
            let ports = ports_of_sockets(input, entries, floor, holders, names, parents);
            let port = entries[e].port;
            &&& ports.contains_key(port)
            &&& ports[port].port == port
            &&& is_wildcard(entries[e].host@) ==> is_wildcard(ports[port].host)
            &&& exists|i: int|
                0 <= i < entries.len() && (#[trigger] entries[i]).port == port
                    && entries[i].host@ == ports[port].host
        }),
{
    owner_is_first(entries[e].inode, holders, input.pane_pids@, parents);
    let pid = owner_of(entries[e].inode, holders, input.pane_pids@, parents)->0;
    assert(!is_left_out(input, names, pid));
    assert(port_of_socket(input, entries[e], floor, holders, names, parents) is Some);
    counted_entries_are_listed(input, entries, floor, holders, names, parents, e);
}

/// A port that is found is one of the sockets', of a process in a pane that holds such a socket;
/// neither the port nor the process is left out.
pub proof fn nothing_else_is_found(
    found: Map<u16, DetectedPort>,
    input: ScanInput,
    entries: Seq<SockEntry>,
    floor: u16,
    holders: Seq<(u32, Vec<u64>)>,
    names: Map<u32, String>,
    parents: Map<u32, u32>,
    port: u16,
)
    requires
        holds_ports(found, ports_of_sockets(input, entries, floor, holders, names, parents)),
        found.contains_key(port),
    ensures
        !input.ignore_ports@.contains(port),
        input.ignore_ephemeral ==> port < floor,
        found[port].forward is None,
        exists|e: int, h: int|
            #![trigger entries[e], holders[h]]
            0 <= e < entries.len() && 0 <= h < holders.len() && entries[e].port == port
                && holders[h].1@.contains(entries[e].inode) && is_in_a_pane(
                holders[h].0,
                input.pane_pids@,
                parents,
            ) && !is_left_out(input, names, holders[h].0),
{
    let ports = ports_of_sockets(input, entries, floor, holders, names, parents);
    assert(found.dom().contains(port));
    assert(ports.contains_key(port));
    listed_comes_from_an_entry(input, entries, floor, holders, names, parents, port);
    let e = choose|e: int|
        0 <= e < entries.len() && (#[trigger] entries[e]).port == port && port_of_socket(
            input,
            entries[e],
            floor,
            holders,
            names,
            parents,
        ) is Some;
    owner_is_first(entries[e].inode, holders, input.pane_pids@, parents);
    let pid = owner_of(entries[e].inode, holders, input.pane_pids@, parents)->0;
    let h = choose|h: int|
        0 <= h < holders.len() && (#[trigger] holders[h]).0 == pid && holders[h].1@.contains(
            entries[e].inode,
        ) && is_in_a_pane(pid, input.pane_pids@, parents);
    assert(lists(input.ignore_processes@, names[pid]@) <==> exists|i: int|
        0 <= i < input.ignore_processes@.len() && (#[trigger] input.ignore_processes@[i])@
            == names[pid]@);
    assert(entries[e].port == port && holders[h].0 == pid);
}

/// The only socket of a port says all that is told of it: its host, the first process in a pane
/// that holds it, and the name of that process.
pub proof fn a_single_socket_is_told(
    found: Map<u16, DetectedPort>,
    input: ScanInput,
    entries: Seq<SockEntry>,
    floor: u16,
    holders: Seq<(u32, Vec<u64>)>,
    names: Map<u32, String>,
    parents: Map<u32, u32>,
    e: int,
    h: int,
)
    requires
        holds_ports(found, ports_of_sockets(input, entries, floor, holders, names, parents)),
        0 <= e < entries.len(),
        forall|i: int|
            0 <= i < entries.len() && i != e ==> (#[trigger] entries[i]).port != entries[e].port,
        !input.ignore_ports@.contains(entries[e].port),
        entries[e].port < floor || !input.ignore_ephemeral,
        0 <= h < holders.len(),
        holders[h].1@.contains(entries[e].inode),
        is_in_a_pane(holders[h].0, input.pane_pids@, parents),
        !is_left_out(input, names, holders[h].0),
        forall|k: int|
            0 <= k < h && (#[trigger] holders[k]).1@.contains(entries[e].inode) ==> !is_in_a_pane(
                holders[k].0,
                input.pane_pids@,
                parents,
            ),
    ensures
        ({
            let port = entries[e].port;
            let pid = holders[h].0;
            &&& found.contains_key(port)
            &&& found[port].host@ == entries[e].host@
            &&& found[port].pid == Some(pid)
            &&& names.contains_key(pid) ==> (found[port].process matches Some(name) && name@
                == names[pid]@)
            &&& !names.contains_key(pid) ==> found[port].process is None
            &&& opt_text(found[port].pane) == pane_of(
                pid,
                input.pane_pids@,
                parents,
            )
            &&& match pane_of(pid, input.pane_pids@, parents) {
                Some(pane) => opt_text(found[port].workspace) == value_for(
                    input.pane_workspace@,
                    pane,
                ),
                None => found[port].workspace is None,
            }
        }),
{
    let port = entries[e].port;
    let pid = holders[h].0;
    owner_is_first(entries[e].inode, holders, input.pane_pids@, parents);
    let owner = owner_of(entries[e].inode, holders, input.pane_pids@, parents);
    assert(owner == Some(pid)) by {
        assert(holders[h].1@.contains(entries[e].inode));
        let g = choose|g: int|
            0 <= g < holders.len() && (#[trigger] holders[g]).0 == owner->0
                && holders[g].1@.contains(entries[e].inode) && is_in_a_pane(
                owner->0,
                input.pane_pids@,
                parents,
            ) && (forall|k: int|
                0 <= k < g && (#[trigger] holders[k]).1@.contains(entries[e].inode)
                    ==> !is_in_a_pane(holders[k].0, input.pane_pids@, parents));
        if g < h {
            assert(holders[g].1@.contains(entries[e].inode));
        }
    }
    assert(!lists(input.ignore_processes@, names[pid]@) || !names.contains_key(pid));
    only_socket(input, entries, floor, holders, names, parents, e);
    assert(found.dom().contains(port));
    assert(found[port]@
        == ports_of_sockets(input, entries, floor, holders, names, parents)[port]);
    match found[port].process {
        Some(_) => {},
        None => {},
    }
}

proof fn only_socket(
    input: ScanInput,
    entries: Seq<SockEntry>,
    floor: u16,
    holders: Seq<(u32, Vec<u64>)>,
    names: Map<u32, String>,
    parents: Map<u32, u32>,
    e: int,
)
    requires
        0 <= e < entries.len(),
        forall|i: int|
            0 <= i < entries.len() && i != e ==> (#[trigger] entries[i]).port != entries[e].port,
        port_of_socket(input, entries[e], floor, holders, names, parents) is Some,
    ensures
        ({
            let ports = ports_of_sockets(input, entries, floor, holders, names, parents);
            &&& ports.contains_key(entries[e].port)
            &&& ports[entries[e].port] == port_of_socket(
                input,
                entries[e],
                floor,
                holders,
                names,
                parents,
            )->0
        }),
    decreases entries.len(),
{
    let shorter = entries.drop_last();
    if e < shorter.len() {
        assert(shorter[e] == entries[e]);
        assert forall|i: int| 0 <= i < shorter.len() && i != e implies (
        #[trigger] shorter[i]).port != shorter[e].port by {
            assert(shorter[i] == entries[i]);
        }
        only_socket(input, shorter, floor, holders, names, parents, e);
        assert(entries[entries.len() - 1].port != entries[e].port);
    } else {
        let before = ports_of_sockets(input, shorter, floor, holders, names, parents);
        if before.contains_key(entries[e].port) {
            listed_comes_from_an_entry(
                input,
                shorter,
                floor,
                holders,
                names,
                parents,
                entries[e].port,
            );
            let f = choose|f: int|
                0 <= f < shorter.len() && (#[trigger] shorter[f]).port == entries[e].port
                    && port_of_socket(
                    input,
                    shorter[f],
                    floor,
                    holders,
                    names,
                    parents,
                ) is Some;
            assert(entries[f] == shorter[f]);
        }
    }
}

/// A process of its own pane belongs to that pane, though it come from another too.
pub proof fn own_pane_comes_first(
    pid: u32,
    panes: Seq<(String, u32)>,
    parents: Map<u32, u32>,
    k: int,
)
    requires
        0 <= k < panes.len(),
        panes[k].1 == pid,
        forall|j: int| k < j < panes.len() ==> (#[trigger] panes[j]).1 != pid,
    ensures
        pane_of(pid, panes, parents) == Some(panes[k].0@),
    decreases panes.len(),
{
    if k < panes.len() - 1 {
        let shorter = panes.drop_last();
        assert(shorter[k] == panes[k]);
        assert forall|j: int| k < j < shorter.len() implies (#[trigger] shorter[j]).1 != pid by {
            assert(shorter[j] == panes[j]);
        }
        own_pane_comes_first(pid, shorter, parents, k);
        assert(panes[panes.len() - 1].1 != pid);
    }
}

/// Another process belongs to the first pane that it comes from.
pub proof fn first_pane_of_the_line(
    pid: u32,
    panes: Seq<(String, u32)>,
    parents: Map<u32, u32>,
    k: int,
    line: Seq<u32>,
)
    requires
        0 <= k < panes.len(),
        forall|j: int| 0 <= j < panes.len() ==> (#[trigger] panes[j]).1 != pid,
        is_lineage(line, parents),
        line.len() <= 65,
        line[0] == pid,
        line.last() == panes[k].1,
        forall|j: int, other: Seq<u32>|
            #![trigger panes[j], is_lineage(other, parents)]
            0 <= j < k && is_lineage(other, parents) && other.len() <= 65 && other[0] == pid
                ==> other.last() != panes[j].1,
    ensures
        pane_of(pid, panes, parents) == Some(panes[k].0@),
    decreases panes.len(),
{
    let shorter = panes.drop_last();
    let root = panes.last().1;
    assert(panes[panes.len() - 1] == panes.last());
    if k < panes.len() - 1 {
        assert(shorter[k] == panes[k]);
        assert forall|j: int| 0 <= j < shorter.len() implies (#[trigger] shorter[j]).1 != pid by {
            assert(shorter[j] == panes[j]);
        }
        assert forall|j: int, other: Seq<u32>|
            #![trigger shorter[j], is_lineage(other, parents)]
            0 <= j < k && is_lineage(other, parents) && other.len() <= 65 && other[0]
                == pid implies other.last() != shorter[j].1 by {
            assert(shorter[j] == panes[j]);
        }
        first_pane_of_the_line(pid, shorter, parents, k, line);
    } else {
        lineage_descends(line, Set::empty().insert(root), parents, MAX_GENERATIONS as nat);
        no_pane_of(pid, shorter, parents);
    }
}

proof fn no_pane_of(pid: u32, panes: Seq<(String, u32)>, parents: Map<u32, u32>)
    requires
        forall|j: int| 0 <= j < panes.len() ==> (#[trigger] panes[j]).1 != pid,
        forall|j: int, other: Seq<u32>|
            #![trigger panes[j], is_lineage(other, parents)]
            0 <= j < panes.len() && is_lineage(other, parents) && other.len() <= 65 && other[0]
                == pid ==> other.last() != panes[j].1,
    ensures
        pane_of(pid, panes, parents) is None,
    decreases panes.len(),
{
    if panes.len() > 0 {
        let shorter = panes.drop_last();
        let root = panes.last().1;
        assert(panes[panes.len() - 1] == panes.last());
        assert forall|j: int| 0 <= j < shorter.len() implies (#[trigger] shorter[j]).1 != pid by {
            assert(shorter[j] == panes[j]);
        }
        assert forall|j: int, other: Seq<u32>|
            #![trigger shorter[j], is_lineage(other, parents)]
            0 <= j < shorter.len() && is_lineage(other, parents) && other.len() <= 65 && other[0]
                == pid implies other.last() != shorter[j].1 by {
            assert(shorter[j] == panes[j]);
        }
        no_pane_of(pid, shorter, parents);
        let only = Set::empty().insert(root);
        if descends(pid, only, parents, MAX_GENERATIONS as nat) {
            let line = descends_by_a_lineage(pid, only, parents, MAX_GENERATIONS as nat);
            assert(line.last() != panes[panes.len() - 1].1);
        }
    }
}

/// The workspace of a pane is the first that is given for it.
pub proof fn first_value_counts(pairs: Seq<(String, String)>, key: Seq<char>, k: int)
    requires
        0 <= k < pairs.len(),
        pairs[k].0@ == key,
        forall|j: int| 0 <= j < k ==> (#[trigger] pairs[j]).0@ != key,
    ensures
        value_for(pairs, key) == Some(pairs[k].1@),
    decreases k,
{
    if k > 0 {
        let rest = pairs.drop_first();
        assert(rest[k - 1] == pairs[k]);
        assert forall|j: int| 0 <= j < k - 1 implies (#[trigger] rest[j]).0@ != key by {
            assert(rest[j] == pairs[j + 1]);
        }
        first_value_counts(rest, key, k - 1);
    }
}

} // verus!

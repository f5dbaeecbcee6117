//! Ports that the processes of panes listen on: the registry of them, and how they are read
//! and attributed.
use crate::daemon::portmap::{is_key_list, keys_of};
use crate::daemon::sockets::SockEntry;
use crate::model::ListeningPort;
use crate::text::chars::{
    blank, chars_of, clone_opt, is_blank, opt_text, push_chars, same, split_words, trim_text,
    trimmed, views, words,
};
use crate::text::numbers::{decimal, decimal_chars};
use std::collections::{BTreeMap, BTreeSet, HashMap};
use vstd::prelude::*;

verus! {

broadcast use {
    vstd::std_specs::btree::group_btree_axioms,
    vstd::std_specs::hash::group_hash_axioms,
};

/// Where a port is forwarded to.
#[derive(Debug)]
pub struct ForwardInfo {
    pub via: String,
    pub url: String,
}

/// A port that is listened on, and the pane it belongs to where that is known.
#[derive(Debug)]
pub struct DetectedPort {
    pub port: u16,
    pub host: String,
    pub pid: Option<u32>,
    pub process: Option<String>,
    pub pane: Option<String>,
    pub workspace: Option<String>,
    pub forward: Option<ForwardInfo>,
}

/// A proxy that forwards a port.
#[derive(Debug)]
pub struct ForwardHandle {
    /// The number by which the proxy is told to stop.
    pub stop: u64,
    pub url: String,
}

/// The ports that are known, and the proxies that forward some of them.
#[derive(Debug)]
pub struct PortRegistry {
    /// By port number.
    pub ports: BTreeMap<u16, DetectedPort>,
    /// By port number.
    pub forwards: BTreeMap<u16, ForwardHandle>,
    /// The proxies that have been told to stop, in that order.
    pub stopped: Vec<u64>,
}

/// What a new look at the ports brought.
#[derive(Debug)]
pub struct PortDiff {
    pub opened: Vec<DetectedPort>,
    pub closed: Vec<DetectedPort>,
}

fn clone_forward(f: &ForwardInfo) -> (r: ForwardInfo)
    ensures
        r == *f,
{
    ForwardInfo { via: f.via.clone(), url: f.url.clone() }
}

/// A copy of a port.
pub fn clone_port(p: &DetectedPort) -> (r: DetectedPort)
    ensures
        r == *p,
{
    DetectedPort {
        port: p.port,
        host: p.host.clone(),
        pid: p.pid,
        process: clone_opt(&p.process),
        pane: clone_opt(&p.pane),
        workspace: clone_opt(&p.workspace),
        forward: match &p.forward {
            Some(f) => Some(clone_forward(f)),
            None => None,
        },
    }
}

impl Default for PortRegistry {
    fn default() -> (r: Self)
        ensures
            r.ports@ == Map::<u16, DetectedPort>::empty(),
            r.forwards@ == Map::<u16, ForwardHandle>::empty(),
            r.stopped@.len() == 0,
    {
        PortRegistry { ports: BTreeMap::new(), forwards: BTreeMap::new(), stopped: Vec::new() }
    }
}

/// `shown` is the port `known`, with the proxy that forwards the number `at` where there is
/// one.
pub open spec fn shows_forward(
    shown: DetectedPort,
    known: DetectedPort,
    forwards: Map<u16, ForwardHandle>,
    at: u16,
) -> bool {
    if forwards.contains_key(at) {
        &&& shown == DetectedPort { forward: shown.forward, ..known }
        &&& shown.forward matches Some(f) && f.via@ == "tailscale"@ && f.url == forwards[at].url
    } else {
        shown == known
    }
}

/// The ports `list`, by their keys in `m`, in order.
pub open spec fn lists_values(
    list: Seq<DetectedPort>,
    keys: Seq<u16>,
    m: Map<u16, DetectedPort>,
) -> bool {
    &&& list.len() == keys.len()
    &&& forall|i: int| 0 <= i < keys.len() ==> #[trigger] list[i] == m[keys[i]]
}

/// The ports of `a` whose numbers `b` does not have, by number.
pub open spec fn lists_only_in(
    list: Seq<DetectedPort>,
    a: Map<u16, DetectedPort>,
    b: Map<u16, DetectedPort>,
) -> bool {
    exists|keys: Seq<u16>|
        #![trigger lists_values(list, keys, a)]
        is_key_list(keys, a.remove_keys(b.dom())) && lists_values(list, keys, a)
}

impl PortRegistry {
    fn show(&self, known: &DetectedPort, at: u16) -> (r: DetectedPort)
        ensures
            shows_forward(r, *known, self.forwards@, at),
    {
        let mut p = clone_port(known);
        if let Some(f) = self.forwards.get(&at) {
            p.forward = Some(ForwardInfo { via: "tailscale".to_string(), url: f.url.clone() });
        }
        p
    }

    /// The known ports by number, each with its proxy.
    pub fn list(&self) -> (r: Vec<DetectedPort>)
        ensures
            exists|keys: Seq<u16>|
                {
                    &&& is_key_list(keys, self.ports@)
                    &&& r@.len() == keys.len()
                    &&& forall|i: int|
                        0 <= i < keys.len() ==> shows_forward(
                            #[trigger] r@[i],
                            self.ports@[keys[i]],
                            self.forwards@,
                            self.ports@[keys[i]].port,
                        )
                },
    {
        let keys = keys_of(&self.ports);
        let mut out: Vec<DetectedPort> = Vec::new();
        let mut i: usize = 0;
        while i < keys.len()
            invariant
                i <= keys.len(),
                is_key_list(keys@, self.ports@),
                out@.len() == i,
                forall|k: int|
                    0 <= k < i ==> shows_forward(
                        #[trigger] out@[k],
                        self.ports@[keys@[k]],
                        self.forwards@,
                        self.ports@[keys@[k]].port,
                    ),
            decreases keys.len() - i,
        {
            assert(keys@.contains(keys@[i as int]));
            if let Some(p) = self.ports.get(&keys[i]) {
                out.push(self.show(p, p.port));
            }
            i += 1;
        }
        out
    }

    /// The port with the number, with its proxy.
    pub fn get(&self, port: u16) -> (r: Option<DetectedPort>)
        ensures
            r is Some <==> self.ports@.contains_key(port),
            r matches Some(p) ==> shows_forward(p, self.ports@[port], self.forwards@, port),
    {
        match self.ports.get(&port) {
            Some(p) => Some(self.show(p, port)),
            None => None,
        }
    }

    /// Takes a new look at the ports in. Returns those that are new and those that are gone,
    /// each by number.
    pub fn replace_detected(&mut self, next: BTreeMap<u16, DetectedPort>) -> (r: PortDiff)
        ensures
            final(self).ports@ == next@,
            final(self).forwards == old(self).forwards,
            final(self).stopped == old(self).stopped,
            lists_only_in(r.opened@, next@, old(self).ports@),
            lists_only_in(r.closed@, old(self).ports@, next@),
    {
        let opened = only_in(&next, &self.ports);
        let closed = only_in(&self.ports, &next);
        self.ports = next;
        PortDiff { opened, closed }
    }

    /// Tells the proxy of the port to stop, where there is one.
    pub fn stop_forward(&mut self, port: u16) -> (r: bool)
        ensures
            r == old(self).forwards@.contains_key(port),
            final(self).forwards@ == old(self).forwards@.remove(port),
            final(self).stopped@ == if r {
                old(self).stopped@.push(old(self).forwards@[port].stop)
            } else {
                old(self).stopped@
            },
            final(self).ports == old(self).ports,
    {
        match self.forwards.remove(&port) {
            Some(handle) => {
                self.stopped.push(handle.stop);
                true
            },
            None => {
                assert(self.forwards@ =~= old(self).forwards@.remove(port));
                false
            },
        }
    }

    /// Tells all proxies to stop, by number of their ports.
    pub fn stop_all_forwards(&mut self)
        ensures
            final(self).forwards@ == Map::<u16, ForwardHandle>::empty(),
            final(self).ports == old(self).ports,
            exists|keys: Seq<u16>|
                is_key_list(keys, old(self).forwards@) && final(self).stopped@ == old(self).stopped@
                    + keys.map_values(|k: u16| old(self).forwards@[k].stop),
    {
        let keys = keys_of(&self.forwards);
        let ghost first = self.forwards@;
        let ghost stopped = self.stopped@;
        let ghost stop_of = |k: u16| first[k].stop;
        let mut i: usize = 0;
        assert(self.stopped@ =~= stopped + keys@.take(0).map_values(stop_of));
        while i < keys.len()
            invariant
                i <= keys.len(),
                is_key_list(keys@, first),
                stop_of == (|k: u16| first[k].stop),
                self.ports == old(self).ports,
                self.stopped@ == stopped + keys@.take(i as int).map_values(stop_of),
                forall|k: u16| #[trigger]
                    self.forwards@.contains_key(k) <==> first.contains_key(k) && !keys@.take(
                        i as int,
                    ).contains(k),
                forall|k: u16| #[trigger]
                    self.forwards@.contains_key(k) ==> self.forwards@[k] == first[k],
            decreases keys.len() - i,
        {
            let ghost before = self.forwards@;
            assert(keys@.contains(keys@[i as int]));
            assert(!keys@.take(i as int).contains(keys@[i as int])) by {
                if keys@.take(i as int).contains(keys@[i as int]) {
                    let n = choose|n: int|
                        0 <= n < i && keys@.take(i as int)[n] == keys@[i as int];
                    assert(keys@[n] < keys@[i as int]);
                }
            }
            assert(before.contains_key(keys@[i as int]));
            let _had = self.stop_forward(keys[i]);
            proof {
                let part = keys@.take(i as int);
                let more = keys@.take(i + 1);
                assert(more =~= part.push(keys@[i as int]));
                assert(more.map_values(stop_of) =~= part.map_values(stop_of).push(
                    stop_of(keys@[i as int]),
                ));
                assert(self.stopped@ =~= stopped + more.map_values(stop_of));
                assert forall|k: u16| #[trigger]
                    self.forwards@.contains_key(k) <==> first.contains_key(k) && !more.contains(
                        k,
                    ) by {
                    assert(before.contains_key(k) <==> first.contains_key(k) && !part.contains(k));
                    if more.contains(k) && k != keys@[i as int] {
                        let n = choose|n: int| 0 <= n < more.len() && more[n] == k;
                        assert(part[n] == k);
                    }
                    if part.contains(k) {
                        let n = choose|n: int| 0 <= n < part.len() && part[n] == k;
                        assert(more[n] == k);
                    }
                    assert(more[i as int] == keys@[i as int]);
                }
                assert forall|k: u16| #[trigger] self.forwards@.contains_key(k) implies self.forwards@[k]
                    == first[k] by {
                    assert(before.contains_key(k));
                }
            }
            i += 1;
        }
        proof {
            assert(keys@.take(i as int) =~= keys@);
            assert forall|k: u16| !self.forwards@.contains_key(k) by {
                if self.forwards@.contains_key(k) {
                    assert(keys@.contains(k));
                }
            }
            assert(self.forwards@ =~= Map::empty());
        }
    }

    /// Whether the port is forwarded.
    pub fn has_forward(&self, port: u16) -> (r: bool)
        ensures
            r == self.forwards@.contains_key(port),
    {
        self.forwards.contains_key(&port)
    }

    /// Notes the proxy of a port. One that the port had before is told to stop.
    pub fn insert_forward(&mut self, port: u16, stop: u64, url: String)
        ensures
            final(self).forwards@ == old(self).forwards@.insert(port, (ForwardHandle { stop, url })),
            final(self).stopped@ == if old(self).forwards@.contains_key(port) {
                old(self).stopped@.push(old(self).forwards@[port].stop)
            } else {
                old(self).stopped@
            },
            final(self).ports == old(self).ports,
    {
        if let Some(before) = self.forwards.insert(port, ForwardHandle { stop, url }) {
            self.stopped.push(before.stop);
        }
    }
}

/// The ports of `a` whose numbers `b` does not have, by number.
fn only_in(a: &BTreeMap<u16, DetectedPort>, b: &BTreeMap<u16, DetectedPort>) -> (r: Vec<
    DetectedPort,
>)
    ensures
        lists_only_in(r@, a@, b@),
{
    let keys = keys_of(a);
    let mut out: Vec<DetectedPort> = Vec::new();
    let ghost mut kept: Seq<u16> = Seq::empty();
    let ghost rest = a@.remove_keys(b@.dom());
    let mut i: usize = 0;
    while i < keys.len()
        invariant
            i <= keys.len(),
            is_key_list(keys@, a@),
            lists_values(out@, kept, a@),
            forall|n: int, m: int| 0 <= n < m < kept.len() ==> #[trigger] kept[n] < #[trigger] kept[m],
            forall|n: int| 0 <= n < kept.len() ==> !b@.contains_key(#[trigger] kept[n]) && (exists|j: int|
                0 <= j < i && keys@[j] == kept[n]),
            forall|j: int|
                0 <= j < i && !b@.contains_key(#[trigger] keys@[j]) ==> kept.contains(keys@[j]),
        decreases keys.len() - i,
    {
        let k = keys[i];
        assert(keys@.contains(k));
        if !b.contains_key(&k) {
            if let Some(p) = a.get(&k) {
                out.push(clone_port(p));
                let ghost before = kept;
                proof {
                    assert forall|n: int| 0 <= n < before.len() implies before[n] < k by {
                        let j = choose|j: int| 0 <= j < i && keys@[j] == before[n];
                        assert(keys@[j] < keys@[i as int]);
                    }
                    kept = kept.push(k);
                    assert(kept[before.len() as int] == k);
                    assert forall|j: int|
                        0 <= j < i + 1 && !b@.contains_key(#[trigger] keys@[j]) implies kept.contains(
                        keys@[j],
                    ) by {
                        if j < i {
                            let n = choose|n: int| 0 <= n < before.len() && before[n] == keys@[j];
                            assert(kept[n] == keys@[j]);
                        }
                    }
                    assert forall|n: int| 0 <= n < kept.len() implies !b@.contains_key(
                        #[trigger] kept[n],
                    ) && (exists|j: int| 0 <= j < i + 1 && keys@[j] == kept[n]) by {
                        if n < before.len() {
                            let j = choose|j: int| 0 <= j < i && keys@[j] == before[n];
                            assert(keys@[j] == kept[n]);
                        } else {
                            assert(keys@[i as int] == kept[n]);
                        }
                    }
                }
            }
        } else {
            assert forall|n: int| 0 <= n < kept.len() implies (exists|j: int|
                0 <= j < i + 1 && keys@[j] == #[trigger] kept[n]) by {
                let j = choose|j: int| 0 <= j < i && keys@[j] == kept[n];
                assert(0 <= j < i + 1 && keys@[j] == kept[n]);
            }
        }
        i += 1;
    }
    proof {
        assert forall|k: u16| rest.contains_key(k) <==> #[trigger] kept.contains(k) by {
            if rest.contains_key(k) {
                assert(a@.contains_key(k) && !b@.contains_key(k));
                assert(keys@.contains(k));
                let j = choose|j: int| 0 <= j < keys@.len() && keys@[j] == k;
                assert(kept.contains(keys@[j]));
            }
            if kept.contains(k) {
                let n = choose|n: int| 0 <= n < kept.len() && kept[n] == k;
                let j = choose|j: int| 0 <= j < i && keys@[j] == kept[n];
                assert(keys@.contains(k));
            }
        }
        assert(is_key_list(kept, rest));
    }
    out
}

/// The command that forwards a port over `ssh`.
pub fn ssh_forward_command(port: u16, ssh_host: &str) -> (r: String)
    ensures
        r@ == "ssh -L "@ + decimal(port as nat) + ":127.0.0.1:"@ + decimal(port as nat) + " "@
            + ssh_host@,
{
    let digits = decimal_chars(port as u64);
    let mut out = "ssh -L ".to_string();
    push_chars(&mut out, digits.as_slice());
    out.append(":127.0.0.1:");
    push_chars(&mut out, digits.as_slice());
    out.append(" ");
    out.append(ssh_host);
    out
}

/// What is known of this host, for a command that reaches it.
pub struct HostFacts {
    /// The name of the user.
    pub user: Option<String>,
    /// What the file of the host's name holds.
    pub hostname_file: Option<String>,
    /// The ends of the connection that the user came by.
    pub ssh_connection: Option<String>,
    /// What the command that names the host prints, where it succeeds.
    pub hostname_command: Option<String>,
}

/// The host of an `ssh` command: as configured, or else the user at the host by the first
/// of its names that is known.
pub open spec fn ssh_host(configured: Seq<char>, facts: HostFacts) -> Seq<char> {
    if !is_blank(configured) {
        trimmed(configured)
    } else {
        let user = match opt_text(facts.user) {
            Some(u) => u,
            None => "user"@,
        };
        user + "@"@ + (if facts.hostname_file is Some && !is_blank(facts.hostname_file->0@) {
            trimmed(facts.hostname_file->0@)
        } else if facts.ssh_connection is Some && words(facts.ssh_connection->0@).len() >= 3 {
            words(facts.ssh_connection->0@)[2]
        } else if facts.hostname_command is Some && !is_blank(facts.hostname_command->0@) {
            trimmed(facts.hostname_command->0@)
        } else {
            "localhost"@
        })
    }
}

/// The host of an `ssh` command.
pub fn resolve_ssh_host(config_override: &str, facts: &HostFacts) -> (r: String)
    ensures
        r@ == ssh_host(config_override@, *facts),
{
    if !blank(config_override) {
        return trim_text(config_override);
    }
    let mut out = match &facts.user {
        Some(u) => u.clone(),
        None => "user".to_string(),
    };
    out.append("@");
    if let Some(name) = &facts.hostname_file {
        if !blank(name.as_str()) {
            out.append(trim_text(name.as_str()).as_str());
            return out;
        }
    }
    if let Some(connection) = &facts.ssh_connection {
        let chars = chars_of(connection.as_str());
        let parts = split_words(chars.as_slice());
        assert(views(parts@) == words(connection@));
        if parts.len() >= 3 {
            assert(parts@[2]@ == views(parts@)[2]);
            push_chars(&mut out, parts[2]);
            return out;
        }
    }
    if let Some(name) = &facts.hostname_command {
        if !blank(name.as_str()) {
            out.append(trim_text(name.as_str()).as_str());
            return out;
        }
    }
    out.append("localhost");
    out
}

/// What a scan of the ports goes by.
#[derive(Debug)]
pub struct ScanInput {
    /// Each pane's process, by pane.
    pub pane_pids: Vec<(String, u32)>,
    /// Each pane's workspace, by pane.
    pub pane_workspace: Vec<(String, String)>,
    /// Ports that are left out.
    pub ignore_ports: BTreeSet<u16>,
    /// Processes that are left out.
    pub ignore_processes: Vec<String>,
    /// Leave out the ports that the system hands out.
    pub ignore_ephemeral: bool,
}

/// The process or one of its forebears, at most `fuel` generations up, is one of the roots.
pub open spec fn descends(pid: u32, roots: Set<u32>, parents: Map<u32, u32>, fuel: nat) -> bool
    decreases fuel,
{
    if roots.contains(pid) {
        true
    } else if fuel == 0 || !parents.contains_key(pid) {
        false
    } else {
        let parent = parents[pid];
        if parent == 0 || parent == pid {
            roots.contains(parent)
        } else {
            descends(parent, roots, parents, (fuel - 1) as nat)
        }
    }
}

/// The generations that are looked up at most.
pub const MAX_GENERATIONS: u32 = 64;

/// Whether the process is one of the roots or descends from one.
pub fn is_descendant_of(pid: u32, roots: &BTreeSet<u32>, ppid_map: &HashMap<u32, u32>) -> (r: bool)
    ensures
        r == descends(pid, roots@, ppid_map@, MAX_GENERATIONS as nat),
{
    if roots.contains(&pid) {
        return true;
    }
    let mut current: u32 = pid;
    let mut n: u32 = 0;
    while n < MAX_GENERATIONS
        invariant
            n <= MAX_GENERATIONS,
            !roots@.contains(current),
            descends(pid, roots@, ppid_map@, MAX_GENERATIONS as nat) == descends(
                current,
                roots@,
                ppid_map@,
                (MAX_GENERATIONS - n) as nat,
            ),
        decreases MAX_GENERATIONS - n,
    {
        match ppid_map.get(&current) {
            None => {
                return false;
            },
            Some(ppid) => {
                let ppid: u32 = *ppid;
                if roots.contains(&ppid) {
                    assert(descends(
                        ppid,
                        roots@,
                        ppid_map@,
                        (MAX_GENERATIONS - n - 1) as nat,
                    ));
                    return true;
                }
                if ppid == 0 || ppid == current {
                    return false;
                }
                current = ppid;
            },
        }
        n += 1;
    }
    false
}

/// The pane that a process belongs to: one whose own process it is, the last such, unless
/// a later pane's process is its forebear and none was found before.
pub open spec fn pane_of(pid: u32, panes: Seq<(String, u32)>, parents: Map<u32, u32>) -> Option<
    Seq<char>,
>
    decreases panes.len(),
{
    if panes.len() == 0 {
        None
    } else {
        let before = pane_of(pid, panes.drop_last(), parents);
        let (pane, root) = panes.last();
        if pid == root {
            Some(pane@)
        } else if before is None && descends(
            pid,
            Set::empty().insert(root),
            parents,
            MAX_GENERATIONS as nat,
        ) {
            Some(pane@)
        } else {
            before
        }
    }
}

/// The pane that a process belongs to.
pub fn pane_of_pid(
    pid: u32,
    panes: &Vec<(String, u32)>,
    ppid_map: &HashMap<u32, u32>,
) -> (r: Option<String>)
    ensures
        opt_text(r) == pane_of(pid, panes@, ppid_map@),
{
    let mut found: Option<String> = None;
    let mut i: usize = 0;
    while i < panes.len()
        invariant
            i <= panes.len(),
            opt_text(found) == pane_of(pid, panes@.take(i as int), ppid_map@),
        decreases panes.len() - i,
    {
        assert(panes@.take(i + 1).drop_last() =~= panes@.take(i as int));
        let root = panes[i].1;
        if pid == root {
            found = Some(panes[i].0.clone());
        } else if found.is_none() {
            let mut only: BTreeSet<u32> = BTreeSet::new();
            only.insert(root);
            assert(only@ =~= Set::empty().insert(root));
            if is_descendant_of(pid, &only, ppid_map) {
                found = Some(panes[i].0.clone());
            }
        }
        i += 1;
    }
    assert(panes@.take(i as int) =~= panes@);
    found
}

/// What is known of a port.
#[verifier::ext_equal]
pub struct PortView {
    pub port: u16,
    pub host: Seq<char>,
    pub pid: Option<u32>,
    pub process: Option<Seq<char>>,
    pub pane: Option<Seq<char>>,
    pub workspace: Option<Seq<char>>,
}

impl View for DetectedPort {
    type V = PortView;

    open spec fn view(&self) -> PortView {
        PortView {
            port: self.port,
            host: self.host@,
            pid: self.pid,
            process: opt_text(self.process),
            pane: opt_text(self.pane),
            workspace: opt_text(self.workspace),
        }
    }
}

/// The value that goes with the key, the first such.
pub open spec fn value_for(pairs: Seq<(String, String)>, key: Seq<char>) -> Option<Seq<char>>
    decreases pairs.len(),
{
    if pairs.len() == 0 {
        None
    } else if pairs[0].0@ == key {
        Some(pairs[0].1@)
    } else {
        value_for(pairs.drop_first(), key)
    }
}

/// The value that goes with the key.
pub fn lookup(pairs: &Vec<(String, String)>, key: &str) -> (r: Option<String>)
    ensures
        opt_text(r) == value_for(pairs@, key@),
{
    let mut i: usize = 0;
    assert(pairs@.skip(0) =~= pairs@);
    while i < pairs.len()
        invariant
            i <= pairs.len(),
            value_for(pairs@.skip(i as int), key@) == value_for(pairs@, key@),
        decreases pairs.len() - i,
    {
        assert(pairs@.skip(i as int).drop_first() =~= pairs@.skip(i + 1));
        if same(pairs[i].0.as_str(), key) {
            return Some(pairs[i].1.clone());
        }
        i += 1;
    }
    None
}

/// A host that stands for all addresses.
pub open spec fn is_wildcard(host: Seq<char>) -> bool {
    host == "0.0.0.0"@ || host == "::"@ || host == "*"@
}

/// The processes of the panes.
pub open spec fn roots_of(panes: Seq<(String, u32)>) -> Set<u32>
    decreases panes.len(),
{
    if panes.len() == 0 {
        Set::empty()
    } else {
        roots_of(panes.drop_last()).insert(panes.last().1)
    }
}

fn read_roots(panes: &Vec<(String, u32)>) -> (r: BTreeSet<u32>)
    ensures
        r@ == roots_of(panes@),
{
    let mut roots: BTreeSet<u32> = BTreeSet::new();
    let mut i: usize = 0;
    assert(roots@ =~= Set::empty());
    while i < panes.len()
        invariant
            i <= panes.len(),
            roots@ == roots_of(panes@.take(i as int)),
        decreases panes.len() - i,
    {
        assert(panes@.take(i + 1).drop_last() =~= panes@.take(i as int));
        roots.insert(panes[i].1);
        assert(roots@ =~= roots_of(panes@.take(i + 1)));
        i += 1;
    }
    assert(panes@.take(i as int) =~= panes@);
    roots
}

/// The process is that of a pane, or descends from one.
pub open spec fn is_in_a_pane(pid: u32, panes: Seq<(String, u32)>, parents: Map<u32, u32>) -> bool {
    descends(pid, roots_of(panes), parents, MAX_GENERATIONS as nat)
}

/// The process that a socket belongs to: the first that holds it among those of the panes and
/// those below them.
pub open spec fn owner_of(
    inode: u64,
    holders: Seq<(u32, Vec<u64>)>,
    panes: Seq<(String, u32)>,
    parents: Map<u32, u32>,
) -> Option<u32>
    decreases holders.len(),
{
    if holders.len() == 0 {
        None
    } else if holders[0].1@.contains(inode) && is_in_a_pane(holders[0].0, panes, parents) {
        Some(holders[0].0)
    } else {
        owner_of(inode, holders.drop_first(), panes, parents)
    }
}

fn holds_inode(inodes: &Vec<u64>, inode: u64) -> (r: bool)
    ensures
        r == inodes@.contains(inode),
{
    let mut i: usize = 0;
    while i < inodes.len()
        invariant
            i <= inodes.len(),
            forall|k: int| 0 <= k < i ==> inodes@[k] != inode,
        decreases inodes.len() - i,
    {
        if inodes[i] == inode {
            return true;
        }
        i += 1;
    }
    false
}

fn find_owner(
    inode: u64,
    holders: &Vec<(u32, Vec<u64>)>,
    panes: &Vec<(String, u32)>,
    roots: &BTreeSet<u32>,
    ppid_map: &HashMap<u32, u32>,
) -> (r: Option<u32>)
    requires
        roots@ == roots_of(panes@),
    ensures
        r == owner_of(inode, holders@, panes@, ppid_map@),
{
    let mut i: usize = 0;
    assert(holders@.skip(0) =~= holders@);
    while i < holders.len()
        invariant
            i <= holders.len(),
            roots@ == roots_of(panes@),
            owner_of(inode, holders@.skip(i as int), panes@, ppid_map@) == owner_of(
                inode,
                holders@,
                panes@,
                ppid_map@,
            ),
        decreases holders.len() - i,
    {
        assert(holders@.skip(i as int).drop_first() =~= holders@.skip(i + 1));
        if holds_inode(&holders[i].1, inode) && is_descendant_of(holders[i].0, roots, ppid_map) {
            return Some(holders[i].0);
        }
        i += 1;
    }
    None
}

/// The owner of a socket is a process of a pane, or below one.
proof fn owner_is_in_a_pane(
    inode: u64,
    holders: Seq<(u32, Vec<u64>)>,
    panes: Seq<(String, u32)>,
    parents: Map<u32, u32>,
)
    ensures
        owner_of(inode, holders, panes, parents) matches Some(pid) ==> is_in_a_pane(
            pid,
            panes,
            parents,
        ),
    decreases holders.len(),
{
    if holders.len() > 0 {
        owner_is_in_a_pane(inode, holders.drop_first(), panes, parents);
    }
}

/// What a listening socket says of its port, where it counts: its port is not left out, a
/// process of a pane or below one holds it, and that process is not left out either.
pub open spec fn port_of_socket(
    input: ScanInput,
    entry: SockEntry,
    floor: u16,
    holders: Seq<(u32, Vec<u64>)>,
    names: Map<u32, String>,
    parents: Map<u32, u32>,
) -> Option<PortView> {
    let owner = owner_of(entry.inode, holders, input.pane_pids@, parents);
    if input.ignore_ports@.contains(entry.port) || (input.ignore_ephemeral && entry.port >= floor)
        || owner is None {
        None
    } else {
        let pid = owner->0;
        let process = if names.contains_key(pid) {
            Some(names[pid]@)
        } else {
            None
        };
        if process is Some && crate::daemon::panes::lists(input.ignore_processes@, process->0) {
            None
        } else {
            let pane = pane_of(pid, input.pane_pids@, parents);
            Some(
                PortView {
                    port: entry.port,
                    host: entry.host@,
                    pid: Some(pid),
                    process,
                    pane,
                    workspace: match pane {
                        Some(p) => value_for(input.pane_workspace@, p),
                        None => None,
                    },
                },
            )
        }
    }
}

/// What a second socket on a port adds: a wildcard host, and what was not known.
pub open spec fn port_joined(known: PortView, more: PortView) -> PortView {
    PortView {
        port: known.port,
        host: if is_wildcard(more.host) {
            more.host
        } else {
            known.host
        },
        pid: if known.pid is None {
            more.pid
        } else {
            known.pid
        },
        process: if known.process is None {
            more.process
        } else {
            known.process
        },
        pane: if known.pane is None {
            more.pane
        } else {
            known.pane
        },
        workspace: if known.workspace is None {
            more.workspace
        } else {
            known.workspace
        },
    }
}

/// The ports that the sockets make up.
pub open spec fn ports_of_sockets(
    input: ScanInput,
    entries: Seq<SockEntry>,
    floor: u16,
    holders: Seq<(u32, Vec<u64>)>,
    names: Map<u32, String>,
    parents: Map<u32, u32>,
) -> Map<u16, PortView>
    decreases entries.len(),
{
    if entries.len() == 0 {
        Map::empty()
    } else {
        let before = ports_of_sockets(input, entries.drop_last(), floor, holders, names, parents);
        match port_of_socket(input, entries.last(), floor, holders, names, parents) {
            None => before,
            Some(p) => before.insert(
                p.port,
                if before.contains_key(p.port) {
                    port_joined(before[p.port], p)
                } else {
                    p
                },
            ),
        }
    }
}

/// The map holds the ports, and no proxies.
pub open spec fn holds_ports(m: Map<u16, DetectedPort>, ports: Map<u16, PortView>) -> bool {
    &&& m.dom() == ports.dom()
    &&& forall|k: u16| #[trigger] m.contains_key(k) ==> m[k]@ == ports[k] && m[k].forward is None
}

/// The port of a socket, where it counts.
fn read_socket(
    input: &ScanInput,
    entry: &SockEntry,
    floor: u16,
    roots: &BTreeSet<u32>,
    holders: &Vec<(u32, Vec<u64>)>,
    names: &HashMap<u32, String>,
    ppid_map: &HashMap<u32, u32>,
) -> (r: Option<DetectedPort>)
    requires
        roots@ == roots_of(input.pane_pids@),
    ensures
        r is Some <==> port_of_socket(*input, *entry, floor, holders@, names@, ppid_map@) is Some,
        r matches Some(p) ==> p.forward is None && port_of_socket(
            *input,
            *entry,
            floor,
            holders@,
            names@,
            ppid_map@,
        ) == Some(p@),
{
    if input.ignore_ports.contains(&entry.port) || (input.ignore_ephemeral && entry.port >= floor) {
        return None;
    }
    let owner = find_owner(entry.inode, holders, &input.pane_pids, roots, ppid_map);
    let pid: u32 = match owner {
        Some(pid) => pid,
        None => {
            return None;
        },
    };
    let process = match names.get(&pid) {
        Some(name) => {
            if crate::daemon::panes::listed(&input.ignore_processes, name.as_str()) {
                return None;
            }
            Some(name.clone())
        },
        None => None,
    };
    let pane = pane_of_pid(pid, &input.pane_pids, ppid_map);
    let workspace = match &pane {
        Some(p) => lookup(&input.pane_workspace, p.as_str()),
        None => None,
    };
    Some(
        DetectedPort {
            port: entry.port,
            host: entry.host.clone(),
            pid: Some(pid),
            process,
            pane,
            workspace,
            forward: None,
        },
    )
}

fn join_port(known: DetectedPort, more: DetectedPort) -> (r: DetectedPort)
    ensures
        r@ == port_joined(known@, more@),
        r.forward == known.forward,
{
    let wildcard = same(more.host.as_str(), "0.0.0.0") || same(more.host.as_str(), "::") || same(
        more.host.as_str(),
        "*",
    );
    DetectedPort {
        port: known.port,
        host: if wildcard {
            more.host
        } else {
            known.host
        },
        pid: if known.pid.is_none() {
            more.pid
        } else {
            known.pid
        },
        process: if known.process.is_none() {
            more.process
        } else {
            known.process
        },
        pane: if known.pane.is_none() {
            more.pane
        } else {
            known.pane
        },
        workspace: if known.workspace.is_none() {
            more.workspace
        } else {
            known.workspace
        },
        forward: known.forward,
    }
}

/// A port that may be listed: none that is left out, and of a process that is in a pane and
/// not left out.
pub open spec fn may_be_listed(
    input: ScanInput,
    floor: u16,
    parents: Map<u32, u32>,
    number: u16,
    p: PortView,
) -> bool {
    &&& p.port == number
    &&& !input.ignore_ports@.contains(number)
    &&& input.ignore_ephemeral ==> number < floor
    &&& p.pid matches Some(pid) && is_in_a_pane(pid, input.pane_pids@, parents)
    &&& p.process matches Some(name) ==> !crate::daemon::panes::lists(input.ignore_processes@, name)
}

/// Only such ports are made up as may be listed.
proof fn ports_may_be_listed(
    input: ScanInput,
    entries: Seq<SockEntry>,
    floor: u16,
    holders: Seq<(u32, Vec<u64>)>,
    names: Map<u32, String>,
    parents: Map<u32, u32>,
)
    ensures
        forall|k: u16|
            #[trigger]
            ports_of_sockets(input, entries, floor, holders, names, parents).contains_key(k)
                ==> may_be_listed(
                input,
                floor,
                parents,
                k,
                ports_of_sockets(input, entries, floor, holders, names, parents)[k],
            ),
    decreases entries.len(),
{
    if entries.len() > 0 {
        ports_may_be_listed(input, entries.drop_last(), floor, holders, names, parents);
        owner_is_in_a_pane(entries.last().inode, holders, input.pane_pids@, parents);
        let before = ports_of_sockets(input, entries.drop_last(), floor, holders, names, parents);
        let after = ports_of_sockets(input, entries, floor, holders, names, parents);
        assert forall|k: u16| #[trigger] after.contains_key(k) implies may_be_listed(
            input,
            floor,
            parents,
            k,
            after[k],
        ) by {
            if before.contains_key(k) {
                assert(may_be_listed(input, floor, parents, k, before[k]));
            }
        }
    }
}

/// A host that stands for all addresses is told where one of the sockets that count has it.
pub proof fn wildcards_are_told(
    input: ScanInput,
    entries: Seq<SockEntry>,
    floor: u16,
    holders: Seq<(u32, Vec<u64>)>,
    names: Map<u32, String>,
    parents: Map<u32, u32>,
    i: int,
)
    requires
        0 <= i < entries.len(),
        port_of_socket(input, entries[i], floor, holders, names, parents) is Some,
    ensures
        ({
            let ports = ports_of_sockets(input, entries, floor, holders, names, parents);
            let port = entries[i].port;
            &&& ports.contains_key(port)
            &&& is_wildcard(entries[i].host@) ==> is_wildcard(ports[port].host)
        }),
    decreases entries.len(),
{
    if i < entries.len() - 1 {
        assert(entries.drop_last()[i] == entries[i]);
        wildcards_are_told(input, entries.drop_last(), floor, holders, names, parents, i);
    }
}

/// Attributes listening sockets to panes. `holders` gives for each process the inodes of the
/// sockets that it holds, `names` the names of processes, `ppid_map` their parents; `floor` is
/// the first port that the system hands out.
pub fn scan_ports(
    input: &ScanInput,
    entries: &Vec<SockEntry>,
    floor: u16,
    holders: &Vec<(u32, Vec<u64>)>,
    names: &HashMap<u32, String>,
    ppid_map: &HashMap<u32, u32>,
) -> (r: BTreeMap<u16, DetectedPort>)
    ensures
        holds_ports(
            r@,
            ports_of_sockets(*input, entries@, floor, holders@, names@, ppid_map@),
        ),
        forall|k: u16| #[trigger]
            r@.contains_key(k) ==> may_be_listed(*input, floor, ppid_map@, k, r@[k]@),
{
    let roots = read_roots(&input.pane_pids);
    let mut out: BTreeMap<u16, DetectedPort> = BTreeMap::new();
    let mut i: usize = 0;
    while i < entries.len()
        invariant
            i <= entries.len(),
            holds_ports(
                out@,
                ports_of_sockets(
                    *input,
                    entries@.take(i as int),
                    floor,
                    holders@,
                    names@,
                    ppid_map@,
                ),
            ),
            roots@ == roots_of(input.pane_pids@),
        decreases entries.len() - i,
    {
        assert(entries@.take(i + 1).drop_last() =~= entries@.take(i as int));
        let ghost before = ports_of_sockets(
            *input,
            entries@.take(i as int),
            floor,
            holders@,
            names@,
            ppid_map@,
        );
        let ghost held = out@;
        if let Some(p) = read_socket(input, &entries[i], floor, &roots, holders, names, ppid_map) {
            let port = p.port;
            let joined = match out.remove(&port) {
                Some(known) => {
                    assert(held.contains_key(port));
                    join_port(known, p)
                },
                None => p,
            };
            out.insert(port, joined);
            assert(out@ =~= held.insert(port, joined));
            assert(out@.dom() =~= before.insert(port, joined@).dom());
        }
        i += 1;
    }
    assert(entries@.take(i as int) =~= entries@);
    proof {
        ports_may_be_listed(*input, entries@, floor, holders@, names@, ppid_map@);
    }
    out
}

/// The port in the form that the sidebar shows.
pub open spec fn is_listening(l: ListeningPort, d: DetectedPort) -> bool {
    &&& l.host == d.host
    &&& l.port == d.port
    &&& l.pids@ == match d.pid {
        Some(pid) => seq![pid],
        None => Seq::empty(),
    }
    &&& l.process == d.process
    &&& l.pane == d.pane
}

/// The ports in the form that the sidebar shows.
pub fn to_listening_ports(detected: &[DetectedPort]) -> (r: Vec<ListeningPort>)
    ensures
        r@.len() == detected@.len(),
        forall|i: int| 0 <= i < r@.len() ==> is_listening(#[trigger] r@[i], detected@[i]),
{
    let mut out: Vec<ListeningPort> = Vec::new();
    let mut i: usize = 0;
    while i < detected.len()
        invariant
            i <= detected.len(),
            out@.len() == i,
            forall|k: int| 0 <= k < i ==> is_listening(#[trigger] out@[k], detected@[k]),
        decreases detected.len() - i,
    {
        let d = &detected[i];
        let mut pids: Vec<u32> = Vec::new();
        if let Some(pid) = d.pid {
            pids.push(pid);
        }
        assert(pids@ =~= match d.pid {
            Some(pid) => seq![pid],
            None => Seq::empty(),
        });
        out.push(
            ListeningPort {
                host: d.host.clone(),
                port: d.port,
                pids,
                process: clone_opt(&d.process),
                pane: clone_opt(&d.pane),
            },
        );
        i += 1;
    }
    out
}

/// What opened and what closed accounts for the difference: a port is known after a look
/// exactly where it was known and has not closed, or has opened.
pub proof fn diff_accounts_for_change(
    before: Map<u16, DetectedPort>,
    after: Map<u16, DetectedPort>,
    opened: Seq<u16>,
    closed: Seq<u16>,
    port: u16,
)
    requires
        is_key_list(opened, after.remove_keys(before.dom())),
        is_key_list(closed, before.remove_keys(after.dom())),
    ensures
        after.contains_key(port) <==> (before.contains_key(port) && !closed.contains(port))
            || opened.contains(port),
        !(opened.contains(port) && closed.contains(port)),
{
}

} // verus!

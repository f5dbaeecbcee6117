//! Ports that processes of panes listen on.

use std::collections::{BTreeMap, BTreeSet, HashMap};
use vmux::daemon::ports::{
    is_descendant_of, pane_of_pid, resolve_ssh_host, scan_ports, ssh_forward_command,
    to_listening_ports, DetectedPort, HostFacts, PortRegistry, ScanInput,
};
use vmux::daemon::sockets::{
    extract_pids, grow_owned, parse_listening_ports, parse_local_port, parse_port_floor,
    parse_proc_net_tcp, proc_stat_ppid, process_name, socket_inode, SockEntry,
};

fn port(number: u16, process: &str) -> DetectedPort {
    DetectedPort {
        port: number,
        host: "127.0.0.1".into(),
        pid: Some(1),
        process: Some(process.into()),
        pane: Some("pane-1".into()),
        workspace: Some("ws-1".into()),
        forward: None,
    }
}

#[test]
fn parses_ipv4_listen_line() {
    // 0100007F:0BB8 is 127.0.0.1:3000, 0A says that it listens, the inode is 12345.
    let text = "  sl  local_address rem_address   st tx_queue rx_queue tr tm->when retrnsmt   uid  timeout inode\n   0: 0100007F:0BB8 00000000:0000 0A 00000000:00000000 00:00000000 00000000     0        0 12345 1 0000000000000000 100 0 0 10 0\n";
    let entries = parse_proc_net_tcp(text, false);
    assert_eq!(entries.len(), 1);
    assert_eq!(entries[0].port, 3000);
    assert_eq!(entries[0].host, "127.0.0.1");
    assert_eq!(entries[0].inode, 12345);
}

#[test]
fn parses_wildcard_ipv4() {
    let text = "  sl  local_address rem_address   st tx_queue rx_queue tr tm->when retrnsmt   uid  timeout inode\n   0: 00000000:1F40 00000000:0000 0A 00000000:00000000 00:00000000 00000000     0        0 9 1 0000000000000000 100 0 0 10 0\n";
    let entries = parse_proc_net_tcp(text, false);
    assert_eq!(entries[0].port, 8000);
    assert_eq!(entries[0].host, "0.0.0.0");
}

#[test]
fn ignores_non_listen() {
    let text = "  sl  local_address rem_address   st tx_queue rx_queue tr tm->when retrnsmt   uid  timeout inode\n   0: 0100007F:0BB8 00000000:0000 01 00000000:00000000 00:00000000 00000000     0        0 1 1 0000000000000000 100 0 0 10 0\n";
    assert!(parse_proc_net_tcp(text, false).is_empty());
}

#[test]
fn reads_ipv6_addresses() {
    let line = |addr: &str| {
        format!("head\n 0: {addr}:0050 0:0 0A 0:0 0:0 0 0 0 77 1\n")
    };
    let entries = parse_proc_net_tcp(&line("00000000000000000000000001000000"), true);
    assert_eq!(entries.len(), 1);
    assert_eq!(entries[0].host, "::1");
    assert_eq!(entries[0].port, 80);
    assert_eq!(entries[0].inode, 77);
    let entries = parse_proc_net_tcp(&line("00000000000000000000000000000000"), true);
    assert_eq!(entries[0].host, "::");
    // An IPv4 address in the form of an IPv6 one.
    let entries = parse_proc_net_tcp(&line("0000000000000000FFFF00000100007F"), true);
    assert_eq!(entries[0].host, "127.0.0.1");
    let entries = parse_proc_net_tcp(&line("B80D0120000000000000000001000000"), true);
    assert_eq!(entries[0].host, "2001:db8::1");
    assert!(parse_proc_net_tcp(&line("0100007F"), true).is_empty());
    assert!(parse_proc_net_tcp("", true).is_empty());
}

#[test]
fn registry_diffs_open_close() {
    let mut reg = PortRegistry::default();
    let mut a = BTreeMap::new();
    a.insert(3000, port(3000, "node"));
    let d1 = reg.replace_detected(a);
    assert_eq!(d1.opened.len(), 1);
    assert!(d1.closed.is_empty());
    let d2 = reg.replace_detected(BTreeMap::new());
    assert!(d2.opened.is_empty());
    assert_eq!(d2.closed.len(), 1);
}

#[test]
fn the_registry_shows_proxies_and_stops_them() {
    let mut reg = PortRegistry::default();
    let mut seen = BTreeMap::new();
    seen.insert(5173, port(5173, "vite"));
    seen.insert(3000, port(3000, "node"));
    reg.replace_detected(seen);
    reg.insert_forward(3000, 11, "http://box:3000".to_string());
    assert!(reg.has_forward(3000));
    assert!(!reg.has_forward(5173));
    let list = reg.list();
    assert_eq!(list.iter().map(|p| p.port).collect::<Vec<_>>(), [3000, 5173]);
    let forward = list[0].forward.as_ref().unwrap();
    assert_eq!(forward.via, "tailscale");
    assert_eq!(forward.url, "http://box:3000");
    assert!(list[1].forward.is_none());
    assert!(reg.get(1).is_none());
    assert!(reg.get(3000).unwrap().forward.is_some());
    assert!(reg.stop_forward(3000));
    assert!(!reg.stop_forward(3000));
    assert_eq!(reg.stopped, [11]);
    reg.insert_forward(5173, 12, "u".to_string());
    reg.stop_all_forwards();
    assert_eq!(reg.stopped, [11, 12]);
    assert!(reg.forwards.is_empty());
}

#[test]
fn ssh_cmd_uses_override() {
    assert_eq!(
        ssh_forward_command(3000, "me@box"),
        "ssh -L 3000:127.0.0.1:3000 me@box"
    );
}

#[test]
fn the_host_comes_from_the_settings_or_the_system() {
    let facts = HostFacts {
        user: Some("me".to_string()),
        hostname_file: Some("box\n".to_string()),
        ssh_connection: None,
        hostname_command: None,
    };
    assert_eq!(resolve_ssh_host(" other@host ", &facts), "other@host");
    assert_eq!(resolve_ssh_host("", &facts), "me@box");
    let unnamed = HostFacts {
        user: None,
        hostname_file: Some(" \n".to_string()),
        ssh_connection: Some("10.0.0.9 50000 10.0.0.1 22".to_string()),
        hostname_command: Some("host.lan\n".to_string()),
    };
    assert_eq!(resolve_ssh_host("", &unnamed), "user@10.0.0.1");
    let asked = HostFacts { ssh_connection: Some("10.0.0.9 50000".to_string()), ..unnamed };
    assert_eq!(resolve_ssh_host("", &asked), "user@host.lan");
    let silent = HostFacts { hostname_command: Some("\n".to_string()), ..asked };
    assert_eq!(resolve_ssh_host("", &silent), "user@localhost");
}

#[test]
fn parses_listening_ports_for_owned_processes() {
    let mut owned = BTreeSet::new();
    owned.insert(1234);
    let output = r#"
LISTEN 0 511 127.0.0.1:5173 0.0.0.0:* users:(("node",pid=1234,fd=21))
LISTEN 0 511 127.0.0.1:8080 0.0.0.0:* users:(("node",pid=9999,fd=21))
LISTEN 0 128 [::1]:3000 [::]:* users:(("python",pid=1234,fd=4))
"#;
    let ports = parse_listening_ports(output, &owned);

    assert_eq!(ports.len(), 2);
    assert_eq!(ports[0].host, "::1");
    assert_eq!(ports[0].port, 3000);
    assert_eq!(ports[0].pids, vec![1234]);
    assert_eq!(ports[1].host, "127.0.0.1");
    assert_eq!(ports[1].port, 5173);
}

#[test]
fn parses_proc_stat_ppid_when_command_has_spaces() {
    assert_eq!(proc_stat_ppid("123 (my shell) S 42 1 1 0").unwrap(), 42);
}

#[test]
fn small_readings_of_the_system() {
    assert_eq!(proc_stat_ppid("123 sh S 42"), None);
    assert_eq!(parse_port_floor(Some("40000\t60999\n")), 40_000);
    assert_eq!(parse_port_floor(Some("x")), 32_768);
    assert_eq!(parse_port_floor(None), 32_768);
    assert_eq!(socket_inode("socket:[1234]"), Some(1234));
    assert_eq!(socket_inode("pipe:[1234]"), None);
    assert_eq!(process_name("node\n").as_deref(), Some("node"));
    assert_eq!(process_name(" \n"), None);
    assert_eq!(parse_local_port("[::1]:3000"), Some(("::1".to_string(), 3000)));
    assert_eq!(parse_local_port("*:22"), Some(("*".to_string(), 22)));
    assert_eq!(parse_local_port("nothing"), None);
    assert_eq!(extract_pids("users:((\"a\",pid=7,fd=1),(\"b\",pid=8,fd=2))"), [7, 8]);
}

#[test]
fn ownership_spreads_to_children() {
    let mut owned = BTreeSet::new();
    owned.insert(10);
    assert!(grow_owned(&mut owned, &vec![(11, 10), (30, 1)]));
    assert!(owned.contains(&11));
    assert!(!owned.contains(&30));
    assert!(!grow_owned(&mut owned, &vec![(11, 10), (30, 1)]));
}

#[test]
fn a_process_belongs_to_the_pane_above_it() {
    let mut parents: HashMap<u32, u32> = HashMap::new();
    parents.insert(300, 200);
    parents.insert(200, 100);
    let mut roots = BTreeSet::new();
    roots.insert(100);
    assert!(is_descendant_of(300, &roots, &parents));
    assert!(is_descendant_of(100, &roots, &parents));
    assert!(!is_descendant_of(400, &roots, &parents));
    let panes = vec![("pane-1".to_string(), 50), ("pane-2".to_string(), 100)];
    assert_eq!(pane_of_pid(300, &panes, &parents).as_deref(), Some("pane-2"));
    assert_eq!(pane_of_pid(7, &panes, &parents), None);
}

#[test]
fn a_scan_keeps_what_panes_listen_on() {
    let mut parents: HashMap<u32, u32> = HashMap::new();
    parents.insert(300, 100);
    // The process 77 is no pane's.
    let holders = vec![(77, vec![4]), (300, vec![1, 3])];
    let mut names: HashMap<u32, String> = HashMap::new();
    names.insert(300, "node".to_string());
    let input = ScanInput {
        pane_pids: vec![("pane-1".to_string(), 100)],
        pane_workspace: vec![("pane-1".to_string(), "ws-1".to_string())],
        ignore_ports: BTreeSet::new(),
        ignore_processes: Vec::new(),
        ignore_ephemeral: true,
    };
    let entries = vec![
        SockEntry { host: "127.0.0.1".to_string(), port: 3000, inode: 1 },
        SockEntry { host: "127.0.0.1".to_string(), port: 3001, inode: 2 },
        SockEntry { host: "127.0.0.1".to_string(), port: 40_000, inode: 3 },
        SockEntry { host: "127.0.0.1".to_string(), port: 8080, inode: 4 },
    ];
    let found = scan_ports(&input, &entries, 32_768, &holders, &names, &parents);
    assert_eq!(found.keys().copied().collect::<Vec<_>>(), [3000]);
    let one = &found[&3000];
    assert_eq!(one.pid, Some(300));
    assert_eq!(one.process.as_deref(), Some("node"));
    assert_eq!(one.pane.as_deref(), Some("pane-1"));
    assert_eq!(one.workspace.as_deref(), Some("ws-1"));
    // Where short-lived ports are not left out, they are listed up to the last.
    let all = ScanInput { ignore_ephemeral: false, ..input };
    let entries = vec![
        SockEntry { host: "127.0.0.1".to_string(), port: 40_000, inode: 3 },
        SockEntry { host: "127.0.0.1".to_string(), port: 65_535, inode: 1 },
    ];
    let found = scan_ports(&all, &entries, 32_768, &holders, &names, &parents);
    assert_eq!(found.keys().copied().collect::<Vec<_>>(), [40_000, 65_535]);
    let listed = to_listening_ports(&[port(80, "www")]);
    assert_eq!(listed.len(), 1);
    assert_eq!(listed[0].port, 80);
    assert_eq!(listed[0].pids, [1]);
    assert_eq!(listed[0].process.as_deref(), Some("www"));
}

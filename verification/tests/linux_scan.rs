use std::collections::HashMap;

use portx::ports::linux::{
    hex_ip_would_panic, process_label, scan, socket_link_inode, tcp_contents_would_panic,
    InodeMap, ProcNet,
};
use portx::ports::{
    empty_table, owner_uids, resolve_owners, Direction, Protocol, ScanSource, TcpState,
    PORT_COUNT,
};

const TCP: &str = "  sl  local_address rem_address   st tx_queue rx_queue tr tm->when retrnsmt   uid  timeout inode
   0: 00000000:0016 00000000:0000 0A 00000000:00000000 00:00000000 00000000     0        0 12345 1 0000000000000000 100 0 0 10 0
   1: 0100007F:1538 0100007F:C350 01 00000000:00000000 00:00000000 00000000  1000        0 23456 1 0000000000000000 20 4 30 10 -1
   2: 0100007F:0CEA 00000000:0000 0A 00000000:00000000 00:00000000 00000000  1000        0 34567 1 0000000000000000 100 0 0 10 0
";

const TCP6: &str = "  sl  local_address                         remote_address                        st tx_queue rx_queue tr tm->when retrnsmt   uid  timeout inode
   0: 00000000000000000000000000000000:1F90 00000000000000000000000001000000:D431 01 00000000:00000000 00:00000000 00000000  1000        0 45678 1
";

const UDP: &str = "   sl  local_address rem_address   st tx_queue rx_queue tr tm->when retrnsmt   uid  timeout inode ref pointer drops
  100: 00000000:14E9 00000000:0000 07 00000000:00000000 00:00000000 00000000   108        0 56789 2 0000000000000000 0
";

fn inodes() -> InodeMap {
    let mut m: InodeMap = HashMap::new();
    m.insert(12345, ("sshd (1)".to_string(), 1));
    m.insert(23456, ("postgres (900)".to_string(), 900));
    m.insert(56789, ("avahi-daemon (700)".to_string(), 700));
    m
}

fn net() -> ProcNet {
    ProcNet {
        tcp: Some(TCP.to_string()),
        tcp6: Some(TCP6.to_string()),
        udp: Some(UDP.to_string()),
        udp6: None,
    }
}

#[test]
fn tcp_listen_on_wildcard_is_global_with_process() {
    let t = portx::ports::scan(&ScanSource::Linux { net: net(), inodes: inodes() });
    assert_eq!(t.len(), PORT_COUNT);
    let ssh = &t[22];
    assert!(ssh.tcp_listen);
    assert!(!ssh.tcp_established);
    assert_eq!(ssh.tcp_state, TcpState::Listen);
    assert_eq!(ssh.protocol, Protocol::Tcp);
    assert!(ssh.bind_global);
    assert_eq!(ssh.process.as_deref(), Some("sshd (1)"));
    assert_eq!(ssh.pid, Some(1));
    assert_eq!(ssh.uid, Some(0));
    assert_eq!(ssh.remote_addr, None);
    assert_eq!(ssh.direction, Direction::Unknown);
}

#[test]
fn established_row_decodes_remote_address() {
    let t = portx::ports::scan(&ScanSource::Linux { net: net(), inodes: inodes() });
    let pg = &t[5432];
    assert!(pg.tcp_established);
    assert_eq!(pg.tcp_state, TcpState::Established);
    assert!(!pg.bind_global);
    assert_eq!(pg.remote_addr.as_deref(), Some("127.0.0.1:50000"));
    assert_eq!(pg.process.as_deref(), Some("postgres (900)"));
    assert_eq!(pg.uid, Some(1000));
}

#[test]
fn loopback_listen_is_not_global_and_unknown_inode_has_no_process() {
    let t = portx::ports::scan(&ScanSource::Linux { net: net(), inodes: inodes() });
    let p = &t[3306];
    assert!(p.tcp_listen);
    assert!(!p.bind_global);
    assert_eq!(p.process, None);
    assert_eq!(p.pid, None);
}

#[test]
fn ipv6_remote_is_eight_groups() {
    let t = portx::ports::scan(&ScanSource::Linux { net: net(), inodes: inodes() });
    let p = &t[8080];
    assert!(p.tcp_established);
    assert_eq!(
        p.remote_addr.as_deref(),
        Some("0000:0000:0000:0000:0000:0000:0000:0001:54321")
    );
}

#[test]
fn udp_row_marks_port_active() {
    let t = portx::ports::scan(&ScanSource::Linux { net: net(), inodes: inodes() });
    let mdns = &t[5353];
    assert!(mdns.udp_active);
    assert_eq!(mdns.protocol, Protocol::Udp);
    assert!(mdns.bind_global);
    assert_eq!(mdns.tcp_state, TcpState::Unset);
    assert_eq!(mdns.process.as_deref(), Some("avahi-daemon (700)"));
    assert_eq!(mdns.uid, Some(108));
}

#[test]
fn untouched_ports_stay_closed() {
    let t = portx::ports::scan(&ScanSource::Linux { net: net(), inodes: inodes() });
    for p in [0usize, 1, 80, 65535] {
        assert!(!t[p].tcp_listen && !t[p].tcp_established && !t[p].udp_active);
        assert_eq!(t[p].protocol, Protocol::Unset);
    }
}

#[test]
fn unreadable_tables_change_nothing() {
    let mut t = empty_table();
    let empty = ProcNet { tcp: None, tcp6: None, udp: None, udp6: None };
    scan(&mut t, &empty, &HashMap::new());
    assert!(t.iter().all(|s| !s.tcp_listen && !s.udp_active && s.process.is_none()));
}

#[test]
fn owners_resolve_from_uids() {
    let mut t = portx::ports::scan(&ScanSource::Linux { net: net(), inodes: inodes() });
    let uids = owner_uids(&t);
    assert!(uids.contains(&0) && uids.contains(&1000) && uids.contains(&108));
    let mut names: HashMap<u32, Option<String>> = HashMap::new();
    names.insert(0, Some("root".to_string()));
    names.insert(1000, Some("alice".to_string()));
    names.insert(108, None);
    resolve_owners(&mut t, &names);
    assert_eq!(t[22].owner.as_deref(), Some("root"));
    assert_eq!(t[5432].owner.as_deref(), Some("alice"));
    assert_eq!(t[5353].owner, None);
    assert_eq!(t[80].owner, None);
}

#[test]
fn resolving_owners_changes_nothing_else() {
    let before = portx::ports::scan(&ScanSource::Linux { net: net(), inodes: inodes() });
    let mut after = portx::ports::scan(&ScanSource::Linux { net: net(), inodes: inodes() });
    let mut names: HashMap<u32, Option<String>> = HashMap::new();
    names.insert(0, Some("root".to_string()));
    names.insert(1000, Some("alice".to_string()));
    resolve_owners(&mut after, &names);
    for p in 0..PORT_COUNT {
        let (a, b) = (&before[p], &after[p]);
        assert_eq!(
            (a.tcp_listen, a.tcp_established, a.udp_active, a.bind_global, a.tcp_state, a.protocol, a.direction),
            (b.tcp_listen, b.tcp_established, b.udp_active, b.bind_global, b.tcp_state, b.protocol, b.direction)
        );
        assert_eq!((&a.process, a.pid, &a.remote_addr, a.uid), (&b.process, b.pid, &b.remote_addr, b.uid));
    }
}

#[test]
fn odd_length_remote_address_is_flagged() {
    let bad = "header\n 0: 0100007F:1538 100007F:C350 01 x x x 0 0 1\n";
    assert!(tcp_contents_would_panic(bad));
    assert!(!tcp_contents_would_panic(TCP));
    assert!(!tcp_contents_would_panic(TCP6));
    let ok_zero = "header\n 0: 0100007F:1538 000:C350 01 x x x 0 0 1\n";
    assert!(!tcp_contents_would_panic(ok_zero));
}

#[test]
fn hex_ip_panic_conditions() {
    let c = |s: &str| s.chars().collect::<Vec<char>>();
    assert!(hex_ip_would_panic(&c("ABC")));
    assert!(!hex_ip_would_panic(&c("ZZC")));
    assert!(!hex_ip_would_panic(&c("0100007F")));
    assert!(hex_ip_would_panic(&c("1é")));
    assert!(!hex_ip_would_panic(&c("é1")));
    assert!(hex_ip_would_panic(&c("€1")));
}

#[test]
fn socket_links_name_their_inode() {
    assert_eq!(socket_link_inode("socket:[12345]"), Some(12345));
    assert_eq!(socket_link_inode("socket:[]"), None);
    assert_eq!(socket_link_inode("pipe:[12345]"), None);
    assert_eq!(socket_link_inode("socket:[12"), None);
    assert_eq!(socket_link_inode("/dev/null"), None);
}

#[test]
fn process_labels_trim_the_name() {
    assert_eq!(process_label(Some("sshd\n"), 42), "sshd (42)");
    assert_eq!(process_label(None, 7), "? (7)");
    assert!(process_label(Some("  web server "), 1234).ends_with(" (1234)"));
}

#[test]
fn every_port_is_consistent_after_scan() {
    let t = portx::ports::scan(&ScanSource::Linux { net: net(), inodes: inodes() });
    for (p, s) in t.iter().enumerate() {
        assert_eq!(s.tcp_listen, s.tcp_state == TcpState::Listen);
        assert_eq!(s.tcp_established, s.tcp_state == TcpState::Established);
        if s.protocol == Protocol::Tcp {
            assert_eq!(
                s.direction,
                portx::ports::infer_tcp_direction(s.tcp_state, p as u16, s.remote_addr.as_deref())
            );
        } else {
            assert_eq!(s.direction, Direction::Unknown);
        }
        assert_eq!(s.process.is_some(), s.pid.is_some());
        if let Some(pid) = s.pid {
            assert!(s.process.as_deref().unwrap().ends_with(&format!(" ({pid})")));
        }
        if ![22, 5432, 3306, 8080, 5353].contains(&p) {
            assert!(s.protocol == Protocol::Unset && s.process.is_none() && s.uid.is_none());
        }
    }
}

#[test]
fn tcp_rows_carry_the_inferred_direction() {
    let tcp = "header
 0: 0100007F:0016 0100007F:C350 01 0 0 0 0 0 1
 1: 0100007F:C351 0100007F:01BB 01 0 0 0 0 0 2
 2: 0100007F:0017 0100007F:C352 02 0 0 0 0 0 3
 3: 0100007F:0018 0100007F:C353 03 0 0 0 0 0 4
";
    let udp = "header
 0: 0100007F:0016 00000000:0000 07 0 0 0 0 0 5
";
    let net = ProcNet { tcp: Some(tcp.to_string()), tcp6: None, udp: None, udp6: None };
    let t = portx::ports::scan(&ScanSource::Linux { net, inodes: HashMap::new() });
    assert_eq!(t[22].direction, Direction::Inbound);
    assert_eq!(t[50001].direction, Direction::Outbound);
    assert_eq!(t[23].direction, Direction::Outbound);
    assert_eq!(t[24].direction, Direction::Inbound);
    let both = ProcNet {
        tcp: Some(tcp.to_string()),
        tcp6: None,
        udp: Some(udp.to_string()),
        udp6: None,
    };
    let t = portx::ports::scan(&ScanSource::Linux { net: both, inodes: HashMap::new() });
    assert_eq!(t[22].protocol, Protocol::Udp);
    assert_eq!(t[22].direction, Direction::Unknown);
}

#[test]
fn later_connection_row_keeps_wildcard_mark() {
    let tcp = "header
 0: 00000000:1F90 00000000:0000 0A 0 0 0 0 0 1
 1: 0100007F:1F90 0100007F:C350 01 0 0 0 0 0 2
";
    let net = ProcNet { tcp: Some(tcp.to_string()), tcp6: None, udp: None, udp6: None };
    let t = portx::ports::scan(&ScanSource::Linux { net, inodes: HashMap::new() });
    assert!(t[8080].tcp_established);
    assert!(!t[8080].tcp_listen);
    assert!(t[8080].bind_global);
    assert_eq!(t[8080].uid, Some(0));
    assert_eq!(t[8080].remote_addr.as_deref(), Some("127.0.0.1:50000"));
}

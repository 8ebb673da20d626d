use portx::ports::{Direction, Protocol, ScanSource, TcpState};

const LSOF: &str = "COMMAND   PID   USER   FD   TYPE DEVICE SIZE/OFF NODE NAME
postgres  123   alice  5u  IPv4 0xabc  0t0  TCP *:5432 (LISTEN)
Chrome    456   alice  20u IPv4 0xdef  0t0  TCP 192.168.1.2:54321->93.184.216.34:443 (ESTABLISHED)
mDNSResp  789   root   8u  IPv4 0x123  0t0  UDP *:5353
cupsd     55    root   6u  IPv6 0x456  0t0  TCP [::1]:631 (LISTEN)
weird     66    root   6u  IPv6 0x456  0t0  SCTP *:9999
short line
";

fn table() -> portx::ports::PortTable {
    portx::ports::scan(&ScanSource::Macos { lsof: Some(LSOF.to_string()) })
}

#[test]
fn lsof_listen_on_star_is_global() {
    let t = table();
    let pg = &t[5432];
    assert!(pg.tcp_listen);
    assert_eq!(pg.tcp_state, TcpState::Listen);
    assert!(pg.bind_global);
    assert_eq!(pg.process.as_deref(), Some("postgres (123)"));
    assert_eq!(pg.pid, Some(123));
    assert_eq!(pg.owner.as_deref(), Some("alice"));
    assert_eq!(pg.remote_addr, None);
}

#[test]
fn lsof_connection_has_remote_without_state() {
    let t = table();
    let c = &t[54321];
    assert!(c.tcp_established);
    assert_eq!(c.protocol, Protocol::Tcp);
    assert!(!c.bind_global);
    assert_eq!(c.remote_addr.as_deref(), Some("93.184.216.34:443"));
    assert_eq!(c.direction, Direction::Outbound);
    assert_eq!(t[5432].direction, Direction::Unknown);
    assert_eq!(t[5353].direction, Direction::Unknown);
}

#[test]
fn lsof_udp_and_ipv6_rows() {
    let t = table();
    assert!(t[5353].udp_active);
    assert!(t[5353].bind_global);
    assert_eq!(t[5353].tcp_state, TcpState::Unset);
    assert!(t[631].tcp_listen);
    assert!(!t[631].bind_global);
}

#[test]
fn lsof_other_protocols_and_short_rows_are_skipped() {
    let t = table();
    assert_eq!(t[9999].protocol, Protocol::Unset);
    assert_eq!(t[9999].process, None);
}

#[test]
fn no_lsof_output_leaves_all_closed() {
    let t = portx::ports::scan(&ScanSource::Macos { lsof: None });
    assert!(t.iter().all(|s| s.protocol == Protocol::Unset));
}

use portx::ports::{infer_tcp_direction, Direction, TcpState};

#[test]
fn tcp_state_labels() {
    assert_eq!(TcpState::Unset.label(), "-");
    assert_eq!(TcpState::Listen.label(), "listen");
    assert_eq!(TcpState::Established.label(), "established");
    assert_eq!(TcpState::CloseWait.label(), "close_wait");
    assert_eq!(TcpState::FinWait1.label(), "fin_wait1");
}

#[test]
fn direction_labels() {
    assert_eq!(Direction::Unknown.label(), "-");
    assert_eq!(Direction::Inbound.label(), "in");
    assert_eq!(Direction::Outbound.label(), "out");
}

#[test]
fn handshake_states_name_the_direction() {
    assert_eq!(infer_tcp_direction(TcpState::SynSent, 50000, None), Direction::Outbound);
    assert_eq!(infer_tcp_direction(TcpState::SynRecv, 22, None), Direction::Inbound);
    assert_eq!(infer_tcp_direction(TcpState::Listen, 22, Some("1.2.3.4:5555")), Direction::Unknown);
    assert_eq!(infer_tcp_direction(TcpState::Unset, 22, Some("1.2.3.4:5555")), Direction::Unknown);
}

#[test]
fn later_states_use_the_well_known_port_convention() {
    assert_eq!(
        infer_tcp_direction(TcpState::Established, 22, Some("10.0.0.5:51000")),
        Direction::Inbound
    );
    assert_eq!(
        infer_tcp_direction(TcpState::Established, 51000, Some("93.184.216.34:443")),
        Direction::Outbound
    );
    assert_eq!(
        infer_tcp_direction(TcpState::CloseWait, 3000, Some("127.0.0.1:4000")),
        Direction::Unknown
    );
    assert_eq!(
        infer_tcp_direction(TcpState::Established, 22, Some("[::1]:80")),
        Direction::Unknown
    );
    assert_eq!(infer_tcp_direction(TcpState::Established, 22, None), Direction::Unknown);
    assert_eq!(
        infer_tcp_direction(TcpState::Established, 22, Some("nonsense")),
        Direction::Unknown
    );
}

#[test]
fn swapping_the_two_ends_swaps_the_direction() {
    for state in [TcpState::Established, TcpState::TimeWait, TcpState::FinWait1] {
        assert_eq!(infer_tcp_direction(state, 443, Some("10.1.2.3:52000")), Direction::Inbound);
        assert_eq!(infer_tcp_direction(state, 52000, Some("10.1.2.3:443")), Direction::Outbound);
        assert_eq!(infer_tcp_direction(state, 80, Some("10.1.2.3:22")), Direction::Unknown);
        assert_eq!(infer_tcp_direction(state, 22, Some("10.1.2.3:80")), Direction::Unknown);
        assert_eq!(infer_tcp_direction(state, 8080, Some("::1:9090")), Direction::Unknown);
        assert_eq!(infer_tcp_direction(state, 1023, Some("h:1024")), Direction::Inbound);
        assert_eq!(infer_tcp_direction(state, 1024, Some("h:1023")), Direction::Outbound);
    }
}

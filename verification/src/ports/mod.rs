//! The per-port status table and what the platform scanners fill into it.
use vstd::prelude::*;

use crate::num::parse_unsigned;
use crate::text::after_last;

pub mod linux;
pub mod macos;

verus! {

/// Full TCP connection state of a port.
#[derive(Clone, Copy, PartialEq, Eq, Structural, Debug)]
pub enum TcpState {
    /// No TCP socket seen on the port.
    Unset,
    Listen,
    Established,
    SynSent,
    SynRecv,
    FinWait1,
    FinWait2,
    TimeWait,
    Close,
    CloseWait,
    LastAck,
    Closing,
}

impl Default for TcpState {
    fn default() -> (s: Self)
        ensures
            s == TcpState::Unset,
    {
        TcpState::Unset
    }
}

/// Label text of each TCP state.
pub open spec fn tcp_state_label(s: TcpState) -> Seq<char> {
    match s {
        TcpState::Unset => "-"@,
        TcpState::Listen => "listen"@,
        TcpState::Established => "established"@,
        TcpState::SynSent => "syn_sent"@,
        TcpState::SynRecv => "syn_recv"@,
        TcpState::FinWait1 => "fin_wait1"@,
        TcpState::FinWait2 => "fin_wait2"@,
        TcpState::TimeWait => "time_wait"@,
        TcpState::Close => "close"@,
        TcpState::CloseWait => "close_wait"@,
        TcpState::LastAck => "last_ack"@,
        TcpState::Closing => "closing"@,
    }
}

impl TcpState {
    pub fn label(self) -> (l: &'static str)
        ensures
            l@ == tcp_state_label(self),
    {
        match self {
            TcpState::Unset => "-",
            TcpState::Listen => "listen",
            TcpState::Established => "established",
            TcpState::SynSent => "syn_sent",
            TcpState::SynRecv => "syn_recv",
            TcpState::FinWait1 => "fin_wait1",
            TcpState::FinWait2 => "fin_wait2",
            TcpState::TimeWait => "time_wait",
            TcpState::Close => "close",
            TcpState::CloseWait => "close_wait",
            TcpState::LastAck => "last_ack",
            TcpState::Closing => "closing",
        }
    }
}

/// Transport protocol of the last socket seen on a port.
#[derive(Clone, Copy, PartialEq, Eq, Structural, Debug)]
pub enum Protocol {
    /// No socket seen on the port.
    Unset,
    Tcp,
    Udp,
}

impl Default for Protocol {
    fn default() -> (p: Self)
        ensures
            p == Protocol::Unset,
    {
        Protocol::Unset
    }
}

/// Who initiated a connection: a remote peer (inbound) or this machine
/// (outbound). UDP is connectionless and stays `Unknown`.
#[derive(Clone, Copy, PartialEq, Eq, Structural, Debug)]
pub enum Direction {
    Unknown,
    Inbound,
    Outbound,
}

impl Default for Direction {
    fn default() -> (d: Self)
        ensures
            d == Direction::Unknown,
    {
        Direction::Unknown
    }
}

pub open spec fn direction_label(d: Direction) -> Seq<char> {
    match d {
        Direction::Unknown => "-"@,
        Direction::Inbound => "in"@,
        Direction::Outbound => "out"@,
    }
}

impl Direction {
    pub fn label(self) -> (l: &'static str)
        ensures
            l@ == direction_label(self),
    {
        match self {
            Direction::Unknown => "-",
            Direction::Inbound => "in",
            Direction::Outbound => "out",
        }
    }
}

/// The port number at the end of an `ip:port` address, if it reads as one.
pub open spec fn addr_port(addr: Seq<char>) -> Option<nat> {
    parse_unsigned(after_last(addr, ':'), 10, 0xFFFF)
}

/// Best-effort direction of a TCP connection. The handshake states name it
/// directly; later states fall back to the well-known-port convention (the
/// server side sits on a port below 1024, the dialing side on one above).
pub open spec fn spec_infer_tcp_direction(
    state: TcpState,
    local_port: u16,
    remote_addr: Option<Seq<char>>,
) -> Direction {
    match state {
        TcpState::SynSent => Direction::Outbound,
        TcpState::SynRecv => Direction::Inbound,
        TcpState::Listen | TcpState::Unset => Direction::Unknown,
        _ => {
            let remote_port = match remote_addr {
                Some(a) => addr_port(a),
                None => None,
            };
            match remote_port {
                Some(rp) => if local_port < 1024 && rp >= 1024 {
                    Direction::Inbound
                } else if rp < 1024 && local_port >= 1024 {
                    Direction::Outbound
                } else {
                    Direction::Unknown
                },
                None => Direction::Unknown,
            }
        },
    }
}

pub open spec fn opt_str_view(o: Option<&str>) -> Option<Seq<char>> {
    match o {
        Some(s) => Some(s@),
        None => None,
    }
}

pub fn infer_tcp_direction(state: TcpState, local_port: u16, remote_addr: Option<&str>) -> (d:
    Direction)
    ensures
        d == spec_infer_tcp_direction(state, local_port, opt_str_view(remote_addr)),
{
    match state {
        TcpState::SynSent => return Direction::Outbound,
        TcpState::SynRecv => return Direction::Inbound,
        TcpState::Listen | TcpState::Unset => return Direction::Unknown,
        _ => {},
    }
    let remote_port = match remote_addr {
        Some(addr) => {
            let chars = crate::text::to_chars(addr);
            let start = crate::text::after_last_start(chars.as_slice(), ':');
            let tail = crate::text::copy_range(chars.as_slice(), start, chars.len());
            crate::num::parse_u16(tail.as_slice())
        },
        None => None,
    };
    match remote_port {
        Some(rp) => if local_port < 1024 && rp >= 1024 {
            Direction::Inbound
        } else if rp < 1024 && local_port >= 1024 {
            Direction::Outbound
        } else {
            Direction::Unknown
        },
        None => Direction::Unknown,
    }
}

/// The same connection seen from its other end: inbound becomes outbound.
pub open spec fn swap_direction(d: Direction) -> Direction {
    match d {
        Direction::Inbound => Direction::Outbound,
        Direction::Outbound => Direction::Inbound,
        Direction::Unknown => Direction::Unknown,
    }
}

/// The `ip:port` text of an address, with the port in decimal.
pub open spec fn addr_text(ip: Seq<char>, port: nat) -> Seq<char> {
    ip.push(':') + crate::num::decimal(port)
}

/// The port read back from `ip:port` is the port that was written, whatever
/// the `ip` part holds.
pub proof fn lemma_addr_port(ip: Seq<char>, port: nat)
    requires
        port <= 0xFFFF,
    ensures
        addr_port(addr_text(ip, port)) == Some(port),
{
    let d = crate::num::decimal(port);
    crate::num::lemma_decimal_digits(port);
    assert forall|i: int| 0 <= i < d.len() implies d[i] != ':' by {
        assert(crate::num::digit_value(d[i], 10) is Some);
        assert(crate::num::digit_value(':', 10) is None);
    }
    crate::text::lemma_after_last_tail(ip, ':', d);
    crate::num::lemma_parse_decimal(port, 0xFFFF);
}

/// Past the handshake, the direction of a connection between ports `a` and
/// `b` read at `a` is the reverse of the direction read at `b`, and it is
/// unknown when both ports sit on the same side of 1024.
pub proof fn lemma_direction_symmetric(state: TcpState, a: u16, b: u16, ip: Seq<char>)
    requires
        state != TcpState::SynSent,
        state != TcpState::SynRecv,
        state != TcpState::Listen,
        state != TcpState::Unset,
    ensures
        spec_infer_tcp_direction(state, a, Some(addr_text(ip, b as nat))) == swap_direction(
            spec_infer_tcp_direction(state, b, Some(addr_text(ip, a as nat))),
        ),
        (a < 1024) == (b < 1024) ==> spec_infer_tcp_direction(
            state,
            a,
            Some(addr_text(ip, b as nat)),
        ) == Direction::Unknown,
{
    lemma_addr_port(ip, a as nat);
    lemma_addr_port(ip, b as nat);
}

/// What the direction is, case by case: a SYN sent is outbound and a SYN
/// received inbound whatever the ports; a listening or unset socket has no
/// direction; past the handshake, a local port below 1024 talking to a
/// remote port of 1024 or above is inbound (a client reached this server),
/// the reverse is outbound, and with no readable remote port the direction
/// is unknown.
pub proof fn lemma_direction_cases(state: TcpState, a: u16, b: u16, ip: Seq<char>, remote: Option<
    Seq<char>,
>)
    ensures
        spec_infer_tcp_direction(TcpState::SynSent, a, remote) == Direction::Outbound,
        spec_infer_tcp_direction(TcpState::SynRecv, a, remote) == Direction::Inbound,
        spec_infer_tcp_direction(TcpState::Listen, a, remote) == Direction::Unknown,
        spec_infer_tcp_direction(TcpState::Unset, a, remote) == Direction::Unknown,
        state != TcpState::SynSent && state != TcpState::SynRecv && state != TcpState::Listen
            && state != TcpState::Unset ==> {
            &&& a < 1024 && b >= 1024 ==> spec_infer_tcp_direction(
                state,
                a,
                Some(addr_text(ip, b as nat)),
            ) == Direction::Inbound
            &&& a >= 1024 && b < 1024 ==> spec_infer_tcp_direction(
                state,
                a,
                Some(addr_text(ip, b as nat)),
            ) == Direction::Outbound
            &&& spec_infer_tcp_direction(state, a, None) == Direction::Unknown
        },
{
    lemma_addr_port(ip, b as nat);
}

/// What is known of one port after a scan.
pub struct PortStatus {
    pub tcp_listen: bool,
    pub tcp_established: bool,
    pub udp_active: bool,
    /// The LISTEN or UDP line for this port showed the wildcard local
    /// address rather than a loopback or specific-interface bind.
    pub bind_global: bool,
    /// Owning process, as "name (pid)", when it could be resolved.
    pub process: Option<String>,
    pub pid: Option<u32>,
    pub tcp_state: TcpState,
    pub protocol: Protocol,
    /// "ip:port" of the remote peer of a connected TCP socket.
    pub remote_addr: Option<String>,
    pub uid: Option<u32>,
    pub owner: Option<String>,
    /// Inferred by `infer_tcp_direction` for a TCP row; `Unknown` for UDP
    /// and closed ports.
    pub direction: Direction,
}

/// A port status with its strings taken as character sequences.
pub struct PortView {
    pub tcp_listen: bool,
    pub tcp_established: bool,
    pub udp_active: bool,
    pub bind_global: bool,
    pub process: Option<Seq<char>>,
    pub pid: Option<u32>,
    pub tcp_state: TcpState,
    pub protocol: Protocol,
    pub remote_addr: Option<Seq<char>>,
    pub uid: Option<u32>,
    pub owner: Option<Seq<char>>,
    pub direction: Direction,
}

pub open spec fn opt_string_view(o: Option<String>) -> Option<Seq<char>> {
    match o {
        Some(s) => Some(s@),
        None => None,
    }
}

impl View for PortStatus {
    type V = PortView;

    open spec fn view(&self) -> PortView {
        PortView {
            tcp_listen: self.tcp_listen,
            tcp_established: self.tcp_established,
            udp_active: self.udp_active,
            bind_global: self.bind_global,
            process: opt_string_view(self.process),
            pid: self.pid,
            tcp_state: self.tcp_state,
            protocol: self.protocol,
            remote_addr: opt_string_view(self.remote_addr),
            uid: self.uid,
            owner: opt_string_view(self.owner),
            direction: self.direction,
        }
    }
}

/// The status of a port nothing has been seen on.
pub open spec fn closed_port() -> PortView {
    PortView {
        tcp_listen: false,
        tcp_established: false,
        udp_active: false,
        bind_global: false,
        process: None,
        pid: None,
        tcp_state: TcpState::Unset,
        protocol: Protocol::Unset,
        remote_addr: None,
        uid: None,
        owner: None,
        direction: Direction::Unknown,
    }
}

/// A copy of an optional string.
pub fn clone_opt_string(o: &Option<String>) -> (r: Option<String>)
    ensures
        r == *o,
{
    match o {
        Some(s) => Some(s.clone()),
        None => None,
    }
}

impl Clone for PortStatus {
    fn clone(&self) -> (r: Self)
        ensures
            r == *self,
    {
        PortStatus {
            tcp_listen: self.tcp_listen,
            tcp_established: self.tcp_established,
            udp_active: self.udp_active,
            bind_global: self.bind_global,
            process: clone_opt_string(&self.process),
            pid: self.pid,
            tcp_state: self.tcp_state,
            protocol: self.protocol,
            remote_addr: clone_opt_string(&self.remote_addr),
            uid: self.uid,
            owner: clone_opt_string(&self.owner),
            direction: self.direction,
        }
    }
}

impl Default for PortStatus {
    fn default() -> (s: Self)
        ensures
            s@ == closed_port(),
    {
        PortStatus {
            tcp_listen: false,
            tcp_established: false,
            udp_active: false,
            bind_global: false,
            process: None,
            pid: None,
            tcp_state: TcpState::Unset,
            protocol: Protocol::Unset,
            remote_addr: None,
            uid: None,
            owner: None,
            direction: Direction::Unknown,
        }
    }
}

/// One status per port number, indexed by port.
pub type PortTable = Vec<PortStatus>;

/// Number of ports: every `u16`.
pub const PORT_COUNT: usize = 65536;

pub open spec fn table_view(t: Seq<PortStatus>) -> Seq<PortView> {
    t.map_values(|p: PortStatus| p@)
}

/// A table with every port closed.
pub fn empty_table() -> (t: PortTable)
    ensures
        t@.len() == PORT_COUNT,
        forall|p: int| 0 <= p < PORT_COUNT ==> (#[trigger] t@[p])@ == closed_port(),
{
    let mut t: PortTable = Vec::new();
    let mut i: usize = 0;
    while i < PORT_COUNT
        invariant
            i <= PORT_COUNT,
            t@.len() == i,
            forall|p: int| 0 <= p < i ==> (#[trigger] t@[p])@ == closed_port(),
        decreases PORT_COUNT - i,
    {
        t.push(PortStatus::default());
        i = i + 1;
    }
    t
}

/// Replaces the status of port `p`.
pub(crate) fn set_status(t: &mut PortTable, p: usize, s: PortStatus)
    requires
        p < old(t)@.len(),
    ensures
        final(t)@ == old(t)@.update(p as int, s),
{
    t.set(p, s);
}

/// What a scan reads: the kernel's socket tables with the socket-inode
/// owners on Linux, lsof's output on macOS.
pub enum ScanSource {
    Linux { net: linux::ProcNet, inodes: linux::InodeMap },
    Macos { lsof: Option<String> },
}

pub open spec fn scan_source_safe(src: ScanSource) -> bool {
    match src {
        ScanSource::Linux { net, .. } => linux::proc_net_safe(net),
        ScanSource::Macos { .. } => true,
    }
}

/// The table of all closed ports, as a sequence of views.
pub open spec fn closed_table() -> Seq<PortView> {
    Seq::new(PORT_COUNT as nat, |p: int| closed_port())
}

pub open spec fn spec_scan(src: ScanSource) -> Seq<PortView> {
    match src {
        ScanSource::Linux { net, inodes } => linux::spec_scan(closed_table(), net, inodes@),
        ScanSource::Macos { lsof } => macos::spec_scan(closed_table(), opt_string_view(lsof)),
    }
}

/// A fresh table: every port closed, then the platform's sockets applied.
pub fn scan(src: &ScanSource) -> (t: PortTable)
    requires
        scan_source_safe(*src),
    ensures
        t@.len() == PORT_COUNT,
        table_view(t@) == spec_scan(*src),
{
    let mut t = empty_table();
    assert(table_view(t@) =~= closed_table());
    match src {
        ScanSource::Linux { net, inodes } => linux::scan(&mut t, net, inodes),
        ScanSource::Macos { lsof } => macos::scan(&mut t, lsof),
    }
    t
}

/// The uids of the first `n` ports, in port order, one per port that has
/// one.
pub open spec fn uids_upto(t: Seq<PortStatus>, n: int) -> Seq<u32>
    decreases n,
{
    if n <= 0 {
        seq![]
    } else {
        match t[n - 1].uid {
            Some(u) => uids_upto(t, n - 1).push(u),
            None => uids_upto(t, n - 1),
        }
    }
}

/// The uids recorded in the table, in port order.
pub fn owner_uids(t: &PortTable) -> (uids: Vec<u32>)
    ensures
        uids@ == uids_upto(t@, t@.len() as int),
{
    let mut uids: Vec<u32> = Vec::new();
    let mut p: usize = 0;
    while p < t.len()
        invariant
            p <= t@.len(),
            uids@ == uids_upto(t@, p as int),
        decreases t.len() - p,
    {
        if let Some(u) = t[p].uid {
            uids.push(u);
        }
        p = p + 1;
    }
    uids
}

/// Every uid in the table is listed, and every listed uid is some port's.
pub proof fn lemma_owner_uids(t: Seq<PortStatus>, n: int)
    requires
        0 <= n <= t.len(),
    ensures
        forall|p: int|
            0 <= p < n && (#[trigger] t[p]).uid is Some ==> uids_upto(t, n).contains(
                t[p].uid.unwrap(),
            ),
        forall|i: int|
            0 <= i < uids_upto(t, n).len() ==> exists|p: int|
                0 <= p < n && (#[trigger] t[p]).uid == Some(#[trigger] uids_upto(t, n)[i]),
    decreases n,
{
    if n > 0 {
        lemma_owner_uids(t, n - 1);
        let before = uids_upto(t, n - 1);
        let cur = uids_upto(t, n);
        if let Some(u) = t[n - 1].uid {
            assert(cur == before.push(u));
            assert forall|p: int| 0 <= p < n && (#[trigger] t[p]).uid is Some implies cur.contains(
                t[p].uid.unwrap(),
            ) by {
                let x = t[p].uid.unwrap();
                if p < n - 1 {
                    let j = choose|j: int| 0 <= j < before.len() && before[j] == x;
                    assert(cur[j] == x);
                } else {
                    assert(cur[cur.len() - 1] == x);
                }
            }
            assert forall|i: int| 0 <= i < cur.len() implies exists|p: int|
                0 <= p < n && (#[trigger] t[p]).uid == Some(#[trigger] cur[i]) by {
                if i < before.len() {
                    let p = choose|p: int| 0 <= p < n - 1 && (#[trigger] t[p]).uid == Some(before[i]);
                    assert(cur[i] == before[i]);
                    assert(t[p].uid == Some(cur[i]));
                } else {
                    assert(t[n - 1].uid == Some(cur[i]));
                }
            }
        }
    }
}

/// The owner a uid resolves to, when the names hold it.
pub open spec fn resolved_owner(st: PortView, names: Map<u32, Option<String>>) -> PortView {
    match st.uid {
        Some(u) => if names.dom().contains(u) {
            PortView { owner: opt_string_view(names[u]), ..st }
        } else {
            st
        },
        None => st,
    }
}

/// Sets each port's owner to the user name its uid resolves to.
pub fn resolve_owners(t: &mut PortTable, names: &std::collections::HashMap<u32, Option<String>>)
    ensures
        final(t)@.len() == old(t)@.len(),
        forall|p: int|
            0 <= p < old(t)@.len() ==> (#[trigger] final(t)@[p])@ == resolved_owner(
                old(t)@[p]@,
                names@,
            ),
{
    proof {
        broadcast use vstd::std_specs::hash::group_hash_axioms;
    }
    let ghost start = t@;
    let mut p: usize = 0;
    while p < t.len()
        invariant
            p <= t@.len(),
            t@.len() == start.len(),
            forall|q: int| 0 <= q < p ==> (#[trigger] t@[q])@ == resolved_owner(start[q]@, names@),
            forall|q: int| p <= q < t@.len() ==> #[trigger] t@[q] == start[q],
        decreases t.len() - p,
    {
        if let Some(u) = t[p].uid {
            if let Some(name) = names.get(&u) {
                let mut st = t[p].clone();
                st.owner = clone_opt_string(name);
                set_status(t, p, st);
            }
        }
        p = p + 1;
    }
}

/// A port's status is consistent: the listen and established flags agree
/// with the full TCP state they summarize; a TCP port carries the direction
/// inferred from its state, its port number and its remote peer; any other
/// port's direction is `Unknown`.
pub open spec fn port_consistent(s: PortView, p: int) -> bool {
    &&& s.tcp_listen == (s.tcp_state == TcpState::Listen)
    &&& s.tcp_established == (s.tcp_state == TcpState::Established)
    &&& s.protocol == Protocol::Tcp ==> s.direction == spec_infer_tcp_direction(
        s.tcp_state,
        p as u16,
        s.remote_addr,
    )
    &&& s.protocol != Protocol::Tcp ==> s.direction == Direction::Unknown
}

pub open spec fn table_consistent(t: Seq<PortView>) -> bool {
    forall|p: int| 0 <= p < t.len() ==> port_consistent(#[trigger] t[p], p)
}

proof fn lemma_linux_tcp_rows_consistent(t: Seq<PortView>, rows: Seq<Seq<char>>, inodes: Map<u64, (String, u32)>)
    requires
        table_consistent(t),
        t.len() == PORT_COUNT,
    ensures
        table_consistent(linux::tcp_rows(t, rows, inodes)),
        linux::tcp_rows(t, rows, inodes).len() == PORT_COUNT,
    decreases rows.len(),
{
    if rows.len() > 0 {
        let next = linux::tcp_row_step(t, rows[0], inodes);
        let f = crate::text::tokens(rows[0]);
        assert forall|q: int| 0 <= q < next.len() implies port_consistent(#[trigger] next[q], q) by {
            match (linux::spec_local_port(f), linux::spec_row_state(f)) {
                (Some(p), Some(st)) => {
                    if q != p as int {
                        assert(next[q] == t[q]);
                    }
                },
                _ => {},
            }
        }
        lemma_linux_tcp_rows_consistent(next, rows.drop_first(), inodes);
    }
}

proof fn lemma_linux_udp_rows_consistent(t: Seq<PortView>, rows: Seq<Seq<char>>, inodes: Map<u64, (String, u32)>)
    requires
        table_consistent(t),
        t.len() == PORT_COUNT,
    ensures
        table_consistent(linux::udp_rows(t, rows, inodes)),
        linux::udp_rows(t, rows, inodes).len() == PORT_COUNT,
    decreases rows.len(),
{
    if rows.len() > 0 {
        let next = linux::udp_row_step(t, rows[0], inodes);
        let f = crate::text::tokens(rows[0]);
        assert forall|q: int| 0 <= q < next.len() implies port_consistent(#[trigger] next[q], q) by {
            match linux::spec_local_port(f) {
                Some(p) => {
                    if q != p as int {
                        assert(next[q] == t[q]);
                    }
                },
                None => {},
            }
        }
        lemma_linux_udp_rows_consistent(next, rows.drop_first(), inodes);
    }
}

proof fn lemma_macos_rows_consistent(t: Seq<PortView>, rows: Seq<Seq<char>>)
    requires
        table_consistent(t),
        t.len() == PORT_COUNT,
    ensures
        table_consistent(macos::rows_effect(t, rows)),
        macos::rows_effect(t, rows).len() == PORT_COUNT,
    decreases rows.len(),
{
    if rows.len() > 0 {
        let next = macos::row_step(t, rows[0]);
        let f = crate::text::tokens(rows[0]);
        assert forall|q: int| 0 <= q < next.len() implies port_consistent(#[trigger] next[q], q) by {
            if f.len() >= 9 {
                let name = crate::text::join(f.skip(8), seq![' ']);
                match macos::spec_local_port(name) {
                    Some(p) => {
                        if q != p as int {
                            assert(next[q] == t[q]);
                        }
                    },
                    None => {},
                }
            }
        }
        lemma_macos_rows_consistent(next, rows.drop_first());
    }
}

/// After any scan, on either platform, every port's listen and established
/// flags agree with its full TCP state, every TCP port carries the
/// direction inferred from its state, port number and remote peer, and
/// every other port (UDP or closed) has direction `Unknown`.
pub proof fn lemma_scan_consistent(src: ScanSource)
    ensures
        spec_scan(src).len() == PORT_COUNT,
        table_consistent(spec_scan(src)),
{
    assert(table_consistent(closed_table()));
    match src {
        ScanSource::Linux { net, inodes } => {
            let t0 = closed_table();
            let t1 = linux::tcp_table_effect(t0, linux::opt_view(net.tcp), inodes@);
            let t2 = linux::tcp_table_effect(t1, linux::opt_view(net.tcp6), inodes@);
            let t3 = linux::udp_table_effect(t2, linux::opt_view(net.udp), inodes@);
            if let Some(c) = linux::opt_view(net.tcp) {
                lemma_linux_tcp_rows_consistent(t0, crate::text::skip_first(crate::text::lines(c)), inodes@);
            }
            if let Some(c) = linux::opt_view(net.tcp6) {
                lemma_linux_tcp_rows_consistent(t1, crate::text::skip_first(crate::text::lines(c)), inodes@);
            }
            if let Some(c) = linux::opt_view(net.udp) {
                lemma_linux_udp_rows_consistent(t2, crate::text::skip_first(crate::text::lines(c)), inodes@);
            }
            if let Some(c) = linux::opt_view(net.udp6) {
                lemma_linux_udp_rows_consistent(t3, crate::text::skip_first(crate::text::lines(c)), inodes@);
            }
        },
        ScanSource::Macos { lsof } => {
            if let Some(c) = opt_string_view(lsof) {
                lemma_macos_rows_consistent(closed_table(), crate::text::skip_first(crate::text::lines(c)));
            }
        },
    }
}

/// Resolving owners touches only the owner, so a port that was consistent
/// after the scan stays consistent.
pub proof fn lemma_resolve_keeps_consistent(st: PortView, p: int, names: Map<u32, Option<String>>)
    requires
        port_consistent(st, p),
    ensures
        port_consistent(resolved_owner(st, names), p),
{
}

/// Resolving owners names an owner only for a port that has a uid: after a
/// Linux scan (which sets no owner), every owner comes with a uid.
pub proof fn lemma_owner_needs_uid(st: PortView, names: Map<u32, Option<String>>)
    requires
        st.owner is None,
    ensures
        resolved_owner(st, names).owner is Some ==> resolved_owner(st, names).uid is Some,
{
}

} // verus!

//! Reading the kernel's socket tables (`/proc/net/{tcp,tcp6,udp,udp6}`).
//!
//! Each row is whitespace-separated: field 1 is the local `HEXIP:HEXPORT`,
//! field 2 the remote one, field 3 the hex TCP state, field 7 the owner's
//! uid and field 9 the socket inode.
use std::collections::HashMap;
use vstd::prelude::*;

use super::{table_view, Direction, PortStatus, PortTable, PortView, Protocol, TcpState, PORT_COUNT};
use crate::num::{decimal, hex2, parse_unsigned};
use crate::text::{
    all_zero, before_first, join, lines, second_piece, skip_first, split_once, tokens, views,
};

verus! {

/// Socket inode to owning process: "name (pid)" and the pid.
pub type InodeMap = HashMap<u64, (String, u32)>;

/// The state named by the hex code of field 3 (see the kernel's
/// `include/net/tcp_states.h`).
pub open spec fn spec_tcp_state_from_hex(h: Seq<char>) -> Option<TcpState> {
    if h.len() != 2 || h[0] != '0' {
        None
    } else {
        match h[1] {
            '1' => Some(TcpState::Established),
            '2' => Some(TcpState::SynSent),
            '3' => Some(TcpState::SynRecv),
            '4' => Some(TcpState::FinWait1),
            '5' => Some(TcpState::FinWait2),
            '6' => Some(TcpState::TimeWait),
            '7' => Some(TcpState::Close),
            '8' => Some(TcpState::CloseWait),
            '9' => Some(TcpState::LastAck),
            'A' => Some(TcpState::Listen),
            'B' => Some(TcpState::Closing),
            _ => None,
        }
    }
}

/// The local port: the hex number after the `':'` of field 1.
pub open spec fn spec_local_port(f: Seq<Seq<char>>) -> Option<nat> {
    if f.len() > 1 {
        match second_piece(f[1], ':') {
            Some(p) => parse_unsigned(p, 16, 0xFFFF),
            None => None,
        }
    } else {
        None
    }
}

/// The local address is the wildcard (0.0.0.0 or ::, all zero digits).
pub open spec fn spec_is_wildcard(f: Seq<Seq<char>>) -> bool {
    f.len() > 1 && all_zero(before_first(f[1], ':'))
}

/// The TCP state of a row.
pub open spec fn spec_row_state(f: Seq<Seq<char>>) -> Option<TcpState> {
    if f.len() > 3 {
        spec_tcp_state_from_hex(f[3])
    } else {
        None
    }
}

/// The owner's uid (field 7).
pub open spec fn spec_row_uid(f: Seq<Seq<char>>) -> Option<nat> {
    if f.len() > 7 {
        parse_unsigned(f[7], 10, 0xFFFF_FFFF)
    } else {
        None
    }
}

/// The socket inode (field 9).
pub open spec fn spec_socket_inode(f: Seq<Seq<char>>) -> Option<nat> {
    if f.len() > 9 {
        parse_unsigned(f[9], 10, 0xFFFF_FFFF_FFFF_FFFF)
    } else {
        None
    }
}

/// Bytes in the UTF-8 encoding of a character.
pub open spec fn utf8_width(c: char) -> nat {
    let u = c as u32;
    if u < 0x80 {
        1
    } else if u < 0x800 {
        2
    } else if u < 0x10000 {
        3
    } else {
        4
    }
}

/// Whether reading `s` two bytes at a time as hex would slice it off a
/// character boundary or past its end before a pair fails to read: the
/// inputs on which the byte-pair decoding panics.
pub open spec fn hex_ip_panics(s: Seq<char>) -> bool
    decreases s.len(),
{
    if s.len() == 0 {
        false
    } else if (s[0] as u32) >= 0x80 {
        utf8_width(s[0]) > 2
    } else if s.len() == 1 {
        true
    } else if (s[1] as u32) >= 0x80 {
        true
    } else if parse_unsigned(s.take(2), 16, 0xFF) is None {
        false
    } else {
        hex_ip_panics(s.skip(2))
    }
}

/// The bytes spelled by `s` as pairs of hex digits.
pub open spec fn hex_bytes(s: Seq<char>) -> Option<Seq<u8>>
    decreases s.len(),
{
    if s.len() == 0 {
        Some(seq![])
    } else if s.len() >= 2 && parse_unsigned(s.take(2), 16, 0xFF) is Some {
        match hex_bytes(s.skip(2)) {
            Some(rest) => Some(seq![parse_unsigned(s.take(2), 16, 0xFF).unwrap() as u8] + rest),
            None => None,
        }
    } else {
        None
    }
}

/// Byte `k` of an IPv6 address in network order, from the kernel's four
/// little-endian 32-bit words.
pub open spec fn v6_byte(bytes: Seq<u8>, k: int) -> u8 {
    bytes[(k / 4) * 4 + 3 - k % 4]
}

/// Group `g` of an IPv6 address: four lower-case hex digits.
pub open spec fn v6_group(bytes: Seq<u8>, g: int) -> Seq<char> {
    hex2(v6_byte(bytes, 2 * g)) + hex2(v6_byte(bytes, 2 * g + 1))
}

/// Text of an address given as the kernel's hex words: dotted decimal for
/// IPv4 (one word, byte order reversed), eight colon-separated groups of
/// four hex digits for IPv6 (four words, each reversed).
pub open spec fn ip_text(bytes: Seq<u8>) -> Option<Seq<char>> {
    if bytes.len() == 4 {
        Some(
            decimal(bytes[3] as nat) + seq!['.'] + decimal(bytes[2] as nat) + seq!['.'] + decimal(
                bytes[1] as nat,
            ) + seq!['.'] + decimal(bytes[0] as nat),
        )
    } else if bytes.len() == 16 {
        Some(join(Seq::new(8, |g: int| v6_group(bytes, g)), seq![':']))
    } else {
        None
    }
}

pub open spec fn spec_decode_hex_ip(s: Seq<char>) -> Option<Seq<char>> {
    match hex_bytes(s) {
        Some(b) => ip_text(b),
        None => None,
    }
}

/// The remote peer of field 2 as "ip:port", or `None` when the address is
/// all zeros (no peer yet) or does not read.
pub open spec fn spec_remote_addr(f: Seq<Seq<char>>) -> Option<Seq<char>> {
    if f.len() > 2 {
        match split_once(f[2], ':') {
            Some((ip, port)) => if all_zero(ip) {
                None
            } else {
                match parse_unsigned(port, 16, 0xFFFF) {
                    Some(p) => match spec_decode_hex_ip(ip) {
                        Some(t) => Some(t + seq![':'] + decimal(p)),
                        None => None,
                    },
                    None => None,
                }
            },
            None => None,
        }
    } else {
        None
    }
}

/// Reading the remote address of this row does not panic.
pub open spec fn remote_addr_safe(f: Seq<Seq<char>>) -> bool {
    f.len() > 2 ==> match split_once(f[2], ':') {
        Some((ip, port)) => all_zero(ip) || parse_unsigned(port, 16, 0xFFFF) is None
            || !hex_ip_panics(ip),
        None => true,
    }
}

/// A TCP row that reaches the remote address can read it.
pub open spec fn tcp_row_safe(line: Seq<char>) -> bool {
    let f = tokens(line);
    spec_local_port(f) is Some && spec_row_state(f) is Some ==> remote_addr_safe(f)
}

/// Every data row of a TCP table is safe.
pub open spec fn tcp_contents_safe(contents: Seq<char>) -> bool {
    forall|i: int|
        0 <= i < skip_first(lines(contents)).len() ==> tcp_row_safe(
            #[trigger] skip_first(lines(contents))[i],
        )
}

/// Records the owning process, when the socket's inode names one.
pub open spec fn with_process(st: PortView, f: Seq<Seq<char>>, inodes: Map<u64, (String, u32)>) -> PortView {
    match spec_socket_inode(f) {
        Some(i) => if inodes.dom().contains(i as u64) {
            PortView { process: Some(inodes[i as u64].0@), pid: Some(inodes[i as u64].1), ..st }
        } else {
            st
        },
        None => st,
    }
}

/// Records the owner's uid, when field 7 reads as one.
pub open spec fn with_uid(st: PortView, f: Seq<Seq<char>>) -> PortView {
    match spec_row_uid(f) {
        Some(u) => PortView { uid: Some(u as u32), ..st },
        None => st,
    }
}

/// What one TCP row does to the status of its port `port`: the state and
/// its flags, the wildcard mark of a LISTEN row, the remote peer, the
/// direction inferred from them, the owning process and the uid.
pub open spec fn tcp_row_effect(
    st: PortView,
    f: Seq<Seq<char>>,
    state: TcpState,
    port: nat,
    inodes: Map<u64, (String, u32)>,
) -> PortView {
    let s1 = PortView {
        tcp_state: state,
        protocol: Protocol::Tcp,
        tcp_listen: state == TcpState::Listen,
        tcp_established: state == TcpState::Established,
        bind_global: if state == TcpState::Listen && spec_is_wildcard(f) {
            true
        } else {
            st.bind_global
        },
        remote_addr: spec_remote_addr(f),
        direction: super::spec_infer_tcp_direction(state, port as u16, spec_remote_addr(f)),
        ..st
    };
    with_uid(with_process(s1, f, inodes), f)
}

/// What one UDP row does to the status of its port: UDP is connectionless,
/// so its direction is `Unknown`.
pub open spec fn udp_row_effect(st: PortView, f: Seq<Seq<char>>, inodes: Map<u64, (String, u32)>) -> PortView {
    let s1 = PortView {
        udp_active: true,
        protocol: Protocol::Udp,
        bind_global: if spec_is_wildcard(f) {
            true
        } else {
            st.bind_global
        },
        direction: Direction::Unknown,
        ..st
    };
    with_uid(with_process(s1, f, inodes), f)
}

pub open spec fn tcp_row_step(t: Seq<PortView>, line: Seq<char>, inodes: Map<u64, (String, u32)>) -> Seq<PortView> {
    let f = tokens(line);
    match (spec_local_port(f), spec_row_state(f)) {
        (Some(p), Some(state)) => t.update(p as int, tcp_row_effect(t[p as int], f, state, p, inodes)),
        _ => t,
    }
}

pub open spec fn udp_row_step(t: Seq<PortView>, line: Seq<char>, inodes: Map<u64, (String, u32)>) -> Seq<PortView> {
    let f = tokens(line);
    match spec_local_port(f) {
        Some(p) => t.update(p as int, udp_row_effect(t[p as int], f, inodes)),
        None => t,
    }
}

/// The rows applied in order.
pub open spec fn tcp_rows(t: Seq<PortView>, rows: Seq<Seq<char>>, inodes: Map<u64, (String, u32)>) -> Seq<PortView>
    decreases rows.len(),
{
    if rows.len() == 0 {
        t
    } else {
        tcp_rows(tcp_row_step(t, rows[0], inodes), rows.drop_first(), inodes)
    }
}

pub open spec fn udp_rows(t: Seq<PortView>, rows: Seq<Seq<char>>, inodes: Map<u64, (String, u32)>) -> Seq<PortView>
    decreases rows.len(),
{
    if rows.len() == 0 {
        t
    } else {
        udp_rows(udp_row_step(t, rows[0], inodes), rows.drop_first(), inodes)
    }
}

/// A TCP table's text applied to the port table: every row after the
/// header line. A table that could not be read changes nothing.
pub open spec fn tcp_table_effect(t: Seq<PortView>, contents: Option<Seq<char>>, inodes: Map<u64, (String, u32)>) -> Seq<PortView> {
    match contents {
        Some(c) => tcp_rows(t, skip_first(lines(c)), inodes),
        None => t,
    }
}

pub open spec fn udp_table_effect(t: Seq<PortView>, contents: Option<Seq<char>>, inodes: Map<u64, (String, u32)>) -> Seq<PortView> {
    match contents {
        Some(c) => udp_rows(t, skip_first(lines(c)), inodes),
        None => t,
    }
}

/// The four socket tables as read, `None` where a file could not be read.
pub struct ProcNet {
    pub tcp: Option<String>,
    pub tcp6: Option<String>,
    pub udp: Option<String>,
    pub udp6: Option<String>,
}

pub open spec fn opt_view(o: Option<String>) -> Option<Seq<char>> {
    super::opt_string_view(o)
}

pub open spec fn proc_net_safe(net: ProcNet) -> bool {
    &&& (net.tcp matches Some(c) ==> tcp_contents_safe(c@))
    &&& (net.tcp6 matches Some(c) ==> tcp_contents_safe(c@))
}

/// The whole scan: tcp, tcp6, udp, udp6 in that order.
pub open spec fn spec_scan(t: Seq<PortView>, net: ProcNet, inodes: Map<u64, (String, u32)>) -> Seq<PortView> {
    let t1 = tcp_table_effect(t, opt_view(net.tcp), inodes);
    let t2 = tcp_table_effect(t1, opt_view(net.tcp6), inodes);
    let t3 = udp_table_effect(t2, opt_view(net.udp), inodes);
    udp_table_effect(t3, opt_view(net.udp6), inodes)
}

fn tcp_state_from_hex(h: &[char]) -> (r: Option<TcpState>)
    ensures
        r == spec_tcp_state_from_hex(h@),
{
    if h.len() != 2 || h[0] != '0' {
        return None;
    }
    match h[1] {
        '1' => Some(TcpState::Established),
        '2' => Some(TcpState::SynSent),
        '3' => Some(TcpState::SynRecv),
        '4' => Some(TcpState::FinWait1),
        '5' => Some(TcpState::FinWait2),
        '6' => Some(TcpState::TimeWait),
        '7' => Some(TcpState::Close),
        '8' => Some(TcpState::CloseWait),
        '9' => Some(TcpState::LastAck),
        'A' => Some(TcpState::Listen),
        'B' => Some(TcpState::Closing),
        _ => None,
    }
}

/// Field `i` of a row, if it has one.
fn field(f: &Vec<Vec<char>>, i: usize) -> (r: Option<&Vec<char>>)
    ensures
        match r {
            Some(x) => i < f@.len() && x@ == views(f@)[i as int],
            None => i >= f@.len(),
        },
{
    if i < f.len() {
        Some(&f[i])
    } else {
        None
    }
}

fn local_port(f: &Vec<Vec<char>>) -> (r: Option<u16>)
    ensures
        match r {
            Some(p) => spec_local_port(views(f@)) == Some(p as nat),
            None => spec_local_port(views(f@)) is None,
        },
{
    let addr = field(f, 1)?;
    let first = crate::text::find_from(addr.as_slice(), 0, ':');
    assert(addr@.skip(0) =~= addr@);
    if first == addr.len() {
        return None;
    }
    let second = crate::text::find_from(addr.as_slice(), first + 1, ':');
    let piece = crate::text::copy_range(addr.as_slice(), first + 1, second);
    assert(piece@ =~= before_first(addr@.skip(first + 1), ':'));
    crate::num::parse_hex_u16(piece.as_slice())
}

fn is_wildcard(f: &Vec<Vec<char>>) -> (b: bool)
    ensures
        b == spec_is_wildcard(views(f@)),
{
    match field(f, 1) {
        Some(addr) => {
            let end = crate::text::find_from(addr.as_slice(), 0, ':');
            assert(addr@.skip(0) =~= addr@);
            all_zero_range(addr.as_slice(), 0, end)
        },
        None => false,
    }
}

/// Every character of `v[start..end]` is `'0'`.
fn all_zero_range(v: &[char], start: usize, end: usize) -> (b: bool)
    requires
        start <= end <= v.len(),
    ensures
        b == all_zero(v@.subrange(start as int, end as int)),
{
    let mut i = start;
    while i < end
        invariant
            start <= i <= end <= v.len(),
            forall|j: int| start <= j < i ==> v@[j] == '0',
        decreases end - i,
    {
        if v[i] != '0' {
            assert(v@.subrange(start as int, end as int)[i - start] != '0');
            return false;
        }
        i = i + 1;
    }
    assert forall|j: int| 0 <= j < v@.subrange(start as int, end as int).len() implies v@.subrange(
        start as int,
        end as int,
    )[j] == '0' by {
        assert(v@.subrange(start as int, end as int)[j] == v@[start + j]);
    }
    true
}

fn row_state(f: &Vec<Vec<char>>) -> (r: Option<TcpState>)
    ensures
        r == spec_row_state(views(f@)),
{
    match field(f, 3) {
        Some(h) => tcp_state_from_hex(h.as_slice()),
        None => None,
    }
}

fn row_uid(f: &Vec<Vec<char>>) -> (r: Option<u32>)
    ensures
        match r {
            Some(u) => spec_row_uid(views(f@)) == Some(u as nat),
            None => spec_row_uid(views(f@)) is None,
        },
{
    match field(f, 7) {
        Some(s) => crate::num::parse_u32(s.as_slice()),
        None => None,
    }
}

fn socket_inode(f: &Vec<Vec<char>>) -> (r: Option<u64>)
    ensures
        match r {
            Some(i) => spec_socket_inode(views(f@)) == Some(i as nat),
            None => spec_socket_inode(views(f@)) is None,
        },
{
    match field(f, 9) {
        Some(s) => crate::num::parse_u64(s.as_slice()),
        None => None,
    }
}

/// `hex_ip_panics`, computed.
pub fn hex_ip_would_panic(v: &[char]) -> (b: bool)
    ensures
        b == hex_ip_panics(v@),
{
    let mut i: usize = 0;
    assert(v@.skip(0) =~= v@);
    while i < v.len()
        invariant
            i <= v.len(),
            hex_ip_panics(v@) == hex_ip_panics(v@.skip(i as int)),
        decreases v.len() - i,
    {
        let ghost rest = v@.skip(i as int);
        let c0 = v[i] as u32;
        if c0 >= 0x80 {
            return c0 >= 0x800;
        }
        if i + 1 == v.len() {
            return true;
        }
        if (v[i + 1] as u32) >= 0x80 {
            return true;
        }
        let pair = crate::text::copy_range(v, i, i + 2);
        assert(pair@ =~= rest.take(2));
        if crate::num::parse_hex_u8(pair.as_slice()).is_none() {
            return false;
        }
        assert(rest.skip(2) =~= v@.skip(i + 2));
        i = i + 2;
    }
    false
}

/// The hex pairs of `v` as bytes.
fn hex_pairs(v: &[char]) -> (r: Option<Vec<u8>>)
    ensures
        match r {
            Some(b) => hex_bytes(v@) == Some(b@),
            None => hex_bytes(v@) is None,
        },
{
    let mut out: Vec<u8> = Vec::new();
    let mut i: usize = 0;
    assert(v@.skip(0) =~= v@);
    while i < v.len()
        invariant
            i <= v.len(),
            hex_bytes(v@) == match hex_bytes(v@.skip(i as int)) {
                Some(r) => Some(out@ + r),
                None => None,
            },
        decreases v.len() - i,
    {
        let ghost rest = v@.skip(i as int);
        if i + 1 >= v.len() {
            return None;
        }
        let pair = crate::text::copy_range(v, i, i + 2);
        assert(pair@ =~= rest.take(2));
        match crate::num::parse_hex_u8(pair.as_slice()) {
            Some(b) => {
                assert(rest.skip(2) =~= v@.skip(i + 2));
                let ghost before = out@;
                out.push(b);
                proof {
                    match hex_bytes(v@.skip(i + 2)) {
                        Some(r) => {
                            assert(before + (seq![b] + r) =~= out@ + r);
                        },
                        None => {},
                    }
                }
                i = i + 2;
            },
            None => {
                return None;
            },
        }
    }
    assert(hex_bytes(v@.skip(i as int)) == Some(Seq::<u8>::empty()));
    assert(out@ + Seq::<u8>::empty() =~= out@);
    Some(out)
}

fn decode_hex_ip(v: &[char]) -> (r: Option<String>)
    requires
        !hex_ip_panics(v@),
    ensures
        opt_view(r) == spec_decode_hex_ip(v@),
{
    let bytes = hex_pairs(v)?;
    if bytes.len() == 4 {
        let mut s = String::new();
        crate::num::push_decimal(&mut s, bytes[3] as u64);
        crate::text::push_char(&mut s, '.');
        crate::num::push_decimal(&mut s, bytes[2] as u64);
        crate::text::push_char(&mut s, '.');
        crate::num::push_decimal(&mut s, bytes[1] as u64);
        crate::text::push_char(&mut s, '.');
        crate::num::push_decimal(&mut s, bytes[0] as u64);
        assert(s@ =~= ip_text(bytes@).unwrap());
        Some(s)
    } else if bytes.len() == 16 {
        let ghost groups = Seq::new(8, |g: int| v6_group(bytes@, g));
        let mut s = String::new();
        let mut g: usize = 0;
        while g < 8
            invariant
                g <= 8,
                bytes@.len() == 16,
                groups == Seq::new(8, |g: int| v6_group(bytes@, g)),
                g > 0 ==> s@ == join(groups.take(g as int), seq![':']),
                g == 0 ==> s@ == Seq::<char>::empty(),
            decreases 8 - g,
        {
            let ghost before = s@;
            if g > 0 {
                crate::text::push_char(&mut s, ':');
            }
            let k = 2 * g;
            crate::num::push_hex2(&mut s, bytes[(k / 4) * 4 + 3 - k % 4]);
            let k = 2 * g + 1;
            crate::num::push_hex2(&mut s, bytes[(k / 4) * 4 + 3 - k % 4]);
            proof {
                let t = groups.take(g + 1);
                assert(t.drop_last() =~= groups.take(g as int));
                assert(t.last() == v6_group(bytes@, g as int));
                if g == 0 {
                    assert(join(t, seq![':']) == t[0]);
                    assert(s@ =~= v6_group(bytes@, 0));
                } else {
                    assert(s@ =~= before + seq![':'] + v6_group(bytes@, g as int));
                }
            }
            g = g + 1;
        }
        assert(groups.take(8) =~= groups);
        Some(s)
    } else {
        None
    }
}

fn remote_addr(f: &Vec<Vec<char>>) -> (r: Option<String>)
    requires
        remote_addr_safe(views(f@)),
    ensures
        opt_view(r) == spec_remote_addr(views(f@)),
{
    let addr = field(f, 2)?;
    let colon = crate::text::find_from(addr.as_slice(), 0, ':');
    assert(addr@.skip(0) =~= addr@);
    if colon == addr.len() {
        return None;
    }
    let ip = crate::text::copy_range(addr.as_slice(), 0, colon);
    let port_hex = crate::text::copy_range(addr.as_slice(), colon + 1, addr.len());
    assert(ip@ =~= addr@.take(colon as int));
    assert(port_hex@ =~= addr@.skip(colon + 1));
    if all_zero_range(ip.as_slice(), 0, ip.len()) {
        assert(ip@.subrange(0, ip@.len() as int) =~= ip@);
        return None;
    }
    assert(ip@.subrange(0, ip@.len() as int) =~= ip@);
    let port = crate::num::parse_hex_u16(port_hex.as_slice())?;
    let text = decode_hex_ip(ip.as_slice())?;
    let mut s = text;
    crate::text::push_char(&mut s, ':');
    crate::num::push_decimal(&mut s, port as u64);
    Some(s)
}

/// A status with the owning process recorded, when the inode names one.
fn set_process(st: &mut PortStatus, f: &Vec<Vec<char>>, inodes: &InodeMap)
    ensures
        final(st)@ == with_process(old(st)@, views(f@), inodes@),
{
    proof {
        broadcast use vstd::std_specs::hash::group_hash_axioms;
    }
    if let Some(inode) = socket_inode(f) {
        if let Some(entry) = inodes.get(&inode) {
            st.process = Some(entry.0.clone());
            st.pid = Some(entry.1);
        }
    }
}

fn set_uid(st: &mut PortStatus, f: &Vec<Vec<char>>)
    ensures
        final(st)@ == with_uid(old(st)@, views(f@)),
{
    if let Some(uid) = row_uid(f) {
        st.uid = Some(uid);
    }
}

/// Applies one TCP row.
fn scan_tcp_row(table: &mut PortTable, line: &Vec<char>, inodes: &InodeMap)
    requires
        old(table)@.len() == PORT_COUNT,
        tcp_row_safe(line@),
    ensures
        final(table)@.len() == PORT_COUNT,
        table_view(final(table)@) == tcp_row_step(table_view(old(table)@), line@, inodes@),
{
    let fields = crate::text::split_whitespace(line.as_slice());
    let port = match local_port(&fields) {
        Some(p) => p,
        None => return ,
    };
    let state = match row_state(&fields) {
        Some(s) => s,
        None => return ,
    };
    let p = port as usize;
    let mut status = table[p].clone();
    status.tcp_state = state;
    status.protocol = Protocol::Tcp;
    status.tcp_listen = state == TcpState::Listen;
    status.tcp_established = state == TcpState::Established;
    if state == TcpState::Listen && is_wildcard(&fields) {
        status.bind_global = true;
    }
    status.remote_addr = remote_addr(&fields);
    let remote = match &status.remote_addr {
        Some(r) => Some(r.as_str()),
        None => None,
    };
    status.direction = super::infer_tcp_direction(state, port, remote);
    set_process(&mut status, &fields, inodes);
    set_uid(&mut status, &fields);
    let ghost before = table@;
    super::set_status(table, p, status);
    assert(table_view(table@) =~= table_view(before).update(p as int, status@));
}

/// Applies one UDP row.
fn scan_udp_row(table: &mut PortTable, line: &Vec<char>, inodes: &InodeMap)
    requires
        old(table)@.len() == PORT_COUNT,
    ensures
        final(table)@.len() == PORT_COUNT,
        table_view(final(table)@) == udp_row_step(table_view(old(table)@), line@, inodes@),
{
    let fields = crate::text::split_whitespace(line.as_slice());
    let port = match local_port(&fields) {
        Some(p) => p,
        None => return ,
    };
    let p = port as usize;
    let mut status = table[p].clone();
    status.udp_active = true;
    status.protocol = Protocol::Udp;
    status.direction = Direction::Unknown;
    if is_wildcard(&fields) {
        status.bind_global = true;
    }
    set_process(&mut status, &fields, inodes);
    set_uid(&mut status, &fields);
    let ghost before = table@;
    super::set_status(table, p, status);
    assert(table_view(table@) =~= table_view(before).update(p as int, status@));
}

/// Applies every data row of a TCP table's text.
pub fn scan_tcp(contents: &Option<String>, table: &mut PortTable, inodes: &InodeMap)
    requires
        old(table)@.len() == PORT_COUNT,
        contents matches Some(c) ==> tcp_contents_safe(c@),
    ensures
        final(table)@.len() == PORT_COUNT,
        table_view(final(table)@) == tcp_table_effect(
            table_view(old(table)@),
            opt_view(*contents),
            inodes@,
        ),
{
    let text = match contents {
        Some(c) => c,
        None => return ,
    };
    let chars = crate::text::to_chars(text.as_str());
    let all = crate::text::split_lines(chars.as_slice());
    let ghost rows = skip_first(lines(text@));
    let ghost start = table_view(table@);
    let mut i: usize = if all.len() > 0 {
        1
    } else {
        0
    };
    assert(rows =~= views(all@).skip(i as int));
    while i < all.len()
        invariant
            1 <= i <= all.len() || (i == 0 && all.len() == 0),
            table@.len() == PORT_COUNT,
            rows =~= views(all@).skip(if all.len() > 0 { 1 } else { 0 }),
            tcp_contents_safe(text@),
            rows == skip_first(lines(text@)),
            tcp_rows(start, rows, inodes@) == tcp_rows(table_view(table@), views(all@).skip(i as int), inodes@),
        decreases all.len() - i,
    {
        assert(rows[i - 1] == all@[i as int]@);
        assert(tcp_row_safe(rows[i - 1]));
        scan_tcp_row(table, &all[i], inodes);
        assert(views(all@).skip(i as int).drop_first() =~= views(all@).skip(i + 1));
        i = i + 1;
    }
    assert(views(all@).skip(i as int) =~= Seq::<Seq<char>>::empty());
}

/// Applies every data row of a UDP table's text.
pub fn scan_udp(contents: &Option<String>, table: &mut PortTable, inodes: &InodeMap)
    requires
        old(table)@.len() == PORT_COUNT,
    ensures
        final(table)@.len() == PORT_COUNT,
        table_view(final(table)@) == udp_table_effect(
            table_view(old(table)@),
            opt_view(*contents),
            inodes@,
        ),
{
    let text = match contents {
        Some(c) => c,
        None => return ,
    };
    let chars = crate::text::to_chars(text.as_str());
    let all = crate::text::split_lines(chars.as_slice());
    let ghost rows = skip_first(lines(text@));
    let ghost start = table_view(table@);
    let mut i: usize = if all.len() > 0 {
        1
    } else {
        0
    };
    assert(rows =~= views(all@).skip(i as int));
    while i < all.len()
        invariant
            1 <= i <= all.len() || (i == 0 && all.len() == 0),
            table@.len() == PORT_COUNT,
            rows == skip_first(lines(text@)),
            udp_rows(start, rows, inodes@) == udp_rows(table_view(table@), views(all@).skip(i as int), inodes@),
        decreases all.len() - i,
    {
        scan_udp_row(table, &all[i], inodes);
        assert(views(all@).skip(i as int).drop_first() =~= views(all@).skip(i + 1));
        i = i + 1;
    }
    assert(views(all@).skip(i as int) =~= Seq::<Seq<char>>::empty());
}

/// Whether a TCP table's text holds a row whose remote address would panic
/// to read (see `hex_ip_panics`).
pub fn tcp_contents_would_panic(contents: &str) -> (b: bool)
    ensures
        b == !tcp_contents_safe(contents@),
{
    let chars = crate::text::to_chars(contents);
    let all = crate::text::split_lines(chars.as_slice());
    let ghost rows = skip_first(lines(contents@));
    let mut i: usize = 1;
    assert(all.len() > 0 ==> rows =~= views(all@).skip(1));
    while i < all.len()
        invariant
            1 <= i,
            rows == skip_first(lines(contents@)),
            all.len() > 0 ==> rows =~= views(all@).skip(1),
            forall|j: int| 0 <= j < i - 1 && j < rows.len() ==> tcp_row_safe(#[trigger] rows[j]),
        decreases all.len() - i,
    {
        assert(rows[i - 1] == all@[i as int]@);
        if !row_safe(&all[i]) {
            return true;
        }
        i = i + 1;
    }
    false
}

fn row_safe(line: &Vec<char>) -> (b: bool)
    ensures
        b == tcp_row_safe(line@),
{
    let f = crate::text::split_whitespace(line.as_slice());
    if local_port(&f).is_none() || row_state(&f).is_none() {
        return true;
    }
    let addr = match field(&f, 2) {
        Some(a) => a,
        None => return true,
    };
    let colon = crate::text::find_from(addr.as_slice(), 0, ':');
    assert(addr@.skip(0) =~= addr@);
    if colon == addr.len() {
        return true;
    }
    let ip = crate::text::copy_range(addr.as_slice(), 0, colon);
    let port_hex = crate::text::copy_range(addr.as_slice(), colon + 1, addr.len());
    assert(ip@ =~= addr@.take(colon as int));
    assert(port_hex@ =~= addr@.skip(colon + 1));
    assert(ip@.subrange(0, ip@.len() as int) =~= ip@);
    if all_zero_range(ip.as_slice(), 0, ip.len()) {
        return true;
    }
    if crate::num::parse_hex_u16(port_hex.as_slice()).is_none() {
        return true;
    }
    !hex_ip_would_panic(ip.as_slice())
}

/// Fills `table` from the four socket tables.
pub fn scan(table: &mut PortTable, net: &ProcNet, inodes: &InodeMap)
    requires
        old(table)@.len() == PORT_COUNT,
        proc_net_safe(*net),
    ensures
        final(table)@.len() == PORT_COUNT,
        table_view(final(table)@) == spec_scan(table_view(old(table)@), *net, inodes@),
{
    scan_tcp(&net.tcp, table, inodes);
    scan_tcp(&net.tcp6, table, inodes);
    scan_udp(&net.udp, table, inodes);
    scan_udp(&net.udp6, table, inodes);
}

/// The inode named by a `/proc/[pid]/fd/*` link target of the form
/// `socket:[inode]`.
pub open spec fn spec_socket_link_inode(link: Seq<char>) -> Option<nat> {
    if link.len() >= 8 && link.take(8) == "socket:["@ {
        let rest = link.skip(8);
        if rest.len() >= 1 && rest.last() == ']' {
            parse_unsigned(rest.drop_last(), 10, 0xFFFF_FFFF_FFFF_FFFF)
        } else {
            None
        }
    } else {
        None
    }
}

pub fn socket_link_inode(link: &str) -> (r: Option<u64>)
    ensures
        match r {
            Some(i) => spec_socket_link_inode(link@) == Some(i as nat),
            None => spec_socket_link_inode(link@) is None,
        },
{
    let v = crate::text::to_chars(link);
    if v.len() < 8 {
        return None;
    }
    let head = crate::text::copy_range(v.as_slice(), 0, 8);
    assert(head@ =~= v@.take(8));
    if !crate::text::eq_lit(head.as_slice(), "socket:[") {
        return None;
    }
    if v.len() < 9 || v[v.len() - 1] != ']' {
        assert(v@.skip(8).len() >= 1 ==> v@.skip(8).last() == v@[v@.len() - 1]);
        return None;
    }
    let digits = crate::text::copy_range(v.as_slice(), 8, v.len() - 1);
    assert(digits@ =~= v@.skip(8).drop_last());
    crate::num::parse_u64(digits.as_slice())
}

/// "name (pid)", the name being a process's `comm` without surrounding
/// whitespace, or "?" when it could not be read.
pub open spec fn spec_process_label(comm: Option<Seq<char>>, pid: u32) -> Seq<char> {
    let name = match comm {
        Some(c) => crate::text::trim(c),
        None => "?"@,
    };
    name + " ("@ + decimal(pid as nat) + ")"@
}

pub fn process_label(comm: Option<&str>, pid: u32) -> (s: String)
    ensures
        s@ == spec_process_label(super::opt_str_view(comm), pid),
{
    let mut s = match comm {
        Some(c) => {
            let v = crate::text::to_chars(c);
            let t = crate::text::trim_chars(v.as_slice());
            crate::text::from_chars(t.as_slice())
        },
        None => String::from_str("?"),
    };
    crate::text::push_str(&mut s, " (");
    crate::num::push_decimal(&mut s, pid as u64);
    crate::text::push_str(&mut s, ")");
    s
}

/// The kernel's state numbers (`TCP_ESTABLISHED` = 1 through
/// `TCP_CLOSING` = 11, written as two upper-case hex digits) read as the
/// states of the same names, and no other code reads as a state.
pub proof fn lemma_kernel_state_codes(h: Seq<char>)
    ensures
        spec_tcp_state_from_hex(seq!['0', '1']) == Some(TcpState::Established),
        spec_tcp_state_from_hex(seq!['0', '2']) == Some(TcpState::SynSent),
        spec_tcp_state_from_hex(seq!['0', '3']) == Some(TcpState::SynRecv),
        spec_tcp_state_from_hex(seq!['0', '4']) == Some(TcpState::FinWait1),
        spec_tcp_state_from_hex(seq!['0', '5']) == Some(TcpState::FinWait2),
        spec_tcp_state_from_hex(seq!['0', '6']) == Some(TcpState::TimeWait),
        spec_tcp_state_from_hex(seq!['0', '7']) == Some(TcpState::Close),
        spec_tcp_state_from_hex(seq!['0', '8']) == Some(TcpState::CloseWait),
        spec_tcp_state_from_hex(seq!['0', '9']) == Some(TcpState::LastAck),
        spec_tcp_state_from_hex(seq!['0', 'A']) == Some(TcpState::Listen),
        spec_tcp_state_from_hex(seq!['0', 'B']) == Some(TcpState::Closing),
        spec_tcp_state_from_hex(h) is Some ==> h.len() == 2 && h[0] == '0' && (('1' <= h[1]
            && h[1] <= '9') || h[1] == 'A' || h[1] == 'B'),
{
}

/// Two hex digits in front of more text read as their byte, followed by the
/// bytes of the rest.
proof fn lemma_hex_bytes_cons(x: u8, rest: Seq<char>)
    ensures
        hex_bytes(hex2(x) + rest) == match hex_bytes(rest) {
            Some(r) => Some(seq![x] + r),
            None => None::<Seq<u8>>,
        },
{
    let s = hex2(x) + rest;
    assert(s.take(2) =~= hex2(x));
    assert(s.skip(2) =~= rest);
    crate::num::lemma_parse_hex2(x);
}

/// The kernel writes an IPv4 address as one little-endian 32-bit word in
/// hex, so `a.b.c.d` appears as the pairs `d c b a`; decoding reads it back
/// as the dotted address `a.b.c.d`.
pub proof fn lemma_decode_ipv4(a: u8, b: u8, c: u8, d: u8)
    ensures
        spec_decode_hex_ip(hex2(d) + hex2(c) + hex2(b) + hex2(a)) == Some(
            decimal(a as nat) + seq!['.'] + decimal(b as nat) + seq!['.'] + decimal(c as nat)
                + seq!['.'] + decimal(d as nat),
        ),
{
    let e = Seq::<char>::empty();
    assert(hex_bytes(e) == Some(Seq::<u8>::empty()));
    lemma_hex_bytes_cons(a, e);
    assert(hex2(a) + e =~= hex2(a));
    lemma_hex_bytes_cons(b, hex2(a));
    lemma_hex_bytes_cons(c, hex2(b) + hex2(a));
    lemma_hex_bytes_cons(d, hex2(c) + hex2(b) + hex2(a));
    assert(hex2(d) + hex2(c) + hex2(b) + hex2(a) =~= hex2(d) + (hex2(c) + hex2(b) + hex2(a)));
    assert(hex2(c) + hex2(b) + hex2(a) =~= hex2(c) + (hex2(b) + hex2(a)));
    assert(seq![d] + (seq![c] + (seq![b] + (seq![a] + Seq::<u8>::empty()))) =~= seq![d, c, b, a]);
}

/// Bytes written as consecutive pairs of hex digits.
pub open spec fn hex_text(bs: Seq<u8>) -> Seq<char>
    decreases bs.len(),
{
    if bs.len() == 0 {
        Seq::empty()
    } else {
        hex2(bs[0]) + hex_text(bs.drop_first())
    }
}

/// Hex pairs read back as the bytes they were written from.
pub proof fn lemma_hex_text_read_back(bs: Seq<u8>)
    ensures
        hex_bytes(hex_text(bs)) == Some(bs),
    decreases bs.len(),
{
    if bs.len() == 0 {
        assert(hex_text(bs) =~= Seq::<char>::empty());
    } else {
        lemma_hex_text_read_back(bs.drop_first());
        lemma_hex_bytes_cons(bs[0], hex_text(bs.drop_first()));
        assert(seq![bs[0]] + bs.drop_first() =~= bs);
    }
}

/// The kernel's layout of a 16-byte IPv6 address given in network order:
/// four 32-bit words, each stored least significant byte first.
pub open spec fn kernel_v6_order(b: Seq<u8>) -> Seq<u8> {
    b.subrange(0, 4).reverse() + b.subrange(4, 8).reverse() + b.subrange(8, 12).reverse()
        + b.subrange(12, 16).reverse()
}

/// An IPv6 address as the kernel writes it decodes to its eight groups of
/// four hex digits, in network order, separated by colons.
pub proof fn lemma_decode_ipv6(b: Seq<u8>)
    requires
        b.len() == 16,
    ensures
        spec_decode_hex_ip(hex_text(kernel_v6_order(b))) == Some(
            join(Seq::new(8, |g: int| hex2(b[2 * g]) + hex2(b[2 * g + 1])), seq![':']),
        ),
{
    let w = kernel_v6_order(b);
    lemma_hex_text_read_back(w);
    assert(w.len() == 16);
    assert forall|k: int| 0 <= k < 16 implies #[trigger] v6_byte(w, k) == b[k] by {
        assert(0 <= (k / 4) * 4 + 3 - k % 4 < 16);
    }
    assert(Seq::new(8, |g: int| v6_group(w, g)) =~= Seq::new(
        8,
        |g: int| hex2(b[2 * g]) + hex2(b[2 * g + 1]),
    )) by {
        assert forall|g: int| 0 <= g < 8 implies v6_group(w, g) == hex2(b[2 * g]) + hex2(
            b[2 * g + 1],
        ) by {
            assert(v6_byte(w, 2 * g) == b[2 * g]);
            assert(v6_byte(w, 2 * g + 1) == b[2 * g + 1]);
        }
    }
}

/// Only a LISTEN row on the wildcard address, or a UDP row on it, marks a
/// port as bound wide open: a connected socket's row never does, and no
/// row clears the mark.
pub proof fn lemma_bind_scope(
    st: PortView,
    f: Seq<Seq<char>>,
    state: TcpState,
    port: nat,
    inodes: Map<u64, (String, u32)>,
)
    ensures
        tcp_row_effect(st, f, state, port, inodes).bind_global == (st.bind_global || (state
            == TcpState::Listen && spec_is_wildcard(f))),
        udp_row_effect(st, f, inodes).bind_global == (st.bind_global || spec_is_wildcard(f)),
{
}

/// The port a TCP row updates: its local port, when the row also has a
/// known state.
pub open spec fn tcp_row_port(line: Seq<char>) -> Option<nat> {
    let f = tokens(line);
    match (spec_local_port(f), spec_row_state(f)) {
        (Some(p), Some(_)) => Some(p),
        _ => None,
    }
}

/// The port a UDP row updates: its local port.
pub open spec fn udp_row_port(line: Seq<char>) -> Option<nat> {
    spec_local_port(tokens(line))
}

/// Some row updates port `p`.
pub open spec fn rows_name(rows: Seq<Seq<char>>, p: nat, tcp: bool) -> bool {
    exists|i: int|
        0 <= i < rows.len() && (if tcp {
            tcp_row_port(#[trigger] rows[i])
        } else {
            udp_row_port(rows[i])
        }) == Some(p)
}

/// Some data row of a table's text updates port `p`.
pub open spec fn text_names(c: Option<Seq<char>>, p: nat, tcp: bool) -> bool {
    match c {
        Some(c) => rows_name(skip_first(lines(c)), p, tcp),
        None => false,
    }
}

/// Some data row of the four socket tables updates port `p`.
pub open spec fn scan_names(net: ProcNet, p: nat) -> bool {
    ||| text_names(opt_view(net.tcp), p, true)
    ||| text_names(opt_view(net.tcp6), p, true)
    ||| text_names(opt_view(net.udp), p, false)
    ||| text_names(opt_view(net.udp6), p, false)
}

/// " (N)", the end of a process label for pid N.
pub open spec fn pid_suffix(pid: u32) -> Seq<char> {
    " ("@ + decimal(pid as nat) + ")"@
}

/// Every process label of the inode map ends in its own pid.
pub open spec fn inodes_labelled(inodes: Map<u64, (String, u32)>) -> bool {
    forall|i: u64|
        inodes.dom().contains(i) ==> crate::text::ends_with(
            (#[trigger] inodes[i]).0@,
            pid_suffix(inodes[i].1),
        )
}

/// What a Linux scan keeps true of a port: a process exactly when a pid,
/// the process label ending in that pid, and no owner (owners are resolved
/// afterwards, from uids).
pub open spec fn linux_port_ok(s: PortView) -> bool {
    &&& (s.process is Some) == (s.pid is Some)
    &&& (s.pid matches Some(n) ==> crate::text::ends_with(s.process.unwrap(), pid_suffix(n)))
    &&& s.owner is None
}

/// A label built by `process_label` ends in its pid.
pub proof fn lemma_process_label_suffix(comm: Option<Seq<char>>, pid: u32)
    ensures
        crate::text::ends_with(spec_process_label(comm, pid), pid_suffix(pid)),
{
    let s = spec_process_label(comm, pid);
    let name = match comm {
        Some(c) => crate::text::trim(c),
        None => "?"@,
    };
    assert(s =~= name + pid_suffix(pid));
    assert(s.skip(s.len() - pid_suffix(pid).len()) =~= pid_suffix(pid));
}

/// A LISTEN row has no remote peer when its remote field holds the zero
/// address, as the kernel writes it for a socket that has no peer yet.
pub proof fn lemma_listen_row_has_no_peer(
    st: PortView,
    f: Seq<Seq<char>>,
    port: nat,
    inodes: Map<u64, (String, u32)>,
)
    requires
        f.len() > 2 ==> (split_once(f[2], ':') matches Some((ip, _)) ==> all_zero(ip)),
    ensures
        tcp_row_effect(st, f, TcpState::Listen, port, inodes).remote_addr is None,
{
}

proof fn lemma_rows_name_rest(rows: Seq<Seq<char>>, p: nat, tcp: bool)
    requires
        rows.len() > 0,
        !rows_name(rows, p, tcp),
    ensures
        !rows_name(rows.drop_first(), p, tcp),
        (if tcp {
            tcp_row_port(rows[0])
        } else {
            udp_row_port(rows[0])
        }) != Some(p),
{
    if rows_name(rows.drop_first(), p, tcp) {
        let i = choose|i: int|
            0 <= i < rows.drop_first().len() && (if tcp {
                tcp_row_port(#[trigger] rows.drop_first()[i])
            } else {
                udp_row_port(rows.drop_first()[i])
            }) == Some(p);
        assert(rows.drop_first()[i] == rows[i + 1]);
        assert(tcp ==> tcp_row_port(rows[i + 1]) == Some(p));
    }
    assert(tcp ==> tcp_row_port(rows[0]) != Some(p));
}

proof fn lemma_tcp_rows_linux(t: Seq<PortView>, rows: Seq<Seq<char>>, inodes: Map<u64, (String, u32)>)
    requires
        t.len() == PORT_COUNT,
        inodes_labelled(inodes),
        forall|p: int| 0 <= p < PORT_COUNT ==> linux_port_ok(#[trigger] t[p]),
    ensures
        tcp_rows(t, rows, inodes).len() == PORT_COUNT,
        forall|p: int| 0 <= p < PORT_COUNT ==> linux_port_ok(#[trigger] tcp_rows(t, rows, inodes)[p]),
        forall|p: int|
            0 <= p < PORT_COUNT && !rows_name(rows, p as nat, true) ==> #[trigger] tcp_rows(
                t,
                rows,
                inodes,
            )[p] == t[p],
    decreases rows.len(),
{
    if rows.len() > 0 {
        let next = tcp_row_step(t, rows[0], inodes);
        let f = tokens(rows[0]);
        assert forall|q: int| 0 <= q < PORT_COUNT implies linux_port_ok(#[trigger] next[q]) by {
            match (spec_local_port(f), spec_row_state(f)) {
                (Some(p), Some(st)) => {
                    if q != p as int {
                        assert(next[q] == t[q]);
                    } else {
                        match spec_socket_inode(f) {
                            Some(i) => if inodes.dom().contains(i as u64) {
                                assert(crate::text::ends_with(
                                    inodes[i as u64].0@,
                                    pid_suffix(inodes[i as u64].1),
                                ));
                            },
                            None => {},
                        }
                    }
                },
                _ => {},
            }
        }
        lemma_tcp_rows_linux(next, rows.drop_first(), inodes);
        assert forall|p: int|
            0 <= p < PORT_COUNT && !rows_name(rows, p as nat, true) implies #[trigger] tcp_rows(
            t,
            rows,
            inodes,
        )[p] == t[p] by {
            lemma_rows_name_rest(rows, p as nat, true);
            assert(next[p] == t[p]);
        }
    }
}

proof fn lemma_udp_rows_linux(t: Seq<PortView>, rows: Seq<Seq<char>>, inodes: Map<u64, (String, u32)>)
    requires
        t.len() == PORT_COUNT,
        inodes_labelled(inodes),
        forall|p: int| 0 <= p < PORT_COUNT ==> linux_port_ok(#[trigger] t[p]),
    ensures
        udp_rows(t, rows, inodes).len() == PORT_COUNT,
        forall|p: int| 0 <= p < PORT_COUNT ==> linux_port_ok(#[trigger] udp_rows(t, rows, inodes)[p]),
        forall|p: int|
            0 <= p < PORT_COUNT && !rows_name(rows, p as nat, false) ==> #[trigger] udp_rows(
                t,
                rows,
                inodes,
            )[p] == t[p],
    decreases rows.len(),
{
    if rows.len() > 0 {
        let next = udp_row_step(t, rows[0], inodes);
        let f = tokens(rows[0]);
        assert forall|q: int| 0 <= q < PORT_COUNT implies linux_port_ok(#[trigger] next[q]) by {
            match spec_local_port(f) {
                Some(p) => {
                    if q != p as int {
                        assert(next[q] == t[q]);
                    } else {
                        match spec_socket_inode(f) {
                            Some(i) => if inodes.dom().contains(i as u64) {
                                assert(crate::text::ends_with(
                                    inodes[i as u64].0@,
                                    pid_suffix(inodes[i as u64].1),
                                ));
                            },
                            None => {},
                        }
                    }
                },
                None => {},
            }
        }
        lemma_udp_rows_linux(next, rows.drop_first(), inodes);
        assert forall|p: int|
            0 <= p < PORT_COUNT && !rows_name(rows, p as nat, false) implies #[trigger] udp_rows(
            t,
            rows,
            inodes,
        )[p] == t[p] by {
            lemma_rows_name_rest(rows, p as nat, false);
            assert(next[p] == t[p]);
        }
    }
}

/// After a Linux scan whose inode map labels each process with its own pid
/// (as `process_label` does): every port has a process exactly when it has
/// a pid, the process label ends in " (pid)", no owner is set yet, and a
/// port that no data row names stays closed.
pub proof fn lemma_linux_scan(net: ProcNet, inodes: Map<u64, (String, u32)>)
    requires
        inodes_labelled(inodes),
    ensures
        spec_scan(super::closed_table(), net, inodes).len() == PORT_COUNT,
        forall|p: int|
            0 <= p < PORT_COUNT ==> linux_port_ok(#[trigger] spec_scan(super::closed_table(), net, inodes)[p]),
        forall|p: int|
            0 <= p < PORT_COUNT && !scan_names(net, p as nat) ==> #[trigger] spec_scan(
                super::closed_table(),
                net,
                inodes,
            )[p] == super::closed_port(),
{
    let t0 = super::closed_table();
    let t1 = tcp_table_effect(t0, opt_view(net.tcp), inodes);
    let t2 = tcp_table_effect(t1, opt_view(net.tcp6), inodes);
    let t3 = udp_table_effect(t2, opt_view(net.udp), inodes);
    let t4 = udp_table_effect(t3, opt_view(net.udp6), inodes);
    if let Some(c) = opt_view(net.tcp) {
        lemma_tcp_rows_linux(t0, skip_first(lines(c)), inodes);
    }
    if let Some(c) = opt_view(net.tcp6) {
        lemma_tcp_rows_linux(t1, skip_first(lines(c)), inodes);
    }
    if let Some(c) = opt_view(net.udp) {
        lemma_udp_rows_linux(t2, skip_first(lines(c)), inodes);
    }
    if let Some(c) = opt_view(net.udp6) {
        lemma_udp_rows_linux(t3, skip_first(lines(c)), inodes);
    }
    assert forall|p: int| 0 <= p < PORT_COUNT && !scan_names(net, p as nat) implies #[trigger] t4[p]
        == super::closed_port() by {
        assert(t0[p] == super::closed_port());
        assert(t1[p] == t0[p]);
        assert(t2[p] == t1[p]);
        assert(t3[p] == t2[p]);
    }
}

} // verus!

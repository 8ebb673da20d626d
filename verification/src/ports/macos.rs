//! Reading `lsof -nP -iTCP -iUDP` output.
//!
//! Columns: COMMAND PID USER FD TYPE DEVICE SIZE/OFF NODE NAME. NODE holds
//! the protocol; NAME may itself hold spaces, as in
//! "127.0.0.1:54321->93.184.216.34:443 (ESTABLISHED)".
use vstd::prelude::*;

use super::{table_view, Direction, PortTable, PortView, Protocol, TcpState, PORT_COUNT};
use crate::num::parse_unsigned;
use crate::text::{
    after_last, arrow_pos, first_token, join, lines, skip_first, suffix_len, tokens, trim_end,
    views,
};

verus! {

/// The local half of NAME: the first token before any `"->"`.
pub open spec fn spec_local_addr(name: Seq<char>) -> Option<Seq<char>> {
    first_token(name.take(arrow_pos(name) as int))
}

/// The local port: the number after the last `':'` of the local address.
pub open spec fn spec_local_port(name: Seq<char>) -> Option<nat> {
    match spec_local_addr(name) {
        Some(a) => parse_unsigned(after_last(a, ':'), 10, 0xFFFF),
        None => None,
    }
}

/// lsof prints the wildcard bind as a leading `*`.
pub open spec fn spec_is_wildcard_local(name: Seq<char>) -> bool {
    match spec_local_addr(name) {
        Some(a) => a.len() > 0 && a[0] == '*',
        None => false,
    }
}

/// The remote half of "local->remote (STATE)", without the state.
pub open spec fn spec_remote_addr(name: Seq<char>) -> Option<Seq<char>> {
    if arrow_pos(name) < name.len() {
        first_token(name.skip(arrow_pos(name) + 2int))
    } else {
        None
    }
}

/// The state named by a parenthesized token.
pub open spec fn state_of_token(t: Seq<char>) -> TcpState {
    if t == "LISTEN"@ {
        TcpState::Listen
    } else if t == "ESTABLISHED"@ {
        TcpState::Established
    } else if t == "SYN_SENT"@ {
        TcpState::SynSent
    } else if t == "SYN_RCVD"@ {
        TcpState::SynRecv
    } else if t == "FIN_WAIT_1"@ {
        TcpState::FinWait1
    } else if t == "FIN_WAIT_2"@ {
        TcpState::FinWait2
    } else if t == "TIME_WAIT"@ {
        TcpState::TimeWait
    } else if t == "CLOSED"@ {
        TcpState::Close
    } else if t == "CLOSE_WAIT"@ {
        TcpState::CloseWait
    } else if t == "LAST_ACK"@ {
        TcpState::LastAck
    } else if t == "CLOSING"@ {
        TcpState::Closing
    } else {
        TcpState::Unset
    }
}

/// The TCP state written after the last `'('` of NAME, with trailing `')'`
/// removed; `Unset` when there is none or it is not a known state.
pub open spec fn spec_tcp_state(name: Seq<char>) -> TcpState {
    if suffix_len(name, '(') == name.len() {
        TcpState::Unset
    } else {
        state_of_token(trim_end(after_last(name, '('), ')'))
    }
}

/// A NAME ending in `" (T)"` carries the state token `T`, whatever comes
/// before it.
proof fn lemma_state_token(x: Seq<char>, tok: Seq<char>)
    requires
        tok.len() > 0,
        tok.last() != ')',
        forall|i: int| 0 <= i < tok.len() ==> tok[i] != '(',
    ensures
        spec_tcp_state(x + seq![' ', '('] + tok + seq![')']) == state_of_token(tok),
{
    let d = tok.push(')');
    let name = x + seq![' ', '('] + tok + seq![')'];
    assert(name =~= x.push(' ').push('(') + d);
    crate::text::lemma_after_last_tail(x.push(' '), '(', d);
    assert(d.drop_last() =~= tok);
    assert(crate::text::trailing_run(tok, ')') == 0);
    assert(crate::text::trailing_run(d, ')') == 1);
    assert(trim_end(d, ')') =~= tok);
}

/// Each of the states lsof writes at the end of a TCP socket's NAME reads as
/// the state of that name.
pub proof fn lemma_lsof_state_tokens(x: Seq<char>)
    ensures
        spec_tcp_state(x + " (LISTEN)"@) == TcpState::Listen,
        spec_tcp_state(x + " (ESTABLISHED)"@) == TcpState::Established,
        spec_tcp_state(x + " (SYN_SENT)"@) == TcpState::SynSent,
        spec_tcp_state(x + " (SYN_RCVD)"@) == TcpState::SynRecv,
        spec_tcp_state(x + " (FIN_WAIT_1)"@) == TcpState::FinWait1,
        spec_tcp_state(x + " (FIN_WAIT_2)"@) == TcpState::FinWait2,
        spec_tcp_state(x + " (TIME_WAIT)"@) == TcpState::TimeWait,
        spec_tcp_state(x + " (CLOSED)"@) == TcpState::Close,
        spec_tcp_state(x + " (CLOSE_WAIT)"@) == TcpState::CloseWait,
        spec_tcp_state(x + " (LAST_ACK)"@) == TcpState::LastAck,
        spec_tcp_state(x + " (CLOSING)"@) == TcpState::Closing,
{
    reveal_strlit("LISTEN");
    reveal_strlit("ESTABLISHED");
    reveal_strlit("SYN_SENT");
    reveal_strlit("SYN_RCVD");
    reveal_strlit("FIN_WAIT_1");
    reveal_strlit("FIN_WAIT_2");
    reveal_strlit("TIME_WAIT");
    reveal_strlit("CLOSED");
    reveal_strlit("CLOSE_WAIT");
    reveal_strlit("LAST_ACK");
    reveal_strlit("CLOSING");
    // Tokens of equal length differ at these positions.
    assert("SYN_RCVD"@[4] != "SYN_SENT"@[4]);
    assert("FIN_WAIT_2"@[9] != "FIN_WAIT_1"@[9]);
    assert("CLOSED"@[0] != "LISTEN"@[0]);
    assert("CLOSE_WAIT"@[0] != "FIN_WAIT_1"@[0]);
    assert("CLOSE_WAIT"@[0] != "FIN_WAIT_2"@[0]);
    assert("LAST_ACK"@[0] != "SYN_SENT"@[0]);
    assert("LAST_ACK"@[0] != "SYN_RCVD"@[0]);
    assert(spec_tcp_state(x + " (LISTEN)"@) == TcpState::Listen) by {
        reveal_strlit(" (LISTEN)");
        lemma_state_token(x, "LISTEN"@);
        assert(x + " (LISTEN)"@ =~= x + seq![' ', '('] + "LISTEN"@ + seq![')']);
    }
    assert(spec_tcp_state(x + " (ESTABLISHED)"@) == TcpState::Established) by {
        reveal_strlit(" (ESTABLISHED)");
        lemma_state_token(x, "ESTABLISHED"@);
        assert(x + " (ESTABLISHED)"@ =~= x + seq![' ', '('] + "ESTABLISHED"@ + seq![')']);
    }
    assert(spec_tcp_state(x + " (SYN_SENT)"@) == TcpState::SynSent) by {
        reveal_strlit(" (SYN_SENT)");
        lemma_state_token(x, "SYN_SENT"@);
        assert(x + " (SYN_SENT)"@ =~= x + seq![' ', '('] + "SYN_SENT"@ + seq![')']);
    }
    assert(spec_tcp_state(x + " (SYN_RCVD)"@) == TcpState::SynRecv) by {
        reveal_strlit(" (SYN_RCVD)");
        lemma_state_token(x, "SYN_RCVD"@);
        assert(x + " (SYN_RCVD)"@ =~= x + seq![' ', '('] + "SYN_RCVD"@ + seq![')']);
    }
    assert(spec_tcp_state(x + " (FIN_WAIT_1)"@) == TcpState::FinWait1) by {
        reveal_strlit(" (FIN_WAIT_1)");
        lemma_state_token(x, "FIN_WAIT_1"@);
        assert(x + " (FIN_WAIT_1)"@ =~= x + seq![' ', '('] + "FIN_WAIT_1"@ + seq![')']);
    }
    assert(spec_tcp_state(x + " (FIN_WAIT_2)"@) == TcpState::FinWait2) by {
        reveal_strlit(" (FIN_WAIT_2)");
        lemma_state_token(x, "FIN_WAIT_2"@);
        assert(x + " (FIN_WAIT_2)"@ =~= x + seq![' ', '('] + "FIN_WAIT_2"@ + seq![')']);
    }
    assert(spec_tcp_state(x + " (TIME_WAIT)"@) == TcpState::TimeWait) by {
        reveal_strlit(" (TIME_WAIT)");
        lemma_state_token(x, "TIME_WAIT"@);
        assert(x + " (TIME_WAIT)"@ =~= x + seq![' ', '('] + "TIME_WAIT"@ + seq![')']);
    }
    assert(spec_tcp_state(x + " (CLOSED)"@) == TcpState::Close) by {
        reveal_strlit(" (CLOSED)");
        lemma_state_token(x, "CLOSED"@);
        assert(x + " (CLOSED)"@ =~= x + seq![' ', '('] + "CLOSED"@ + seq![')']);
    }
    assert(spec_tcp_state(x + " (CLOSE_WAIT)"@) == TcpState::CloseWait) by {
        reveal_strlit(" (CLOSE_WAIT)");
        lemma_state_token(x, "CLOSE_WAIT"@);
        assert(x + " (CLOSE_WAIT)"@ =~= x + seq![' ', '('] + "CLOSE_WAIT"@ + seq![')']);
    }
    assert(spec_tcp_state(x + " (LAST_ACK)"@) == TcpState::LastAck) by {
        reveal_strlit(" (LAST_ACK)");
        lemma_state_token(x, "LAST_ACK"@);
        assert(x + " (LAST_ACK)"@ =~= x + seq![' ', '('] + "LAST_ACK"@ + seq![')']);
    }
    assert(spec_tcp_state(x + " (CLOSING)"@) == TcpState::Closing) by {
        reveal_strlit(" (CLOSING)");
        lemma_state_token(x, "CLOSING"@);
        assert(x + " (CLOSING)"@ =~= x + seq![' ', '('] + "CLOSING"@ + seq![')']);
    }
}

/// "command (pid)".
pub open spec fn process_text(command: Seq<char>, pid: Seq<char>) -> Seq<char> {
    command + " ("@ + pid + ")"@
}

/// What one lsof row does to the table.
pub open spec fn row_step(t: Seq<PortView>, line: Seq<char>) -> Seq<PortView> {
    let f = tokens(line);
    if f.len() < 9 {
        t
    } else {
        let name = join(f.skip(8), seq![' ']);
        match spec_local_port(name) {
            None => t,
            Some(p) => {
                let st = t[p as int];
                let proto = f[7];
                let known = proto == "TCP"@ || proto == "UDP"@;
                if !known {
                    t
                } else {
                    let s1 = if proto == "TCP"@ {
                        let state = spec_tcp_state(name);
                        PortView {
                            tcp_state: state,
                            protocol: Protocol::Tcp,
                            tcp_listen: state == TcpState::Listen,
                            tcp_established: state == TcpState::Established,
                            bind_global: if state == TcpState::Listen && spec_is_wildcard_local(
                                name,
                            ) {
                                true
                            } else {
                                st.bind_global
                            },
                            remote_addr: spec_remote_addr(name),
                            direction: super::spec_infer_tcp_direction(
                                state,
                                p as u16,
                                spec_remote_addr(name),
                            ),
                            ..st
                        }
                    } else {
                        PortView {
                            udp_active: true,
                            protocol: Protocol::Udp,
                            bind_global: if spec_is_wildcard_local(name) {
                                true
                            } else {
                                st.bind_global
                            },
                            direction: Direction::Unknown,
                            ..st
                        }
                    };
                    let s2 = PortView {
                        process: Some(process_text(f[0], f[1])),
                        pid: match parse_unsigned(f[1], 10, 0xFFFF_FFFF) {
                            Some(v) => Some(v as u32),
                            None => None,
                        },
                        owner: Some(f[2]),
                        ..s1
                    };
                    t.update(p as int, s2)
                }
            },
        }
    }
}

pub open spec fn rows_effect(t: Seq<PortView>, rows: Seq<Seq<char>>) -> Seq<PortView>
    decreases rows.len(),
{
    if rows.len() == 0 {
        t
    } else {
        rows_effect(row_step(t, rows[0]), rows.drop_first())
    }
}

/// The lsof output applied to the table: every row after the header. No
/// output changes nothing.
pub open spec fn spec_scan(t: Seq<PortView>, output: Option<Seq<char>>) -> Seq<PortView> {
    match output {
        Some(o) => rows_effect(t, skip_first(lines(o))),
        None => t,
    }
}

fn local_addr(name: &[char]) -> (r: Option<Vec<char>>)
    ensures
        match r {
            Some(a) => spec_local_addr(name@) == Some(a@),
            None => spec_local_addr(name@) is None,
        },
{
    let k = crate::text::arrow_index(name);
    proof {
        crate::text::lemma_arrow_pos(name@);
    }
    let head = crate::text::copy_range(name, 0, k);
    assert(head@ =~= name@.take(k as int));
    crate::text::first_token_of(head.as_slice())
}

fn local_port(name: &[char]) -> (r: Option<u16>)
    ensures
        match r {
            Some(p) => spec_local_port(name@) == Some(p as nat),
            None => spec_local_port(name@) is None,
        },
{
    let addr = local_addr(name)?;
    let start = crate::text::after_last_start(addr.as_slice(), ':');
    proof {
        crate::text::lemma_suffix_len(addr@, ':');
    }
    let tail = crate::text::copy_range(addr.as_slice(), start, addr.len());
    assert(tail@ =~= after_last(addr@, ':'));
    crate::num::parse_u16(tail.as_slice())
}

fn is_wildcard_local(name: &[char]) -> (b: bool)
    ensures
        b == spec_is_wildcard_local(name@),
{
    match local_addr(name) {
        Some(a) => a.len() > 0 && a[0] == '*',
        None => false,
    }
}

fn remote_addr(name: &[char]) -> (r: Option<String>)
    ensures
        match r {
            Some(s) => spec_remote_addr(name@) == Some(s@),
            None => spec_remote_addr(name@) is None,
        },
{
    let k = crate::text::arrow_index(name);
    proof {
        crate::text::lemma_arrow_pos(name@);
    }
    if k == name.len() {
        return None;
    }
    let rest = crate::text::copy_range(name, k + 2, name.len());
    assert(rest@ =~= name@.skip(k + 2));
    match crate::text::first_token_of(rest.as_slice()) {
        Some(t) => Some(crate::text::from_chars(t.as_slice())),
        None => None,
    }
}

fn tcp_state(name: &[char]) -> (s: TcpState)
    ensures
        s == spec_tcp_state(name@),
{
    let start = crate::text::after_last_start(name, '(');
    proof {
        crate::text::lemma_suffix_len(name@, '(');
    }
    if start == 0 {
        return TcpState::Unset;
    }
    let tail = crate::text::copy_range(name, start, name.len());
    assert(tail@ =~= after_last(name@, '('));
    let end = crate::text::trim_end_len(tail.as_slice(), ')');
    let tok = crate::text::copy_range(tail.as_slice(), 0, end);
    assert(tok@ =~= trim_end(tail@, ')'));
    let t = tok.as_slice();
    if crate::text::eq_lit(t, "LISTEN") {
        TcpState::Listen
    } else if crate::text::eq_lit(t, "ESTABLISHED") {
        TcpState::Established
    } else if crate::text::eq_lit(t, "SYN_SENT") {
        TcpState::SynSent
    } else if crate::text::eq_lit(t, "SYN_RCVD") {
        TcpState::SynRecv
    } else if crate::text::eq_lit(t, "FIN_WAIT_1") {
        TcpState::FinWait1
    } else if crate::text::eq_lit(t, "FIN_WAIT_2") {
        TcpState::FinWait2
    } else if crate::text::eq_lit(t, "TIME_WAIT") {
        TcpState::TimeWait
    } else if crate::text::eq_lit(t, "CLOSED") {
        TcpState::Close
    } else if crate::text::eq_lit(t, "CLOSE_WAIT") {
        TcpState::CloseWait
    } else if crate::text::eq_lit(t, "LAST_ACK") {
        TcpState::LastAck
    } else if crate::text::eq_lit(t, "CLOSING") {
        TcpState::Closing
    } else {
        TcpState::Unset
    }
}

/// "command (pid)" as a string.
fn process_string(command: &[char], pid: &[char]) -> (s: String)
    ensures
        s@ == process_text(command@, pid@),
{
    let mut s = crate::text::from_chars(command);
    crate::text::push_str(&mut s, " (");
    let p = crate::text::from_chars(pid);
    crate::text::push_str(&mut s, p.as_str());
    crate::text::push_str(&mut s, ")");
    s
}

/// Applies one lsof row.
fn scan_row(table: &mut PortTable, line: &Vec<char>)
    requires
        old(table)@.len() == PORT_COUNT,
    ensures
        final(table)@.len() == PORT_COUNT,
        table_view(final(table)@) == row_step(table_view(old(table)@), line@),
{
    let f = crate::text::split_whitespace(line.as_slice());
    if f.len() < 9 {
        return ;
    }
    let name = crate::text::join_from(&f, 8, ' ');
    let port = match local_port(name.as_slice()) {
        Some(p) => p,
        None => return ,
    };
    let p = port as usize;
    let mut status = table[p].clone();
    let proto = f[7].as_slice();
    if crate::text::eq_lit(proto, "TCP") {
        let state = tcp_state(name.as_slice());
        status.tcp_state = state;
        status.protocol = Protocol::Tcp;
        status.tcp_listen = state == TcpState::Listen;
        status.tcp_established = state == TcpState::Established;
        if state == TcpState::Listen && is_wildcard_local(name.as_slice()) {
            status.bind_global = true;
        }
        status.remote_addr = remote_addr(name.as_slice());
        let remote = match &status.remote_addr {
            Some(r) => Some(r.as_str()),
            None => None,
        };
        status.direction = super::infer_tcp_direction(state, port, remote);
    } else if crate::text::eq_lit(proto, "UDP") {
        status.udp_active = true;
        status.protocol = Protocol::Udp;
        status.direction = Direction::Unknown;
        if is_wildcard_local(name.as_slice()) {
            status.bind_global = true;
        }
    } else {
        return ;
    }
    status.process = Some(process_string(f[0].as_slice(), f[1].as_slice()));
    status.pid = crate::num::parse_u32(f[1].as_slice());
    status.owner = Some(crate::text::from_chars(f[2].as_slice()));
    let ghost before = table@;
    super::set_status(table, p, status);
    assert(table_view(table@) =~= table_view(before).update(p as int, status@));
}

/// Fills `table` from lsof's output; `None` (lsof could not be run or its
/// output was not text) leaves it as it is.
pub fn scan(table: &mut PortTable, output: &Option<String>)
    requires
        old(table)@.len() == PORT_COUNT,
    ensures
        final(table)@.len() == PORT_COUNT,
        table_view(final(table)@) == spec_scan(table_view(old(table)@), super::opt_string_view(
            *output,
        )),
{
    let text = match output {
        Some(c) => c,
        None => return ,
    };
    let chars = crate::text::to_chars(text.as_str());
    let all = crate::text::split_lines(chars.as_slice());
    let ghost rows = skip_first(lines(text@));
    let ghost start = table_view(table@);
    let mut i: usize = if all.len() > 0 {
        1
    } else {
        0
    };
    assert(rows =~= views(all@).skip(i as int));
    while i < all.len()
        invariant
            1 <= i <= all.len() || (i == 0 && all.len() == 0),
            table@.len() == PORT_COUNT,
            rows == skip_first(lines(text@)),
            rows_effect(start, rows) == rows_effect(table_view(table@), views(all@).skip(i as int)),
        decreases all.len() - i,
    {
        scan_row(table, &all[i]);
        assert(views(all@).skip(i as int).drop_first() =~= views(all@).skip(i + 1));
        i = i + 1;
    }
    assert(views(all@).skip(i as int) =~= Seq::<Seq<char>>::empty());
}

/// Only a LISTEN or UDP row on `*` marks a port as bound wide open; no row
/// clears the mark, and rows of other protocols change nothing.
pub proof fn lemma_bind_scope(t: Seq<PortView>, line: Seq<char>)
    requires
        t.len() == PORT_COUNT,
    ensures
        forall|p: int|
            0 <= p < PORT_COUNT ==> {
                let after = (#[trigger] row_step(t, line)[p]).bind_global;
                &&& t[p].bind_global ==> after
                &&& after && !t[p].bind_global ==> {
                    let f = tokens(line);
                    let name = join(f.skip(8), seq![' ']);
                    &&& f.len() >= 9
                    &&& spec_local_port(name) == Some(p as nat)
                    &&& spec_is_wildcard_local(name)
                    &&& (f[7] == "UDP"@ || (f[7] == "TCP"@ && spec_tcp_state(name)
                        == TcpState::Listen))
                }
            },
{
    let f = tokens(line);
    assert forall|p: int| 0 <= p < PORT_COUNT implies {
        let after = (#[trigger] row_step(t, line)[p]).bind_global;
        &&& t[p].bind_global ==> after
        &&& after && !t[p].bind_global ==> {
            let name = join(f.skip(8), seq![' ']);
            &&& f.len() >= 9
            &&& spec_local_port(name) == Some(p as nat)
            &&& spec_is_wildcard_local(name)
            &&& (f[7] == "UDP"@ || (f[7] == "TCP"@ && spec_tcp_state(name) == TcpState::Listen))
        }
    } by {
        if f.len() >= 9 {
            let name = join(f.skip(8), seq![' ']);
            match spec_local_port(name) {
                Some(q) => {
                    if q as int != p {
                        assert(row_step(t, line)[p] == t[p]);
                    }
                },
                None => {},
            }
        }
    }
}

/// A TCP row whose NAME has no `"->"` (a LISTEN row, which has no peer
/// yet) leaves its port without a remote address.
pub proof fn lemma_listen_row_has_no_peer(t: Seq<PortView>, line: Seq<char>, p: nat)
    requires
        t.len() == PORT_COUNT,
        tokens(line).len() >= 9,
        tokens(line)[7] == "TCP"@,
        spec_local_port(join(tokens(line).skip(8), seq![' '])) == Some(p),
        arrow_pos(join(tokens(line).skip(8), seq![' '])) == join(tokens(line).skip(8), seq![' ']).len(),
    ensures
        row_step(t, line)[p as int].remote_addr is None,
{
    assert(p < PORT_COUNT);
}

} // verus!

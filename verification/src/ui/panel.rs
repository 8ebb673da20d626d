//! The always-visible table of active ports.
use vstd::prelude::*;

use super::color::{spec_status_color, spec_status_label_full, Color};
use super::populator::port_active;
use crate::num::decimal;
use crate::ports::{direction_label, PortStatus, Protocol, PORT_COUNT};

verus! {

/// One row of the panel: an active port and its status.
pub struct ActiveEntry {
    pub port: u16,
    pub status: PortStatus,
}

/// The active ports among the first `n`, ascending, as (port, status).
pub open spec fn active_upto(ports: Seq<PortStatus>, n: int) -> Seq<(u16, PortStatus)>
    decreases n,
{
    if n <= 0 {
        seq![]
    } else {
        let before = active_upto(ports, n - 1);
        if port_active(ports[n - 1]) {
            before.push(((n - 1) as u16, ports[n - 1]))
        } else {
            before
        }
    }
}

pub open spec fn entry_pairs(entries: Seq<ActiveEntry>) -> Seq<(u16, PortStatus)> {
    entries.map_values(|e: ActiveEntry| (e.port, e.status))
}

/// Every port in a non-closed state, in ascending port order.
pub fn active_entries(ports: &Vec<PortStatus>) -> (entries: Vec<ActiveEntry>)
    requires
        ports@.len() <= PORT_COUNT,
    ensures
        entry_pairs(entries@) == active_upto(ports@, ports@.len() as int),
{
    let mut entries: Vec<ActiveEntry> = Vec::new();
    let mut p: usize = 0;
    while p < ports.len()
        invariant
            p <= ports@.len() <= PORT_COUNT,
            entry_pairs(entries@) == active_upto(ports@, p as int),
        decreases ports.len() - p,
    {
        let s = &ports[p];
        if s.tcp_listen || s.tcp_established || s.udp_active {
            let ghost before = entries@;
            entries.push(ActiveEntry { port: p as u16, status: s.clone() });
            assert(entry_pairs(entries@) =~= entry_pairs(before).push((p as u16, ports@[p as int])));
        }
        p = p + 1;
    }
    entries
}

/// The panel lists exactly the active ports, each once, ascending, each
/// with its own status.
pub proof fn lemma_active_upto(ports: Seq<PortStatus>, n: int)
    requires
        0 <= n <= ports.len() <= PORT_COUNT,
    ensures
        forall|i: int, j: int|
            0 <= i < j < active_upto(ports, n).len() ==> active_upto(ports, n)[i].0
                < active_upto(ports, n)[j].0,
        forall|i: int|
            0 <= i < active_upto(ports, n).len() ==> {
                let e = #[trigger] active_upto(ports, n)[i];
                &&& e.0 < n
                &&& e.1 == ports[e.0 as int]
                &&& port_active(ports[e.0 as int])
            },
        forall|p: int|
            0 <= p < n && port_active(#[trigger] ports[p]) ==> exists|i: int|
                0 <= i < active_upto(ports, n).len() && active_upto(ports, n)[i].0 == p,
    decreases n,
{
    if n > 0 {
        lemma_active_upto(ports, n - 1);
        let before = active_upto(ports, n - 1);
        let cur = active_upto(ports, n);
        if port_active(ports[n - 1]) {
            assert(cur == before.push(((n - 1) as u16, ports[n - 1])));
            assert forall|p: int| 0 <= p < n && port_active(#[trigger] ports[p]) implies exists|i: int|
                0 <= i < cur.len() && cur[i].0 == p by {
                if p < n - 1 {
                    let i = choose|i: int| 0 <= i < before.len() && before[i].0 == p;
                    assert(cur[i] == before[i]);
                } else {
                    assert(cur[cur.len() - 1].0 == p);
                }
            }
        }
    }
}

/// Position of the entry for `selected_port`, if it is active.
pub fn selected_index(entries: &[ActiveEntry], selected_port: u16) -> (r: Option<usize>)
    ensures
        match r {
            Some(i) => i < entries@.len() && entries@[i as int].port == selected_port && forall|
                j: int,
            | 0 <= j < i ==> entries@[j].port != selected_port,
            None => forall|j: int| 0 <= j < entries@.len() ==> entries@[j].port != selected_port,
        },
{
    let mut i: usize = 0;
    while i < entries.len()
        invariant
            i <= entries@.len(),
            forall|j: int| 0 <= j < i ==> entries@[j].port != selected_port,
        decreases entries.len() - i,
    {
        if entries[i].port == selected_port {
            return Some(i);
        }
        i = i + 1;
    }
    None
}

/// The texts of one panel row.
pub struct PanelRow {
    pub port: String,
    pub proto: String,
    pub state: String,
    pub state_color: Color,
    pub scope: String,
    pub dir: String,
    pub process: String,
    pub owner: String,
    pub remote: String,
}

pub open spec fn proto_text(p: Protocol) -> Seq<char> {
    match p {
        Protocol::Tcp => "tcp"@,
        Protocol::Udp => "udp"@,
        Protocol::Unset => "-"@,
    }
}

pub open spec fn or_text(o: Option<String>, dflt: Seq<char>) -> Seq<char> {
    match o {
        Some(s) => s@,
        None => dflt,
    }
}

/// The row for an entry, in the panel's column order: port number,
/// protocol, full state (colored as its cell), bind scope, direction,
/// process ("unknown" when unresolved), owner and remote
/// peer (empty when unknown).
pub open spec fn row_matches(r: PanelRow, e: ActiveEntry) -> bool {
    &&& r.port@ == decimal(e.port as nat)
    &&& r.proto@ == proto_text(e.status.protocol)
    &&& r.state@ == spec_status_label_full(e.status)
    &&& r.state_color == spec_status_color(e.status, e.port < 1024)
    &&& r.scope@ == (if e.status.bind_global {
        "global"@
    } else {
        "local"@
    })
    &&& r.dir@ == direction_label(e.status.direction)
    &&& r.process@ == or_text(e.status.process, "unknown"@)
    &&& r.owner@ == or_text(e.status.owner, ""@)
    &&& r.remote@ == or_text(e.status.remote_addr, ""@)
}

fn text_or(o: &Option<String>, dflt: &str) -> (s: String)
    ensures
        s@ == or_text(*o, dflt@),
{
    match o {
        Some(v) => v.clone(),
        None => String::from_str(dflt),
    }
}

fn row(e: &ActiveEntry) -> (r: PanelRow)
    ensures
        row_matches(r, *e),
{
    let proto = match e.status.protocol {
        Protocol::Tcp => "tcp",
        Protocol::Udp => "udp",
        Protocol::Unset => "-",
    };
    let scope = if e.status.bind_global {
        "global"
    } else {
        "local"
    };
    PanelRow {
        port: crate::num::decimal_string(e.port as u64),
        proto: String::from_str(proto),
        state: String::from_str(super::color::status_label_full(&e.status)),
        state_color: super::color::status_color(&e.status, e.port < 1024),
        scope: String::from_str(scope),
        dir: String::from_str(e.status.direction.label()),
        process: text_or(&e.status.process, "unknown"),
        owner: text_or(&e.status.owner, ""),
        remote: text_or(&e.status.remote_addr, ""),
    }
}

/// One panel row per entry, in order.
pub fn rows(entries: &[ActiveEntry]) -> (out: Vec<PanelRow>)
    ensures
        out@.len() == entries@.len(),
        forall|i: int| 0 <= i < entries@.len() ==> row_matches(#[trigger] out@[i], entries@[i]),
{
    let mut out: Vec<PanelRow> = Vec::new();
    let mut i: usize = 0;
    while i < entries.len()
        invariant
            i <= entries@.len(),
            out@.len() == i,
            forall|k: int| 0 <= k < i ==> row_matches(#[trigger] out@[k], entries@[k]),
        decreases entries.len() - i,
    {
        out.push(row(&entries[i]));
        i = i + 1;
    }
    out
}

} // verus!

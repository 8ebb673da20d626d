//! Colors of the grid: one per port status, and a stable hue per process
//! name for the cell borders.
use vstd::prelude::*;

use crate::ports::{tcp_state_label, PortStatus, Protocol};

verus! {

/// A terminal color.
#[derive(Clone, Copy, PartialEq, Eq, Structural, Debug)]
pub enum Color {
    Rgb(u8, u8, u8),
    Black,
    White,
    Blue,
    DarkGray,
}

/// Magenta: an established connection.
#[verifier::allow_in_spec]
pub fn established() -> Color
    returns
        Color::Rgb(200, 0, 180),
{
    Color::Rgb(200, 0, 180)
}

/// Purple: listening.
#[verifier::allow_in_spec]
pub fn listening() -> Color
    returns
        Color::Rgb(140, 50, 220),
{
    Color::Rgb(140, 50, 220)
}

/// Blue: UDP in use.
#[verifier::allow_in_spec]
pub fn udp_active() -> Color
    returns
        Color::Rgb(0, 120, 220),
{
    Color::Rgb(0, 120, 220)
}

/// Dark grey: nothing active.
#[verifier::allow_in_spec]
pub fn closed() -> Color
    returns
        Color::Rgb(40, 40, 40),
{
    Color::Rgb(40, 40, 40)
}

/// Lighter grey: a well-known port with nothing active.
#[verifier::allow_in_spec]
pub fn closed_well_known() -> Color
    returns
        Color::Rgb(60, 60, 60),
{
    Color::Rgb(60, 60, 60)
}

/// Amber, apart from every status color, for a cell that just changed.
#[verifier::allow_in_spec]
pub fn flash() -> Color
    returns
        Color::Rgb(255, 210, 0),
{
    Color::Rgb(255, 210, 0)
}

/// Border of a cell with no resolved owning process.
pub const GRID_LINE: Color = Color::Black;

/// Row label text when nothing in the row changed recently.
#[verifier::allow_in_spec]
pub fn label() -> Color
    returns
        Color::Rgb(128, 128, 128),
{
    Color::Rgb(128, 128, 128)
}

/// The selected cell.
pub const CURSOR: Color = Color::White;

pub open spec fn spec_status_label_full(status: PortStatus) -> Seq<char> {
    if status.protocol == Protocol::Tcp {
        tcp_state_label(status.tcp_state)
    } else if status.udp_active {
        "udp"@
    } else {
        "closed"@
    }
}

/// State label for the active-ports panel: the full TCP state, "udp", or
/// "closed".
pub fn status_label_full(status: &PortStatus) -> (l: &'static str)
    ensures
        l@ == spec_status_label_full(*status),
{
    if status.protocol == Protocol::Tcp {
        status.tcp_state.label()
    } else if status.udp_active {
        "udp"
    } else {
        "closed"
    }
}

pub open spec fn spec_status_color(status: PortStatus, well_known: bool) -> Color {
    if status.tcp_established {
        established()
    } else if status.tcp_listen {
        listening()
    } else if status.udp_active {
        udp_active()
    } else if well_known {
        closed_well_known()
    } else {
        closed()
    }
}

/// Background of a port's cell: established over listening over UDP, and a
/// grey for a closed port, lighter when it is well known.
pub fn status_color(status: &PortStatus, well_known: bool) -> (c: Color)
    ensures
        c == spec_status_color(*status, well_known),
{
    if status.tcp_established {
        established()
    } else if status.tcp_listen {
        listening()
    } else if status.udp_active {
        udp_active()
    } else if well_known {
        closed_well_known()
    } else {
        closed()
    }
}

/// Position of the last `" ("` in `s`, if any.
pub open spec fn last_open_paren(s: Seq<char>) -> Option<nat>
    decreases s.len(),
{
    if s.len() < 2 {
        None
    } else if s[s.len() - 2] == ' ' && s[s.len() - 1] == '(' {
        Some((s.len() - 2) as nat)
    } else {
        last_open_paren(s.drop_last())
    }
}

/// "name (pid)" to "name": what comes before the last `" ("`, or all of it.
pub open spec fn spec_process_key(s: Seq<char>) -> Seq<char> {
    match last_open_paren(s) {
        Some(k) => s.take(k as int),
        None => s,
    }
}

proof fn lemma_last_open_paren(s: Seq<char>)
    ensures
        last_open_paren(s) matches Some(k) ==> k + 2 <= s.len(),
    decreases s.len(),
{
    if s.len() >= 2 && !(s[s.len() - 2] == ' ' && s[s.len() - 1] == '(') {
        lemma_last_open_paren(s.drop_last());
    }
}

fn process_key(process: &str) -> (key: String)
    ensures
        key@ == spec_process_key(process@),
{
    let v = crate::text::to_chars(process);
    let mut k = v.len();
    assert(v@.take(k as int) =~= v@);
    while k >= 2 && !(v[k - 2] == ' ' && v[k - 1] == '(')
        invariant
            k <= v.len(),
            last_open_paren(v@) == last_open_paren(v@.take(k as int)),
        decreases k,
    {
        assert(v@.take(k as int).drop_last() =~= v@.take(k - 1));
        k = k - 1;
    }
    if k >= 2 {
        assert(v@.take(k as int)[k - 2] == v@[k - 2]);
        let t = crate::text::copy_range(v.as_slice(), 0, k - 2);
        assert(t@ =~= v@.take(k - 2));
        crate::text::from_chars(t.as_slice())
    } else {
        crate::text::from_chars(v.as_slice())
    }
}

pub const FNV_OFFSET: u64 = 0xcbf29ce484222325;

pub const FNV_PRIME: u64 = 0x100000001b3;

/// FNV-1a over `bytes` from state `h`.
pub open spec fn fnv_fold(h: u64, bytes: Seq<u8>) -> u64
    decreases bytes.len(),
{
    if bytes.len() == 0 {
        h
    } else {
        fnv_fold((h ^ (bytes[0] as u64)).wrapping_mul(FNV_PRIME), bytes.drop_first())
    }
}

/// FNV-1a, a fixed algorithm, so a name hashes the same across runs.
pub open spec fn spec_fnv1a(bytes: Seq<u8>) -> u64 {
    fnv_fold(FNV_OFFSET, bytes)
}

fn fnv1a(s: &str) -> (h: u64)
    ensures
        h == spec_fnv1a(vstd::utf8::encode_utf8(s@)),
{
    let bytes = s.as_bytes();
    let mut hash = FNV_OFFSET;
    let mut i: usize = 0;
    assert(bytes@.skip(0) =~= bytes@);
    while i < bytes.len()
        invariant
            i <= bytes@.len(),
            bytes@ == vstd::utf8::encode_utf8(s@),
            fnv_fold(hash, bytes@.skip(i as int)) == spec_fnv1a(bytes@),
        decreases bytes.len() - i,
    {
        assert(bytes@.skip(i as int).drop_first() =~= bytes@.skip(i + 1));
        hash = hash ^ (bytes[i] as u64);
        hash = hash.wrapping_mul(FNV_PRIME);
        i = i + 1;
    }
    assert(bytes@.skip(i as int) =~= Seq::<u8>::empty());
    hash
}

/// Hues kept clear of the status colors: 74-182 (yellow-green through
/// cyan) and 331-384, the second band wrapping past 360 to 24.
pub open spec fn spec_hue(hash: u64) -> u32 {
    let offset = hash % 161;
    if offset < 108 {
        (74 + offset) as u32
    } else {
        ((331 + (offset - 108)) % 360) as u32
    }
}

/// The hue of a hash: an offset into the two safe bands laid end to end.
pub fn hue_of_hash(hash: u64) -> (h: u32)
    ensures
        h == spec_hue(hash),
{
    let offset = hash % 161;
    if offset < 108 {
        (74 + offset) as u32
    } else {
        ((331 + (offset - 108)) % 360) as u32
    }
}

/// The border hue of a cell: the hue of the owning process's name (the pid
/// left out, so every process of one program gets one color), or none for
/// a cell without a resolved process.
pub open spec fn spec_process_hue(process: Option<Seq<char>>) -> Option<u32> {
    match process {
        Some(p) => Some(
            spec_hue(spec_fnv1a(vstd::utf8::encode_utf8(spec_process_key(p)))),
        ),
        None => None,
    }
}

pub fn process_hue(process: Option<&str>) -> (h: Option<u32>)
    ensures
        h == spec_process_hue(crate::ports::opt_str_view(process)),
{
    match process {
        Some(p) => {
            let key = process_key(p);
            Some(hue_of_hash(fnv1a(key.as_str())))
        },
        None => None,
    }
}

/// Every border hue lies in one of the bands that keep it apart from the
/// status and flash colors.
pub proof fn lemma_hue_in_safe_band(hash: u64)
    ensures
        ({
            let h = spec_hue(hash);
            (74 <= h < 182) || (331 <= h < 360) || (h < 24)
        }),
{
}

/// One process name always gets one hue, whatever its pid.
pub proof fn lemma_hue_ignores_pid(name: Seq<char>, pid1: Seq<char>, pid2: Seq<char>)
    requires
        forall|i: int| 0 <= i < pid1.len() ==> pid1[i] != '(',
        forall|i: int| 0 <= i < pid2.len() ==> pid2[i] != '(',
    ensures
        spec_process_hue(Some(name + " ("@ + pid1 + ")"@)) == spec_process_hue(
            Some(name + " ("@ + pid2 + ")"@),
        ),
{
    lemma_key_of_label(name, pid1);
    lemma_key_of_label(name, pid2);
}

proof fn lemma_key_of_label(name: Seq<char>, pid: Seq<char>)
    requires
        forall|i: int| 0 <= i < pid.len() ==> pid[i] != '(',
    ensures
        spec_process_key(name + " ("@ + pid + ")"@) == name,
{
    reveal_strlit(" (");
    reveal_strlit(")");
    assert(" ("@ =~= seq![' ', '(']);
    assert(")"@ =~= seq![')']);
    let s = name + " ("@ + pid + ")"@;
    lemma_last_paren_suffix(name, pid, pid.len() as int);
    assert(s.take(name.len() + 2 + pid.len() + 1int) =~= s);
    assert(s.take(name.len() as int) =~= name);
}

/// Scanning back over the pid part finds no `" ("` before the one that
/// follows the name.
proof fn lemma_last_paren_suffix(name: Seq<char>, pid: Seq<char>, k: int)
    requires
        0 <= k <= pid.len(),
        forall|i: int| 0 <= i < pid.len() ==> pid[i] != '(',
        " ("@ == seq![' ', '('],
        ")"@ == seq![')'],
    ensures
        last_open_paren((name + " ("@ + pid + ")"@).take(name.len() + 2 + k + 1)) == Some(
            name.len(),
        ),
    decreases k,
{
    let s = name + " ("@ + pid + ")"@;
    let t = s.take(name.len() + 2 + k + 1);
    if k == 0 {
        let u = t.drop_last();
        assert(t.drop_last() =~= s.take(name.len() + 2int));
        assert(t[t.len() - 1] == s[name.len() + 2int]);
        if pid.len() > 0 {
            assert(s[name.len() + 2int] == pid[0]);
        } else {
            assert(s[name.len() + 2int] == ')');
        }
        assert(u[u.len() - 2] == ' ' && u[u.len() - 1] == '(');
    } else {
        lemma_last_paren_suffix(name, pid, k - 1);
        assert(t.drop_last() =~= s.take(name.len() + 2 + (k - 1) + 1));
        let c = t[t.len() - 1];
        assert(c == s[name.len() + 2 + k]);
        if k < pid.len() {
            assert(c == pid[k]);
        } else {
            assert(c == ')');
        }
    }
}

} // verus!

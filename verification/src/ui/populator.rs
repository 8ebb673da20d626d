//! The port grid: which rows are shown and what each cell holds.
//!
//! The port space is a grid of `grid_cols` columns (row = port / grid_cols,
//! col = port % grid_cols). Rows holding the well-known ports are pinned and
//! always shown; every other row is shown only while some port in it is
//! active or recently changed.
//!
//! Ages are milliseconds since a port last changed (`None`: not since the
//! start). A port flashes while its age is under `FLASH_DURATION_MS`.
use vstd::prelude::*;

use super::layout::Cursor;
use crate::ports::{PortStatus, PORT_COUNT};

verus! {

/// How long a changed port keeps flashing, in milliseconds.
pub const FLASH_DURATION_MS: u64 = 2000;

/// Narrowest and widest grids.
pub const MIN_GRID_COLS: usize = 64;

pub const MAX_GRID_COLS: usize = 1024;

/// Width of the row label column: the widest label, "65408-65535".
pub const LABEL_WIDTH: usize = 11;

/// Number of well-known ports (0-1023).
pub const WELL_KNOWN_PORTS: usize = 1024;

pub open spec fn flashing(age: Option<u64>) -> bool {
    match age {
        Some(a) => a < FLASH_DURATION_MS,
        None => false,
    }
}

/// A port changed less than `FLASH_DURATION_MS` ago.
pub fn is_flashing(age: Option<u64>) -> (b: bool)
    ensures
        b == flashing(age),
{
    match age {
        Some(a) => a < FLASH_DURATION_MS,
        None => false,
    }
}

pub open spec fn ceil_div(a: int, b: int) -> int {
    (a + b - 1) / b
}

/// `a.div_ceil(b)`.
pub fn div_ceil(a: usize, b: usize) -> (r: usize)
    requires
        b > 0,
    ensures
        r == ceil_div(a as int, b as int),
{
    let q = a / b;
    if a % b == 0 {
        assert(q == ceil_div(a as int, b as int)) by (nonlinear_arith)
            requires
                b > 0,
                q == a / b,
                a % b == 0,
        ;
        q
    } else {
        assert(q + 1 == ceil_div(a as int, b as int) && q < a) by (nonlinear_arith)
            requires
                b > 0,
                q == a / b,
                a % b != 0,
        ;
        q + 1
    }
}

pub open spec fn spec_grid_cols(available_width: u16) -> usize {
    let usable: int = if available_width >= LABEL_WIDTH + 1 {
        available_width - (LABEL_WIDTH + 1)
    } else {
        0
    };
    if usable < MIN_GRID_COLS {
        MIN_GRID_COLS
    } else if usable > MAX_GRID_COLS {
        MAX_GRID_COLS
    } else {
        usable as usize
    }
}

/// The grid takes what the 11-column label and the one-column margin leave
/// of the width: exactly `width - 12` columns when that lies between 64 and
/// 1024, otherwise the nearest of the two bounds.
pub proof fn lemma_grid_fills_width(width: u16)
    ensures
        76 <= width <= 1036 ==> spec_grid_cols(width) + 12 == width,
        width < 76 ==> spec_grid_cols(width) == 64,
        width > 1036 ==> spec_grid_cols(width) == 1024,
{
}

/// Column count that fills `available_width` after the label column and
/// a one-column right margin, clamped to the narrowest and widest grids.
pub fn grid_cols(available_width: u16) -> (c: usize)
    ensures
        c == spec_grid_cols(available_width),
        MIN_GRID_COLS <= c <= MAX_GRID_COLS,
{
    let usable = available_width.saturating_sub(LABEL_WIDTH as u16 + 1) as usize;
    if usable < MIN_GRID_COLS {
        MIN_GRID_COLS
    } else if usable > MAX_GRID_COLS {
        MAX_GRID_COLS
    } else {
        usable
    }
}

pub open spec fn spec_grid_rows(cols: int) -> int {
    ceil_div(PORT_COUNT as int, cols)
}

/// Rows needed for every port; the last one may be partial.
pub fn grid_rows(grid_cols: usize) -> (r: usize)
    requires
        grid_cols > 0,
    ensures
        r == spec_grid_rows(grid_cols as int),
{
    div_ceil(PORT_COUNT, grid_cols)
}

pub open spec fn spec_pinned_rows(cols: int) -> int {
    ceil_div(WELL_KNOWN_PORTS as int, cols)
}

/// Rows that hold any well-known port, pinned at the top.
pub fn pinned_rows(grid_cols: usize) -> (r: usize)
    requires
        grid_cols > 0,
    ensures
        r == spec_pinned_rows(grid_cols as int),
{
    div_ceil(WELL_KNOWN_PORTS, grid_cols)
}

/// Listening, connected or in UDP use.
pub open spec fn port_active(s: PortStatus) -> bool {
    s.tcp_listen || s.tcp_established || s.udp_active
}

/// A port is quiet: inactive and not flashing.
pub open spec fn port_quiet(ports: Seq<PortStatus>, ages: Seq<Option<u64>>, p: int) -> bool {
    !port_active(ports[p]) && !flashing(ages[p])
}

/// First port past the end of a row.
pub open spec fn row_end(row: int, cols: int) -> int {
    if row * cols + cols < PORT_COUNT {
        row * cols + cols
    } else {
        PORT_COUNT as int
    }
}

/// A row outside the pinned head whose ports are all quiet.
pub open spec fn row_closed(row: int, ports: Seq<PortStatus>, ages: Seq<Option<u64>>, cols: int) -> bool {
    &&& row >= spec_pinned_rows(cols)
    &&& forall|p: int| row * cols <= p < row_end(row, cols) ==> port_quiet(ports, ages, p)
}

/// The shown grid rows among the first `n`, in ascending order.
pub open spec fn display_rows_upto(n: int, ports: Seq<PortStatus>, ages: Seq<Option<u64>>, cols: int) -> Seq<usize>
    decreases n,
{
    if n <= 0 {
        seq![]
    } else {
        let before = display_rows_upto(n - 1, ports, ages, cols);
        if row_closed(n - 1, ports, ages, cols) {
            before
        } else {
            before.push((n - 1) as usize)
        }
    }
}

/// Every grid row that is not closed, in ascending order.
pub open spec fn display_rows(ports: Seq<PortStatus>, ages: Seq<Option<u64>>, cols: int) -> Seq<usize> {
    display_rows_upto(spec_grid_rows(cols), ports, ages, cols)
}

/// Tables the grid reads: one status and one age per port.
pub open spec fn tables_ok(ports: Seq<PortStatus>, ages: Seq<Option<u64>>) -> bool {
    ports.len() == PORT_COUNT && ages.len() == PORT_COUNT
}

fn is_port_quiet(ports: &Vec<PortStatus>, ages: &[Option<u64>], p: usize) -> (b: bool)
    requires
        p < ports@.len(),
        p < ages@.len(),
    ensures
        b == port_quiet(ports@, ages@, p as int),
{
    let s = &ports[p];
    !s.tcp_listen && !s.tcp_established && !s.udp_active && !is_flashing(ages[p])
}

proof fn lemma_row_bounds(row: int, cols: int)
    requires
        cols > 0,
        0 <= row < spec_grid_rows(cols),
    ensures
        row * cols < PORT_COUNT,
        row * cols <= row_end(row, cols) <= PORT_COUNT,
        row >= 1 ==> cols < PORT_COUNT,
{
    assert(row * cols < PORT_COUNT) by (nonlinear_arith)
        requires
            cols > 0,
            0 <= row < (PORT_COUNT + cols - 1) / cols,
    ;
    assert(row >= 1 ==> cols <= row * cols) by (nonlinear_arith)
        requires
            cols > 0,
            row >= 0,
    ;
}

fn row_is_closed(row: usize, ports: &Vec<PortStatus>, ages: &[Option<u64>], grid_cols: usize) -> (b: bool)
    requires
        tables_ok(ports@, ages@),
        grid_cols > 0,
        row < spec_grid_rows(grid_cols as int),
    ensures
        b == row_closed(row as int, ports@, ages@, grid_cols as int),
{
    if row < pinned_rows(grid_cols) {
        return false;
    }
    proof {
        lemma_row_bounds(row as int, grid_cols as int);
    }
    let base = row * grid_cols;
    let end = if base + grid_cols < PORT_COUNT {
        base + grid_cols
    } else {
        PORT_COUNT
    };
    let mut p = base;
    while p < end
        invariant
            base == row * grid_cols,
            end == row_end(row as int, grid_cols as int),
            base <= p <= end <= PORT_COUNT,
            tables_ok(ports@, ages@),
            forall|q: int| base <= q < p ==> port_quiet(ports@, ages@, q),
        decreases end - p,
    {
        if !is_port_quiet(ports, ages, p) {
            return false;
        }
        p = p + 1;
    }
    true
}

/// The grid rows that are shown, ascending: every pinned row, and every
/// other row with an active or flashing port.
pub fn build_display_rows(ports: &Vec<PortStatus>, ages: &[Option<u64>], grid_cols: usize) -> (rows:
    Vec<usize>)
    requires
        tables_ok(ports@, ages@),
        grid_cols > 0,
    ensures
        rows@ == display_rows(ports@, ages@, grid_cols as int),
{
    let n = grid_rows(grid_cols);
    let mut rows: Vec<usize> = Vec::new();
    let mut r: usize = 0;
    while r < n
        invariant
            r <= n,
            n == spec_grid_rows(grid_cols as int),
            grid_cols > 0,
            tables_ok(ports@, ages@),
            rows@ == display_rows_upto(r as int, ports@, ages@, grid_cols as int),
        decreases n - r,
    {
        if !row_is_closed(r, ports, ages, grid_cols) {
            rows.push(r);
        }
        r = r + 1;
    }
    rows
}

/// Number of shown rows.
pub fn display_row_count(ports: &Vec<PortStatus>, ages: &[Option<u64>], grid_cols: usize) -> (n:
    usize)
    requires
        tables_ok(ports@, ages@),
        grid_cols > 0,
    ensures
        n == display_rows(ports@, ages@, grid_cols as int).len(),
{
    build_display_rows(ports, ages, grid_cols).len()
}

/// Facts about the shown rows: ascending, within the grid, exactly the
/// rows that are not closed, the pinned rows first.
pub proof fn lemma_display_rows_upto(n: int, ports: Seq<PortStatus>, ages: Seq<Option<u64>>, cols: int)
    requires
        cols > 0,
        0 <= n <= spec_grid_rows(cols),
    ensures
        display_rows_upto(n, ports, ages, cols).len() <= n,
        forall|i: int, j: int|
            0 <= i < j < display_rows_upto(n, ports, ages, cols).len() ==> display_rows_upto(
                n,
                ports,
                ages,
                cols,
            )[i] < display_rows_upto(n, ports, ages, cols)[j],
        forall|i: int|
            0 <= i < display_rows_upto(n, ports, ages, cols).len() ==> {
                let r = #[trigger] display_rows_upto(n, ports, ages, cols)[i];
                r < n && !row_closed(r as int, ports, ages, cols)
            },
        forall|r: int|
            0 <= r < n && !row_closed(r, ports, ages, cols) ==> display_rows_upto(
                n,
                ports,
                ages,
                cols,
            ).contains(r as usize),
        forall|i: int|
            0 <= i < n && i < spec_pinned_rows(cols) ==> display_rows_upto(n, ports, ages, cols)[i]
                == i,
        display_rows_upto(n, ports, ages, cols).len() >= (if n < spec_pinned_rows(cols) {
            n
        } else {
            spec_pinned_rows(cols)
        }),
    decreases n,
{
    lemma_grid_shape(cols);
    if n > 0 {
        lemma_display_rows_upto(n - 1, ports, ages, cols);
        let before = display_rows_upto(n - 1, ports, ages, cols);
        let cur = display_rows_upto(n, ports, ages, cols);
        if !row_closed(n - 1, ports, ages, cols) {
            assert(cur == before.push((n - 1) as usize));
            assert forall|r: int|
                0 <= r < n && !row_closed(r, ports, ages, cols) implies cur.contains(
                r as usize,
            ) by {
                if r < n - 1 {
                    let k = choose|k: int| 0 <= k < before.len() && before[k] == r as usize;
                    assert(cur[k] == r as usize);
                } else {
                    assert(cur[cur.len() - 1] == r as usize);
                }
            }
        }
        if n <= spec_pinned_rows(cols) {
            lemma_pinned_prefix(n, ports, ages, cols);
        } else {
            assert forall|i: int| 0 <= i < n && i < spec_pinned_rows(cols) implies cur[i] == i by {
                if row_closed(n - 1, ports, ages, cols) {
                    assert(cur == before);
                } else {
                    assert(cur == before.push((n - 1) as usize));
                    assert(cur[i] == before[i]);
                }
            }
        }
    }
}

/// While every row so far is pinned, every row so far is shown.
proof fn lemma_pinned_prefix(n: int, ports: Seq<PortStatus>, ages: Seq<Option<u64>>, cols: int)
    requires
        cols > 0,
        0 <= n <= spec_pinned_rows(cols),
    ensures
        display_rows_upto(n, ports, ages, cols).len() == n,
        forall|i: int| 0 <= i < n ==> display_rows_upto(n, ports, ages, cols)[i] == i,
    decreases n,
{
    if n > 0 {
        lemma_pinned_prefix(n - 1, ports, ages, cols);
        assert(!row_closed(n - 1, ports, ages, cols));
        let before = display_rows_upto(n - 1, ports, ages, cols);
        assert(spec_pinned_rows(cols) <= WELL_KNOWN_PORTS) by (nonlinear_arith)
            requires
                cols > 0,
        ;
        assert(display_rows_upto(n, ports, ages, cols) == before.push((n - 1) as usize));
        assert forall|i: int| 0 <= i < n implies display_rows_upto(n, ports, ages, cols)[i]
            == i by {
            if i < n - 1 {
                assert(display_rows_upto(n, ports, ages, cols)[i] == before[i]);
            }
        }
    }
}

/// The shown rows are ascending grid rows, exactly those not closed, with
/// the pinned rows first; there is at least one.
pub proof fn lemma_display_rows(ports: Seq<PortStatus>, ages: Seq<Option<u64>>, cols: int)
    requires
        cols > 0,
    ensures
        1 <= display_rows(ports, ages, cols).len() <= spec_grid_rows(cols),
        forall|i: int, j: int|
            0 <= i < j < display_rows(ports, ages, cols).len() ==> display_rows(ports, ages, cols)[i]
                < display_rows(ports, ages, cols)[j],
        forall|i: int|
            0 <= i < display_rows(ports, ages, cols).len() ==> {
                let r = #[trigger] display_rows(ports, ages, cols)[i];
                r < spec_grid_rows(cols) && !row_closed(r as int, ports, ages, cols)
            },
        forall|r: int|
            0 <= r < spec_grid_rows(cols) && !row_closed(r, ports, ages, cols) ==> display_rows(
                ports,
                ages,
                cols,
            ).contains(r as usize),
        forall|i: int|
            0 <= i < spec_pinned_rows(cols) ==> display_rows(ports, ages, cols)[i] == i,
{
    lemma_grid_shape(cols);
    lemma_display_rows_upto(spec_grid_rows(cols), ports, ages, cols);
    assert(!row_closed(0, ports, ages, cols));
    assert(display_rows(ports, ages, cols).contains(0usize));
}

/// Row `p / cols` holds port `p` and is a row of the grid.
proof fn lemma_port_row(p: int, cols: int)
    requires
        cols > 0,
        0 <= p < PORT_COUNT,
    ensures
        (p / cols) * cols <= p < (p / cols) * cols + cols,
        0 <= p / cols < spec_grid_rows(cols),
        p < WELL_KNOWN_PORTS ==> p / cols < spec_pinned_rows(cols),
{
    let r = p / cols;
    assert(r * cols <= p < r * cols + cols && r >= 0) by (nonlinear_arith)
        requires
            cols > 0,
            p >= 0,
            r == p / cols,
    ;
    assert(r < (PORT_COUNT + cols - 1) / cols) by (nonlinear_arith)
        requires
            cols > 0,
            0 <= r * cols <= p < PORT_COUNT,
            r >= 0,
    ;
    assert(p < WELL_KNOWN_PORTS ==> r < (WELL_KNOWN_PORTS + cols - 1) / cols) by (nonlinear_arith)
        requires
            cols > 0,
            0 <= r * cols <= p,
            r >= 0,
    ;
}

/// The row of every port that listens, holds an established connection,
/// carries UDP traffic or changed less than two seconds ago is shown, and so
/// is the row of every well-known port.
pub proof fn lemma_busy_port_row_shown(ports: Seq<PortStatus>, ages: Seq<Option<u64>>, cols: int, p: int)
    requires
        cols > 0,
        0 <= p < PORT_COUNT,
        ports[p].tcp_listen || ports[p].tcp_established || ports[p].udp_active || (ages[p] matches Some(
            a,
        ) && a < 2000) || p < 1024,
    ensures
        display_rows(ports, ages, cols).contains((p / cols) as usize),
{
    let r = p / cols;
    lemma_port_row(p, cols);
    lemma_display_rows(ports, ages, cols);
    if p >= 1024 {
        assert(!port_quiet(ports, ages, p));
        assert(r * cols <= p < row_end(r, cols));
    }
    assert(!row_closed(r, ports, ages, cols));
}

/// A shown row holds a well-known port, or a port that listens, holds an
/// established connection, carries UDP traffic or changed less than two
/// seconds ago.
pub proof fn lemma_shown_row_is_busy(ports: Seq<PortStatus>, ages: Seq<Option<u64>>, cols: int, i: int)
    requires
        cols > 0,
        0 <= i < display_rows(ports, ages, cols).len(),
    ensures
        ({
            let r = display_rows(ports, ages, cols)[i] as int;
            r * cols < 1024 || exists|p: int|
                #![trigger ports[p]]
                r * cols <= p < r * cols + cols && p < PORT_COUNT && (ports[p].tcp_listen
                    || ports[p].tcp_established || ports[p].udp_active || (ages[p] matches Some(a)
                    && a < 2000))
        }),
{
    lemma_display_rows(ports, ages, cols);
    let r = display_rows(ports, ages, cols)[i] as int;
    assert(!row_closed(r, ports, ages, cols));
    if r >= spec_pinned_rows(cols) {
        let p = choose|p: int| r * cols <= p < row_end(r, cols) && !port_quiet(ports, ages, p);
        assert(ports[p].tcp_listen || ports[p].tcp_established || ports[p].udp_active || (
        ages[p] matches Some(a) && a < 2000));
    } else {
        assert(r * cols < 1024) by (nonlinear_arith)
            requires
                cols > 0,
                0 <= r < (WELL_KNOWN_PORTS + cols - 1) / cols,
        ;
    }
}

/// The grid's shape: at least one pinned row, no more pinned rows than rows,
/// and every row holds a real port.
pub proof fn lemma_grid_shape(cols: int)
    requires
        cols > 0,
    ensures
        1 <= spec_pinned_rows(cols) <= spec_grid_rows(cols),
        spec_grid_rows(cols) <= PORT_COUNT,
        (spec_grid_rows(cols) - 1) * cols < PORT_COUNT,
{
    assert(1 <= spec_pinned_rows(cols) <= spec_grid_rows(cols)) by (nonlinear_arith)
        requires
            cols > 0,
    ;
    assert(spec_grid_rows(cols) <= PORT_COUNT) by (nonlinear_arith)
        requires
            cols > 0,
    ;
    assert((spec_grid_rows(cols) - 1) * cols < PORT_COUNT) by (nonlinear_arith)
        requires
            cols > 0,
    ;
}

pub open spec fn spec_selected_port(
    ports: Seq<PortStatus>,
    ages: Seq<Option<u64>>,
    cursor: Cursor,
    cols: int,
) -> int {
    let rows = display_rows(ports, ages, cols);
    let idx = if cursor.row < rows.len() - 1 {
        cursor.row as int
    } else {
        rows.len() - 1
    };
    let p = rows[idx] * cols + cursor.col;
    if p < PORT_COUNT - 1 {
        p
    } else {
        PORT_COUNT - 1
    }
}

/// Port under the cursor: the cursor's row clamped to the shown rows, and
/// the port at its column, clamped to the last port.
pub fn selected_port(ports: &Vec<PortStatus>, ages: &[Option<u64>], cursor: Cursor, grid_cols: usize) -> (p:
    usize)
    requires
        tables_ok(ports@, ages@),
        grid_cols > 0,
        cursor.col <= usize::MAX - PORT_COUNT,
    ensures
        p == spec_selected_port(ports@, ages@, cursor, grid_cols as int),
        p < PORT_COUNT,
{
    let rows = build_display_rows(ports, ages, grid_cols);
    proof {
        lemma_display_rows(ports@, ages@, grid_cols as int);
    }
    let last = rows.len() - 1;
    let idx = if cursor.row < last {
        cursor.row
    } else {
        last
    };
    let r = rows[idx];
    proof {
        assert(r < spec_grid_rows(grid_cols as int));
        lemma_row_bounds(r as int, grid_cols as int);
    }
    let p = r * grid_cols + cursor.col;
    if p < PORT_COUNT - 1 {
        p
    } else {
        PORT_COUNT - 1
    }
}

/// What a content cell of the grid shows.
#[derive(Clone, Copy, PartialEq, Eq, Structural, Debug)]
pub enum GridCell {
    /// Past the last port of a partial final row.
    Blank,
    /// The cell under the cursor.
    Cursor,
    /// The status of this port.
    Port(usize),
}

/// One rendered grid row.
pub struct MatrixRow {
    pub grid_row: usize,
    pub display_idx: usize,
    /// First and last port of the row, for its label.
    pub range_start: usize,
    pub range_end: usize,
    /// One cell per grid column.
    pub cells: Vec<GridCell>,
}

impl MatrixRow {
    /// The row's label, "first-last".
    pub fn label(&self) -> (s: String)
        ensures
            s@ == crate::num::decimal(self.range_start as nat) + "-"@ + crate::num::decimal(
                self.range_end as nat,
            ),
    {
        let mut s = String::new();
        crate::num::push_decimal(&mut s, self.range_start as u64);
        crate::text::push_str(&mut s, "-");
        crate::num::push_decimal(&mut s, self.range_end as u64);
        assert(s@ =~= crate::num::decimal(self.range_start as nat) + "-"@ + crate::num::decimal(
            self.range_end as nat,
        ));
        s
    }
}

/// A port's cell is marked for a wildcard bind only while it listens or
/// carries UDP traffic.
pub open spec fn spec_shows_global_bind(s: PortStatus) -> bool {
    s.bind_global && (s.tcp_listen || s.udp_active)
}

pub fn shows_global_bind(status: &PortStatus) -> (b: bool)
    ensures
        b == spec_shows_global_bind(*status),
{
    status.bind_global && (status.tcp_listen || status.udp_active)
}

pub open spec fn spec_cell(row: int, display_idx: int, col: int, cursor: Cursor, cols: int) -> GridCell {
    let port = row * cols + col;
    if port >= PORT_COUNT {
        GridCell::Blank
    } else if display_idx == cursor.row && col == cursor.col {
        GridCell::Cursor
    } else {
        GridCell::Port(port as usize)
    }
}

/// The row `row` shown at display position `display_idx`.
pub open spec fn row_matches(m: MatrixRow, row: int, display_idx: int, cursor: Cursor, cols: int) -> bool {
    &&& m.grid_row == row
    &&& m.display_idx == display_idx
    &&& m.range_start == row * cols
    &&& m.range_end == (if row * cols + cols - 1 < PORT_COUNT - 1 {
        row * cols + cols - 1
    } else {
        PORT_COUNT - 1
    })
    &&& m.cells@.len() == cols
    &&& forall|c: int| 0 <= c < cols ==> #[trigger] m.cells@[c] == spec_cell(row, display_idx, c, cursor, cols)
}

/// In a drawn row, column `c` shows port `range_start + c`; the cursor's
/// cell shows the cursor instead, and columns past port 65535 are blank. The
/// label runs from the row's first port to its last, 65535 at the latest.
pub proof fn lemma_row_cells(m: MatrixRow, row: int, idx: int, cursor: Cursor, cols: int, c: int)
    requires
        row_matches(m, row, idx, cursor, cols),
        0 <= c < cols,
    ensures
        m.range_start + c < 65536 && !(idx == cursor.row && c == cursor.col) ==> m.cells@[c]
            == GridCell::Port((m.range_start + c) as usize),
        m.range_start + c < 65536 && idx == cursor.row && c == cursor.col ==> m.cells@[c]
            == GridCell::Cursor,
        m.range_start + c >= 65536 ==> m.cells@[c] == GridCell::Blank,
        m.range_end == (if m.range_start + cols - 1 < 65535 {
            m.range_start + cols - 1
        } else {
            65535
        }),
{
    assert(m.cells@[c] == spec_cell(row, idx, c, cursor, cols));
}

fn fill_row(row: usize, cursor: Cursor, display_idx: usize, grid_cols: usize) -> (m: MatrixRow)
    requires
        grid_cols > 0,
        row < spec_grid_rows(grid_cols as int),
    ensures
        row_matches(m, row as int, display_idx as int, cursor, grid_cols as int),
{
    proof {
        lemma_row_bounds(row as int, grid_cols as int);
    }
    let range_start = row * grid_cols;
    let range_end = if range_start + (grid_cols - 1) < PORT_COUNT - 1 {
        range_start + (grid_cols - 1)
    } else {
        PORT_COUNT - 1
    };
    let mut cells: Vec<GridCell> = Vec::new();
    let mut c: usize = 0;
    while c < grid_cols
        invariant
            c <= grid_cols,
            range_start == row * grid_cols,
            range_start < PORT_COUNT,
            row >= 1 ==> grid_cols < PORT_COUNT,
            row == 0 ==> range_start == 0,
            cells@.len() == c,
            forall|k: int|
                0 <= k < c ==> #[trigger] cells@[k] == spec_cell(
                    row as int,
                    display_idx as int,
                    k,
                    cursor,
                    grid_cols as int,
                ),
        decreases grid_cols - c,
    {
        let port = range_start + c;
        let cell = if port >= PORT_COUNT {
            GridCell::Blank
        } else if display_idx == cursor.row && c == cursor.col {
            GridCell::Cursor
        } else {
            GridCell::Port(port)
        };
        cells.push(cell);
        c = c + 1;
    }
    MatrixRow { grid_row: row, display_idx, range_start, range_end, cells }
}

pub open spec fn min3(a: int, b: int, c: int) -> int {
    let m = if a < b {
        a
    } else {
        b
    };
    if m < c {
        m
    } else {
        c
    }
}

/// Pinned rows on screen: the pinned head, cut to what fits and to what
/// exists.
pub open spec fn shown_pinned(visible_rows: int, total: int, cols: int) -> int {
    min3(spec_pinned_rows(cols), visible_rows, total)
}

/// Display index where the scrolled body starts.
pub open spec fn body_start(body_offset: int, visible_rows: int, total: int, cols: int) -> int {
    let s = shown_pinned(visible_rows, total, cols) + body_offset;
    if s < total {
        s
    } else {
        total
    }
}

pub open spec fn body_end(body_offset: int, visible_rows: int, total: int, cols: int) -> int {
    let e = body_start(body_offset, visible_rows, total, cols) + (visible_rows - shown_pinned(
        visible_rows,
        total,
        cols,
    ));
    if e < total {
        e
    } else {
        total
    }
}

/// The rows rendered: the pinned head (display rows `0..pinned`, never
/// scrolled), then the body window starting `body_offset` rows past it,
/// `visible_rows` rows in all at most.
pub open spec fn matrix_spec(
    out: Seq<MatrixRow>,
    ports: Seq<PortStatus>,
    ages: Seq<Option<u64>>,
    cursor: Cursor,
    body_offset: int,
    visible_rows: int,
    cols: int,
) -> bool {
    let rows = display_rows(ports, ages, cols);
    let total = rows.len() as int;
    let pinned = shown_pinned(visible_rows, total, cols);
    let start = body_start(body_offset, visible_rows, total, cols);
    let end = body_end(body_offset, visible_rows, total, cols);
    &&& out.len() == pinned + (end - start)
    &&& forall|i: int| 0 <= i < pinned ==> row_matches(#[trigger] out[i], rows[i] as int, i, cursor, cols)
    &&& forall|i: int|
        pinned <= i < out.len() ==> row_matches(
            #[trigger] out[i],
            rows[start + (i - pinned)] as int,
            start + (i - pinned),
            cursor,
            cols,
        )
}

/// The grid rows to draw for a viewport of `visible_rows` rows whose
/// scrolled body starts `body_offset` rows past the pinned head.
pub fn ports_matrix(
    ports: &Vec<PortStatus>,
    cursor: Cursor,
    body_offset: usize,
    visible_rows: usize,
    ages: &[Option<u64>],
    grid_cols: usize,
) -> (out: Vec<MatrixRow>)
    requires
        tables_ok(ports@, ages@),
        grid_cols > 0,
        grid_cols <= usize::MAX - 4,
        body_offset <= usize::MAX - PORT_COUNT,
        visible_rows <= usize::MAX - PORT_COUNT,
    ensures
        matrix_spec(
            out@,
            ports@,
            ages@,
            cursor,
            body_offset as int,
            visible_rows as int,
            grid_cols as int,
        ),
{
    let rows = build_display_rows(ports, ages, grid_cols);
    proof {
        lemma_display_rows(ports@, ages@, grid_cols as int);
        lemma_grid_shape(grid_cols as int);
    }
    let pr = pinned_rows(grid_cols);
    let a = if pr < visible_rows {
        pr
    } else {
        visible_rows
    };
    let pinned = if a < rows.len() {
        a
    } else {
        rows.len()
    };
    let ghost total = rows@.len() as int;
    assert(pinned == shown_pinned(visible_rows as int, total, grid_cols as int));
    let mut out: Vec<MatrixRow> = Vec::new();
    let mut i: usize = 0;
    while i < pinned
        invariant
            i <= pinned <= rows@.len(),
            rows@ == display_rows(ports@, ages@, grid_cols as int),
            grid_cols > 0,
            forall|k: int|
                0 <= k < rows@.len() ==> (#[trigger] rows@[k]) < spec_grid_rows(grid_cols as int),
            out@.len() == i,
            forall|k: int|
                0 <= k < i ==> row_matches(
                    #[trigger] out@[k],
                    rows@[k] as int,
                    k,
                    cursor,
                    grid_cols as int,
                ),
        decreases pinned - i,
    {
        let m = fill_row(rows[i], cursor, i, grid_cols);
        out.push(m);
        i = i + 1;
    }
    let body_budget = visible_rows - pinned;
    let s = pinned + body_offset;
    let start = if s < rows.len() {
        s
    } else {
        rows.len()
    };
    let e = start + body_budget;
    let end = if e < rows.len() {
        e
    } else {
        rows.len()
    };
    assert(start == body_start(body_offset as int, visible_rows as int, total, grid_cols as int));
    assert(end == body_end(body_offset as int, visible_rows as int, total, grid_cols as int));
    let mut j = start;
    while j < end
        invariant
            start <= j <= end <= rows@.len(),
            pinned <= rows@.len(),
            rows@ == display_rows(ports@, ages@, grid_cols as int),
            grid_cols > 0,
            forall|k: int|
                0 <= k < rows@.len() ==> (#[trigger] rows@[k]) < spec_grid_rows(grid_cols as int),
            out@.len() == pinned + (j - start),
            forall|k: int|
                0 <= k < pinned ==> row_matches(
                    #[trigger] out@[k],
                    rows@[k] as int,
                    k,
                    cursor,
                    grid_cols as int,
                ),
            forall|k: int|
                pinned <= k < out@.len() ==> row_matches(
                    #[trigger] out@[k],
                    rows@[start + (k - pinned)] as int,
                    start + (k - pinned),
                    cursor,
                    grid_cols as int,
                ),
        decreases end - j,
    {
        let m = fill_row(rows[j], cursor, j, grid_cols);
        out.push(m);
        j = j + 1;
    }
    out
}

/// Columns of the grid table: each rendered row holds a left margin, the
/// label, a one-column gap, the `grid_cols` grid cells and a right margin.
pub fn matrix_column_count(grid_cols: usize) -> (n: usize)
    requires
        grid_cols <= usize::MAX - 4,
    ensures
        n == grid_cols + 4,
{
    grid_cols + 4
}

} // verus!

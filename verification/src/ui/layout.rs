//! Screen layout decisions: grid width, cursor movement, scrolling and the
//! placement of the grid's viewport.
use vstd::prelude::*;

use super::populator::{
    display_rows, spec_pinned_rows, spec_selected_port, tables_ok, MIN_GRID_COLS,
};
use crate::kill::{target_text, KillPrompt, PromptView};
use crate::num::decimal;
use crate::ports::{opt_string_view, PortStatus, PORT_COUNT};

verus! {

/// Grid width policy: fit the terminal, or one of the power-of-two widths
/// (never wider than what fitting would give). Cycled by the `w` key.
#[derive(Clone, Copy, PartialEq, Eq, Structural, Debug)]
pub enum WidthMode {
    Auto,
    Fixed(usize),
}

impl Default for WidthMode {
    fn default() -> (m: Self)
        ensures
            m == WidthMode::Auto,
    {
        WidthMode::Auto
    }
}

/// The fixed widths, in cycling order.
pub open spec fn fixed_steps() -> Seq<usize> {
    seq![128usize, 256usize, 512usize, 1024usize]
}

/// The mode after `m`: Auto, then each fixed width in turn, then Auto again;
/// a fixed width outside the list goes back to Auto.
pub open spec fn next_width_mode(m: WidthMode) -> WidthMode {
    match m {
        WidthMode::Auto => WidthMode::Fixed(128),
        WidthMode::Fixed(c) => if c == 128 {
            WidthMode::Fixed(256)
        } else if c == 256 {
            WidthMode::Fixed(512)
        } else if c == 512 {
            WidthMode::Fixed(1024)
        } else {
            WidthMode::Auto
        },
    }
}

impl WidthMode {
    pub fn cycle(&mut self)
        ensures
            *final(self) == next_width_mode(*old(self)),
    {
        *self = match *self {
            WidthMode::Auto => WidthMode::Fixed(128),
            WidthMode::Fixed(current) => {
                if current == 128 {
                    WidthMode::Fixed(256)
                } else if current == 256 {
                    WidthMode::Fixed(512)
                } else if current == 512 {
                    WidthMode::Fixed(1024)
                } else {
                    WidthMode::Auto
                }
            },
        };
    }
}

/// Cycling five times from Auto or from any listed width comes back to
/// where it started, passing through every other listed mode on the way.
pub proof fn lemma_width_cycle(m: WidthMode)
    requires
        m == WidthMode::Auto || (m matches WidthMode::Fixed(c) && fixed_steps().contains(c)),
    ensures
        next_width_mode(next_width_mode(next_width_mode(next_width_mode(next_width_mode(m)))))
            == m,
{
    if let WidthMode::Fixed(c) = m {
        let k = choose|k: int| 0 <= k < 4 && fixed_steps()[k] == c;
        assert(k == 0 || k == 1 || k == 2 || k == 3);
    }
}

/// Selected cell: `col` is a column of the current grid, `row` a position
/// among the shown rows (closed rows are not shown).
#[derive(Clone, Copy, PartialEq, Eq, Structural, Debug)]
pub struct Cursor {
    pub row: usize,
    pub col: usize,
    /// Current grid width, refreshed each frame.
    pub grid_cols: usize,
}

impl Default for Cursor {
    fn default() -> (c: Self)
        ensures
            c == (Cursor { row: 0, col: 0, grid_cols: MIN_GRID_COLS }),
    {
        Cursor { row: 0, col: 0, grid_cols: MIN_GRID_COLS }
    }
}

impl Cursor {
    pub fn up(&mut self)
        ensures
            final(self).row == (if old(self).row > 0 {
                old(self).row - 1
            } else {
                0
            }),
            final(self).col == old(self).col,
            final(self).grid_cols == old(self).grid_cols,
    {
        self.row = self.row.saturating_sub(1);
    }

    /// One row down, stopping at the last shown row.
    pub fn down(&mut self, ports: &Vec<PortStatus>, ages: &[Option<u64>])
        requires
            tables_ok(ports@, ages@),
            old(self).grid_cols > 0,
            old(self).row < usize::MAX,
        ensures
            ({
                let max_row = display_rows(ports@, ages@, old(self).grid_cols as int).len() - 1;
                final(self).row == (if old(self).row + 1 < max_row {
                    old(self).row + 1
                } else {
                    max_row
                })
            }),
            final(self).col == old(self).col,
            final(self).grid_cols == old(self).grid_cols,
    {
        let count = super::populator::display_row_count(ports, ages, self.grid_cols);
        proof {
            super::populator::lemma_display_rows(ports@, ages@, self.grid_cols as int);
        }
        let max_row = count.saturating_sub(1);
        let next = self.row + 1;
        self.row = if next < max_row {
            next
        } else {
            max_row
        };
    }

    pub fn left(&mut self)
        ensures
            final(self).col == (if old(self).col > 0 {
                old(self).col - 1
            } else {
                0
            }),
            final(self).row == old(self).row,
            final(self).grid_cols == old(self).grid_cols,
    {
        self.col = self.col.saturating_sub(1);
    }

    /// One column right, stopping at the last grid column.
    pub fn right(&mut self)
        requires
            old(self).grid_cols > 0,
            old(self).col < usize::MAX,
        ensures
            final(self).col == (if old(self).col + 1 < old(self).grid_cols - 1 {
                old(self).col + 1
            } else {
                old(self).grid_cols - 1
            }),
            final(self).row == old(self).row,
            final(self).grid_cols == old(self).grid_cols,
    {
        let next = self.col + 1;
        let last = self.grid_cols - 1;
        self.col = if next < last {
            next
        } else {
            last
        };
    }
}

/// Port, pid and process under the cursor, for the kill flow to act on.
pub fn selected_port_info(ports: &Vec<PortStatus>, ages: &[Option<u64>], cursor: Cursor) -> (r: (
    u16,
    Option<u32>,
    Option<String>,
))
    requires
        tables_ok(ports@, ages@),
        cursor.grid_cols > 0,
        cursor.col <= usize::MAX - PORT_COUNT,
    ensures
        ({
            let p = spec_selected_port(ports@, ages@, cursor, cursor.grid_cols as int);
            &&& r.0 == p
            &&& r.1 == ports@[p].pid
            &&& r.2 == ports@[p].process
        }),
{
    let port = super::populator::selected_port(ports, ages, cursor, cursor.grid_cols);
    (port as u16, ports[port].pid, crate::ports::clone_opt_string(&ports[port].process))
}

pub open spec fn spec_scroll_offset(cursor_row: int, visible_rows: int, total_rows: int) -> int {
    if visible_rows >= total_rows {
        0
    } else {
        let half = visible_rows / 2;
        let up = if cursor_row > half {
            cursor_row - half
        } else {
            0
        };
        if up < total_rows - visible_rows {
            up
        } else {
            total_rows - visible_rows
        }
    }
}

/// First row of a viewport of `visible_rows` rows that keeps `cursor_row`
/// roughly centered, never scrolling past the top or the bottom.
pub fn scroll_offset(cursor_row: usize, visible_rows: usize, total_rows: usize) -> (o: usize)
    ensures
        o == spec_scroll_offset(cursor_row as int, visible_rows as int, total_rows as int),
{
    if visible_rows >= total_rows {
        return 0;
    }
    let half = visible_rows / 2;
    let up = cursor_row.saturating_sub(half);
    if up < total_rows - visible_rows {
        up
    } else {
        total_rows - visible_rows
    }
}

/// The viewport never runs past the last row, and a cursor on one of the
/// rows stays inside the viewport.
pub proof fn lemma_scroll_keeps_cursor(cursor_row: int, visible_rows: int, total_rows: int)
    requires
        0 <= cursor_row < total_rows,
        visible_rows >= 1,
    ensures
        ({
            let o = spec_scroll_offset(cursor_row, visible_rows, total_rows);
            &&& 0 <= o
            &&& visible_rows < total_rows ==> o + visible_rows <= total_rows
            &&& o <= cursor_row < o + visible_rows
        }),
{
}

/// Columns needed for the narrowest grid: the label column, the minimum
/// grid columns and a one-column right margin.
pub const MIN_WIDTH: u16 = 76;

/// Height of the active-ports panel: two borders, a header and seven rows.
pub const PANEL_HEIGHT: u16 = 10;

/// Height of the legend box: two borders and a line.
pub const LEGEND_HEIGHT: u16 = 3;

/// Smallest usable height: the grid's border and one row, the panel and
/// the legend.
pub const MIN_HEIGHT: u16 = 16;

/// The terminal is large enough to draw the grid.
pub fn fits(width: u16, height: u16) -> (b: bool)
    ensures
        b == (width >= MIN_WIDTH && height >= MIN_HEIGHT),
{
    width >= MIN_WIDTH && height >= MIN_HEIGHT
}

/// The grid's placement for one frame.
#[derive(Clone, Copy, PartialEq, Eq, Structural, Debug)]
pub struct GridPlan {
    pub grid_cols: usize,
    /// Rows of the viewport, pinned head included.
    pub visible_rows: usize,
    /// Rows the scrolled body starts past the pinned head.
    pub body_offset: usize,
}

pub open spec fn spec_plan_cols(area_width: u16, mode: WidthMode) -> usize {
    let auto = super::populator::spec_grid_cols(area_width);
    match mode {
        WidthMode::Auto => auto,
        WidthMode::Fixed(c) => if c < auto {
            c
        } else {
            auto
        },
    }
}

/// A width mode the grid can be drawn with.
pub open spec fn mode_ok(mode: WidthMode) -> bool {
    mode matches WidthMode::Fixed(c) ==> c > 0
}

pub open spec fn sat_sub(a: int, b: int) -> int {
    if a > b {
        a - b
    } else {
        0
    }
}

pub open spec fn min(a: int, b: int) -> int {
    if a < b {
        a
    } else {
        b
    }
}

/// Everything a frame decides about the grid: its width (fitted, or the
/// fixed width when that fits), the cursor pulled back onto the grid and
/// the shown rows, a viewport of the matrix area's inner height (at least
/// one row, at most every shown row), and a body scroll that keeps the
/// cursor's row near the middle of what remains under the pinned head.
pub open spec fn plan_matches(
    plan: GridPlan,
    old_cursor: Cursor,
    new_cursor: Cursor,
    area_width: u16,
    matrix_height: u16,
    mode: WidthMode,
    ports: Seq<PortStatus>,
    ages: Seq<Option<u64>>,
) -> bool {
    let cols = spec_plan_cols(area_width, mode);
    let total = display_rows(ports, ages, cols as int).len() as int;
    let row = min(old_cursor.row as int, sat_sub(total, 1));
    let inner = sat_sub(matrix_height as int, 2);
    let visible = if inner < 1 {
        1
    } else if inner > (if total > 1 {
        total
    } else {
        1
    }) {
        if total > 1 {
            total
        } else {
            1
        }
    } else {
        inner
    };
    let pinned = super::populator::min3(spec_pinned_rows(cols as int), visible, total);
    &&& plan.grid_cols == cols
    &&& new_cursor.grid_cols == cols
    &&& new_cursor.col == min(old_cursor.col as int, sat_sub(cols as int, 1))
    &&& new_cursor.row == row
    &&& plan.visible_rows == visible
    &&& plan.body_offset == spec_scroll_offset(sat_sub(row, pinned), visible - pinned, total - pinned)
}

/// Lays out the grid for a frame of width `area_width` whose matrix area is
/// `matrix_height` rows tall, and pulls the cursor back onto the grid.
#[verifier::rlimit(40)]
pub fn plan_grid(
    area_width: u16,
    matrix_height: u16,
    mode: WidthMode,
    cursor: &mut Cursor,
    ports: &Vec<PortStatus>,
    ages: &[Option<u64>],
) -> (plan: GridPlan)
    requires
        tables_ok(ports@, ages@),
        mode_ok(mode),
    ensures
        plan_matches(plan, *old(cursor), *final(cursor), area_width, matrix_height, mode, ports@, ages@),
        plan.grid_cols > 0,
{
    let auto = super::populator::grid_cols(area_width);
    let cols = match mode {
        WidthMode::Auto => auto,
        WidthMode::Fixed(c) => if c < auto {
            c
        } else {
            auto
        },
    };
    cursor.grid_cols = cols;
    let last_col = cols.saturating_sub(1);
    cursor.col = if cursor.col < last_col {
        cursor.col
    } else {
        last_col
    };
    assert(cols == spec_plan_cols(area_width, mode));
    let total = super::populator::display_row_count(ports, ages, cols);
    let ghost gtotal = display_rows(ports@, ages@, cols as int).len() as int;
    assert(total == gtotal);
    let last_row = total.saturating_sub(1);
    cursor.row = if cursor.row < last_row {
        cursor.row
    } else {
        last_row
    };
    let inner = matrix_height.saturating_sub(2) as usize;
    let cap = if total > 1 {
        total
    } else {
        1
    };
    let visible = if inner < 1 {
        1
    } else if inner > cap {
        cap
    } else {
        inner
    };
    let pr = super::populator::pinned_rows(cols);
    let a = if pr < visible {
        pr
    } else {
        visible
    };
    let pinned = if a < total {
        a
    } else {
        total
    };
    let body_capacity = visible - pinned;
    let body_total = total - pinned;
    let body_cursor = cursor.row.saturating_sub(pinned);
    let body_offset = scroll_offset(body_cursor, body_capacity, body_total);
    assert(pinned == super::populator::min3(spec_pinned_rows(cols as int), visible as int, gtotal));
    GridPlan { grid_cols: cols, visible_rows: visible, body_offset }
}

/// Plans a frame of a `width` by `height` terminal whose matrix area is
/// `matrix_height` rows tall. A terminal too small for the grid gets no plan,
/// and the cursor is left as it was.
pub fn plan_frame(
    width: u16,
    height: u16,
    matrix_height: u16,
    mode: WidthMode,
    cursor: &mut Cursor,
    ports: &Vec<PortStatus>,
    ages: &[Option<u64>],
) -> (plan: Option<GridPlan>)
    requires
        tables_ok(ports@, ages@),
        mode_ok(mode),
    ensures
        plan is None <==> !(width >= MIN_WIDTH && height >= MIN_HEIGHT),
        plan is None ==> *final(cursor) == *old(cursor),
        plan is Some ==> plan_matches(
            plan.unwrap(),
            *old(cursor),
            *final(cursor),
            width,
            matrix_height,
            mode,
            ports@,
            ages@,
        ) && plan.unwrap().grid_cols > 0,
{
    if !fits(width, height) {
        return None;
    }
    Some(plan_grid(width, matrix_height, mode, cursor, ports, ages))
}

/// After planning, a cursor row past the pinned head lies inside the
/// scrolled body whenever the body has room for a row.
pub proof fn lemma_plan_keeps_cursor_visible(row: int, visible: int, total: int, pinned: int)
    requires
        0 <= pinned <= visible,
        pinned <= total,
        0 <= row < total,
        row >= pinned,
        visible - pinned >= 1,
    ensures
        ({
            let o = spec_scroll_offset(row - pinned, visible - pinned, total - pinned);
            pinned + o <= row < pinned + o + (visible - pinned)
        }),
{
    lemma_scroll_keeps_cursor(row - pinned, visible - pinned, total - pinned);
}

/// A screen rectangle.
#[derive(Clone, Copy, PartialEq, Eq, Structural, Debug)]
pub struct Rect {
    pub x: u16,
    pub y: u16,
    pub width: u16,
    pub height: u16,
}

/// A rectangle that ends on the screen.
pub open spec fn rect_ok(r: Rect) -> bool {
    r.x + r.width <= u16::MAX && r.y + r.height <= u16::MAX
}

pub open spec fn spec_centered_rect(area: Rect, width: u16, height: u16) -> Rect {
    let w = min(width as int, area.width as int);
    let h = min(height as int, area.height as int);
    Rect {
        x: (area.x + (area.width - w) / 2) as u16,
        y: (area.y + (area.height - h) / 2) as u16,
        width: w as u16,
        height: h as u16,
    }
}

/// A `width` x `height` rectangle centered in `area`, cut to fit.
pub fn centered_rect(area: Rect, width: u16, height: u16) -> (r: Rect)
    requires
        rect_ok(area),
    ensures
        r == spec_centered_rect(area, width, height),
        rect_ok(r),
        area.x <= r.x && r.x + r.width <= area.x + area.width,
        area.y <= r.y && r.y + r.height <= area.y + area.height,
{
    let w = if width < area.width {
        width
    } else {
        area.width
    };
    let h = if height < area.height {
        height
    } else {
        area.height
    };
    Rect { x: area.x + (area.width - w) / 2, y: area.y + (area.height - h) / 2, width: w, height: h }
}

/// Text of the kill popup; none while no prompt shows.
pub open spec fn spec_prompt_text(p: PromptView) -> Option<Seq<char>> {
    match p {
        PromptView::Idle => None,
        PromptView::ConfirmTerm(t) => Some("send SIGTERM to "@ + target_text(t) + "?   y/n"@),
        PromptView::WaitingForExit { target, .. } => Some(
            "waiting for "@ + target_text(target) + " to exit..."@,
        ),
        PromptView::ConfirmKill(t) => Some(
            target_text(t) + " is still running. send SIGKILL?   y/n"@,
        ),
        PromptView::Message(m) => Some(m + "   (press any key)"@),
    }
}

pub fn prompt_text(kill_prompt: &KillPrompt) -> (r: Option<String>)
    ensures
        opt_string_view(r) == spec_prompt_text(kill_prompt@),
{
    match kill_prompt {
        KillPrompt::Idle => None,
        KillPrompt::ConfirmTerm(t) => {
            let mut s = String::from_str("send SIGTERM to ");
            crate::kill::push_target(&mut s, t);
            crate::text::push_str(&mut s, "?   y/n");
            Some(s)
        },
        KillPrompt::WaitingForExit { target, .. } => {
            let mut s = String::from_str("waiting for ");
            crate::kill::push_target(&mut s, target);
            crate::text::push_str(&mut s, " to exit...");
            Some(s)
        },
        KillPrompt::ConfirmKill(t) => {
            let mut s = String::new();
            crate::kill::push_target(&mut s, t);
            crate::text::push_str(&mut s, " is still running. send SIGKILL?   y/n");
            assert(s@ =~= target_text(t@) + " is still running. send SIGKILL?   y/n"@);
            Some(s)
        },
        KillPrompt::Message(m) => {
            let mut s = m.clone();
            crate::text::push_str(&mut s, "   (press any key)");
            Some(s)
        },
    }
}

/// The kill popup's box: the text's width in bytes (as a terminal column
/// count) plus borders and padding, three rows tall, centered in `area`.
pub fn popup_rect(area: Rect, text_len: usize) -> (r: Rect)
    requires
        rect_ok(area),
        (text_len as u16) <= u16::MAX - 4,
    ensures
        r == spec_centered_rect(area, ((text_len as u16) + 4) as u16, 3),
{
    centered_rect(area, text_len as u16 + 4, 3)
}

/// The lines shown when the terminal is too small.
pub open spec fn spec_too_small_lines(width: u16, height: u16) -> Seq<Seq<char>> {
    seq![
        "terminal too small"@,
        "need at least "@ + decimal(MIN_WIDTH as nat) + " columns x "@ + decimal(
            MIN_HEIGHT as nat,
        ) + " rows to show the grid"@,
        "current size: "@ + decimal(width as nat) + "x"@ + decimal(height as nat),
    ]
}

pub fn too_small_lines(width: u16, height: u16) -> (lines: Vec<String>)
    ensures
        lines@.len() == 3,
        forall|i: int| 0 <= i < 3 ==> (#[trigger] lines@[i])@ == spec_too_small_lines(width, height)[i],
{
    let first = String::from_str("terminal too small");
    let mut second = String::from_str("need at least ");
    crate::num::push_decimal(&mut second, MIN_WIDTH as u64);
    crate::text::push_str(&mut second, " columns x ");
    crate::num::push_decimal(&mut second, MIN_HEIGHT as u64);
    crate::text::push_str(&mut second, " rows to show the grid");
    let mut third = String::from_str("current size: ");
    crate::num::push_decimal(&mut third, width as u64);
    crate::text::push_str(&mut third, "x");
    crate::num::push_decimal(&mut third, height as u64);
    let mut lines: Vec<String> = Vec::new();
    lines.push(first);
    lines.push(second);
    lines.push(third);
    lines
}

/// "N cols ", the legend's width note.
pub fn width_label(grid_cols: usize) -> (s: String)
    ensures
        s@ == decimal(grid_cols as nat) + " cols "@,
{
    let mut s = String::new();
    crate::num::push_decimal(&mut s, grid_cols as u64);
    crate::text::push_str(&mut s, " cols ");
    assert(s@ =~= decimal(grid_cols as nat) + " cols "@);
    s
}

/// The cursor's row is among the rendered rows: once a frame is planned,
/// drawing the matrix with that plan includes the row at the cursor's
/// display position, whenever that row is in the pinned head or the
/// viewport has room below the head.
pub proof fn lemma_cursor_row_rendered(
    plan: GridPlan,
    old_cursor: Cursor,
    cursor: Cursor,
    area_width: u16,
    matrix_height: u16,
    mode: WidthMode,
    ports: Seq<PortStatus>,
    ages: Seq<Option<u64>>,
    out: Seq<super::populator::MatrixRow>,
)
    requires
        plan_matches(plan, old_cursor, cursor, area_width, matrix_height, mode, ports, ages),
        plan.grid_cols > 0,
        super::populator::matrix_spec(
            out,
            ports,
            ages,
            cursor,
            plan.body_offset as int,
            plan.visible_rows as int,
            plan.grid_cols as int,
        ),
        ({
            let total = display_rows(ports, ages, plan.grid_cols as int).len() as int;
            let pinned = super::populator::shown_pinned(
                plan.visible_rows as int,
                total,
                plan.grid_cols as int,
            );
            cursor.row < pinned || plan.visible_rows > pinned
        }),
    ensures
        exists|i: int| 0 <= i < out.len() && (#[trigger] out[i]).display_idx == cursor.row,
{
    let cols = plan.grid_cols as int;
    let rows = display_rows(ports, ages, cols);
    let total = rows.len() as int;
    let visible = plan.visible_rows as int;
    super::populator::lemma_display_rows(ports, ages, cols);
    let pinned = super::populator::shown_pinned(visible, total, cols);
    let row = cursor.row as int;
    if row < pinned {
        assert(out[row].display_idx == row);
    } else {
        lemma_plan_keeps_cursor_visible(row, visible, total, pinned);
        let o = plan.body_offset as int;
        let start = super::populator::body_start(o, visible, total, cols);
        assert(start == pinned + o);
        let i = pinned + (row - start);
        assert(out[i].display_idx == start + (i - pinned));
    }
}

} // verus!

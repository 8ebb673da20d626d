use portx::kill::{KillPrompt, Target};
use portx::ports::{empty_table, PORT_COUNT};
use portx::ui::layout::{
    centered_rect, fits, plan_frame, plan_grid, popup_rect, prompt_text, scroll_offset, selected_port_info,
    too_small_lines, width_label, Cursor, Rect, WidthMode,
};

#[test]
fn width_mode_cycles_through_fixed_widths() {
    let mut m = WidthMode::default();
    let mut seen = vec![m];
    for _ in 0..5 {
        m.cycle();
        seen.push(m);
    }
    assert_eq!(
        seen,
        vec![
            WidthMode::Auto,
            WidthMode::Fixed(128),
            WidthMode::Fixed(256),
            WidthMode::Fixed(512),
            WidthMode::Fixed(1024),
            WidthMode::Auto
        ]
    );
    let mut odd = WidthMode::Fixed(100);
    odd.cycle();
    assert_eq!(odd, WidthMode::Auto);
}

#[test]
fn cursor_moves_stop_at_edges() {
    let t = empty_table();
    let ages = vec![None; PORT_COUNT];
    let mut c = Cursor::default();
    assert_eq!(c, Cursor { row: 0, col: 0, grid_cols: 64 });
    c.up();
    c.left();
    assert_eq!((c.row, c.col), (0, 0));
    for _ in 0..100 {
        c.right();
        c.down(&t, &ages);
    }
    assert_eq!((c.row, c.col), (15, 63));
    c.up();
    c.left();
    assert_eq!((c.row, c.col), (14, 62));
}

#[test]
fn selected_port_info_reads_the_cell() {
    let mut t = empty_table();
    t[3].pid = Some(77);
    t[3].process = Some("x (77)".to_string());
    let ages = vec![None; PORT_COUNT];
    let c = Cursor { row: 0, col: 3, grid_cols: 64 };
    assert_eq!(selected_port_info(&t, &ages, c), (3, Some(77), Some("x (77)".to_string())));
}

#[test]
fn scroll_offset_centers_and_clamps() {
    assert_eq!(scroll_offset(5, 10, 8), 0);
    assert_eq!(scroll_offset(3, 10, 100), 0);
    assert_eq!(scroll_offset(50, 10, 100), 45);
    assert_eq!(scroll_offset(99, 10, 100), 90);
}

#[test]
fn too_small_terminal_is_detected() {
    assert!(fits(76, 16));
    assert!(!fits(75, 16));
    assert!(!fits(200, 15));
    assert_eq!(
        too_small_lines(40, 10),
        vec![
            "terminal too small".to_string(),
            "need at least 76 columns x 16 rows to show the grid".to_string(),
            "current size: 40x10".to_string()
        ]
    );
}

#[test]
fn plan_fits_grid_and_clamps_cursor() {
    let t = empty_table();
    let ages = vec![None; PORT_COUNT];
    let mut c = Cursor { row: 500, col: 500, grid_cols: 64 };
    let plan = plan_grid(140, 12, WidthMode::Auto, &mut c, &t, &ages);
    assert_eq!(plan.grid_cols, 128);
    assert_eq!(c.grid_cols, 128);
    assert_eq!(c.col, 127);
    assert_eq!(c.row, 7);
    assert_eq!(plan.visible_rows, 8);
    assert_eq!(plan.body_offset, 0);
    let mut c2 = Cursor { row: 0, col: 0, grid_cols: 64 };
    let fixed = plan_grid(140, 12, WidthMode::Fixed(1024), &mut c2, &t, &ages);
    assert_eq!(fixed.grid_cols, 128);
    let narrow = plan_grid(300, 3, WidthMode::Fixed(128), &mut c2, &t, &ages);
    assert_eq!(narrow.grid_cols, 128);
    assert_eq!(narrow.visible_rows, 1);
}

#[test]
fn plan_scrolls_body_to_cursor() {
    let mut t = empty_table();
    for p in (2048..65536).step_by(1024) {
        t[p].tcp_listen = true;
    }
    let ages = vec![None; PORT_COUNT];
    let mut c = Cursor { row: 40, col: 0, grid_cols: 1024 };
    let plan = plan_grid(2000, 12, WidthMode::Auto, &mut c, &t, &ages);
    assert_eq!(plan.grid_cols, 1024);
    assert_eq!(plan.visible_rows, 10);
    assert_eq!(plan.body_offset, 35);
}

#[test]
fn rectangles_center_and_shrink() {
    let area = Rect { x: 0, y: 0, width: 100, height: 40 };
    assert_eq!(centered_rect(area, 20, 3), Rect { x: 40, y: 18, width: 20, height: 3 });
    assert_eq!(centered_rect(area, 200, 50), area);
    assert_eq!(popup_rect(area, 10), Rect { x: 43, y: 18, width: 14, height: 3 });
}

#[test]
fn prompt_texts() {
    let t = Target { port: 22, pid: 1, process: "sshd (1)".to_string() };
    assert_eq!(prompt_text(&KillPrompt::Idle), None);
    assert_eq!(
        prompt_text(&KillPrompt::ConfirmTerm(t.clone())).unwrap(),
        "send SIGTERM to sshd (1) (pid 1)?   y/n"
    );
    assert_eq!(
        prompt_text(&KillPrompt::WaitingForExit { target: t.clone(), sent_at: 0 }).unwrap(),
        "waiting for sshd (1) (pid 1) to exit..."
    );
    assert_eq!(
        prompt_text(&KillPrompt::ConfirmKill(t)).unwrap(),
        "sshd (1) (pid 1) is still running. send SIGKILL?   y/n"
    );
    assert_eq!(
        prompt_text(&KillPrompt::Message("done".to_string())).unwrap(),
        "done   (press any key)"
    );
}

#[test]
fn legend_width_label() {
    assert_eq!(width_label(128), "128 cols ");
}

#[test]
fn scrolling_always_keeps_the_cursor_in_view() {
    for total in 1..40usize {
        for visible in 1..12usize {
            for row in 0..total {
                let o = scroll_offset(row, visible, total);
                assert!(o <= row && row < o + visible);
                if visible < total {
                    assert!(o + visible <= total);
                }
            }
        }
    }
}

#[test]
fn planned_frame_renders_the_cursor_row() {
    let mut t = empty_table();
    for p in (2048..65536).step_by(512) {
        t[p].udp_active = true;
    }
    let ages = vec![None; PORT_COUNT];
    for start_row in [0usize, 3, 50, 120, 500] {
        let mut c = Cursor { row: start_row, col: 7, grid_cols: 64 };
        let plan = plan_grid(1100, 20, WidthMode::Fixed(512), &mut c, &t, &ages);
        let rows = portx::ui::populator::ports_matrix(
            &t,
            c,
            plan.body_offset,
            plan.visible_rows,
            &ages,
            plan.grid_cols,
        );
        assert_eq!(rows.len(), plan.visible_rows);
        let shown = rows.iter().find(|r| r.display_idx == c.row).expect("cursor row drawn");
        assert_eq!(shown.cells[c.col], portx::ui::populator::GridCell::Cursor);
    }
}

#[test]
fn small_terminal_gets_no_plan_and_keeps_the_cursor() {
    let t = empty_table();
    let ages = vec![None; PORT_COUNT];
    let start = Cursor { row: 500, col: 500, grid_cols: 64 };
    let mut c = start;
    assert_eq!(plan_frame(50, 40, 20, WidthMode::Auto, &mut c, &t, &ages), None);
    assert_eq!(c, start);
    assert_eq!(plan_frame(140, 10, 20, WidthMode::Auto, &mut c, &t, &ages), None);
    assert_eq!(c, start);
    let plan = plan_frame(140, 40, 12, WidthMode::Auto, &mut c, &t, &ages).unwrap();
    assert_eq!(plan.grid_cols, 128);
    assert_eq!(plan.visible_rows, 8);
    assert_eq!((c.row, c.col, c.grid_cols), (7, 127, 128));
}

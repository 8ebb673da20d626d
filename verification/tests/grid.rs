use portx::ports::{empty_table, PortTable, PORT_COUNT};
use portx::ui::layout::Cursor;
use portx::ui::populator::{
    build_display_rows, display_row_count, grid_cols, grid_rows, is_flashing, pinned_rows,
    ports_matrix, selected_port, shows_global_bind, GridCell,
};

fn quiet() -> (PortTable, Vec<Option<u64>>) {
    (empty_table(), vec![None; PORT_COUNT])
}

#[test]
fn grid_cols_fill_the_width_within_bounds() {
    assert_eq!(grid_cols(0), 64);
    assert_eq!(grid_cols(76), 64);
    assert_eq!(grid_cols(140), 128);
    assert_eq!(grid_cols(2000), 1024);
}

#[test]
fn grid_rows_and_pinned_rows_round_up() {
    assert_eq!(grid_rows(64), 1024);
    assert_eq!(grid_rows(100), 656);
    assert_eq!(pinned_rows(64), 16);
    assert_eq!(pinned_rows(100), 11);
    assert_eq!(pinned_rows(1024), 1);
}

#[test]
fn flashing_lasts_two_seconds() {
    assert!(is_flashing(Some(0)));
    assert!(is_flashing(Some(1999)));
    assert!(!is_flashing(Some(2000)));
    assert!(!is_flashing(None));
}

#[test]
fn quiet_table_shows_only_pinned_rows() {
    let (t, ages) = quiet();
    assert_eq!(build_display_rows(&t, &ages, 64), (0..16).collect::<Vec<usize>>());
    assert_eq!(display_row_count(&t, &ages, 64), 16);
}

#[test]
fn an_active_port_shows_its_row() {
    let (mut t, ages) = quiet();
    t[5432].tcp_listen = true;
    assert_eq!(display_row_count(&t, &ages, 64), 17);
    assert_eq!(build_display_rows(&t, &ages, 64)[16], 5432 / 64);
}

#[test]
fn a_flashing_port_keeps_its_row() {
    let (t, mut ages) = quiet();
    ages[40000] = Some(500);
    let rows = build_display_rows(&t, &ages, 128);
    assert_eq!(rows.len(), 9);
    assert_eq!(rows[8], 40000 / 128);
    ages[40000] = Some(2500);
    assert_eq!(display_row_count(&t, &ages, 128), 8);
}

#[test]
fn selected_port_follows_the_shown_rows() {
    let (mut t, ages) = quiet();
    t[5432].tcp_listen = true;
    let c = Cursor { row: 16, col: 5432 % 64, grid_cols: 64 };
    assert_eq!(selected_port(&t, &ages, c, 64), 5432);
    let past = Cursor { row: 99, col: 0, grid_cols: 64 };
    assert_eq!(selected_port(&t, &ages, past, 64), (5432 / 64) * 64);
    let top = Cursor { row: 0, col: 5, grid_cols: 64 };
    assert_eq!(selected_port(&t, &ages, top, 64), 5);
}

#[test]
fn selected_port_is_clamped_to_the_last_port() {
    let (mut t, ages) = quiet();
    t[65535].udp_active = true;
    let c = Cursor { row: 99, col: 99, grid_cols: 100 };
    assert_eq!(selected_port(&t, &ages, c, 100), 65535);
}

#[test]
fn matrix_pins_head_and_scrolls_body() {
    let (mut t, ages) = quiet();
    t[5000].tcp_listen = true;
    t[6000].tcp_listen = true;
    t[7000].tcp_listen = true;
    let cursor = Cursor { row: 0, col: 0, grid_cols: 1024 };
    let rows = ports_matrix(&t, cursor, 1, 2, &ages, 1024);
    assert_eq!(rows.len(), 2);
    assert_eq!(rows[0].grid_row, 0);
    assert_eq!(rows[0].display_idx, 0);
    assert_eq!(rows[1].grid_row, 6000 / 1024);
    assert_eq!(rows[1].display_idx, 2);
    assert_eq!(rows[1].range_start, 5 * 1024);
    assert_eq!(rows[1].range_end, 6 * 1024 - 1);
    assert_eq!(rows[0].cells.len(), 1024);
    assert_eq!(rows[0].cells[0], GridCell::Cursor);
    assert_eq!(rows[0].cells[1], GridCell::Port(1));
}

#[test]
fn partial_last_row_has_blank_cells() {
    let (mut t, ages) = quiet();
    t[65535].tcp_listen = true;
    let cursor = Cursor { row: 50, col: 0, grid_cols: 100 };
    let rows = ports_matrix(&t, cursor, 0, 40, &ages, 100);
    let last = rows.last().unwrap();
    assert_eq!(last.grid_row, 655);
    assert_eq!(last.range_end, 65535);
    assert_eq!(last.cells[35], GridCell::Port(65535));
    assert_eq!(last.cells[36], GridCell::Blank);
    assert_eq!(last.cells[99], GridCell::Blank);
}

#[test]
fn row_labels_name_the_first_and_last_port() {
    let (t, ages) = quiet();
    let cursor = Cursor { row: 0, col: 0, grid_cols: 100 };
    let rows = ports_matrix(&t, cursor, 0, 11, &ages, 100);
    assert_eq!(rows[0].label(), "0-99");
    assert_eq!(rows[1].label(), "100-199");
    let (mut t2, ages2) = quiet();
    t2[65535].udp_active = true;
    let tail = ports_matrix(&t2, Cursor { row: 0, col: 0, grid_cols: 1024 }, 0, 2, &ages2, 1024);
    assert_eq!(tail.last().unwrap().label(), "64512-65535");
}

#[test]
fn global_bind_shows_only_on_listening_or_udp_ports() {
    let (mut t, _) = quiet();
    t[1].bind_global = true;
    assert!(!shows_global_bind(&t[1]));
    t[1].tcp_listen = true;
    assert!(shows_global_bind(&t[1]));
    t[2].bind_global = true;
    t[2].udp_active = true;
    assert!(shows_global_bind(&t[2]));
    t[3].tcp_listen = true;
    assert!(!shows_global_bind(&t[3]));
    t[4].bind_global = true;
    t[4].tcp_established = true;
    assert!(!shows_global_bind(&t[4]));
}

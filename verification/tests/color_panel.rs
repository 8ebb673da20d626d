use portx::ports::{empty_table, PortStatus, Protocol, TcpState};
use portx::service::ports::{place_colors, ports_matrix};
use portx::ui::populator::matrix_column_count;
use portx::ui::color::{
    established, hue_of_hash, listening, process_hue, status_color, status_label_full, Color,
};
use portx::ui::panel::{active_entries, rows, selected_index};
use portx::ui::table::{widths_constraints, Width};

fn status() -> PortStatus {
    empty_table().swap_remove(0)
}

#[test]
fn status_colors_rank_established_first() {
    let mut s = status();
    assert_eq!(status_color(&s, false), Color::Rgb(40, 40, 40));
    assert_eq!(status_color(&s, true), Color::Rgb(60, 60, 60));
    s.udp_active = true;
    assert_eq!(status_color(&s, true), Color::Rgb(0, 120, 220));
    s.tcp_listen = true;
    assert_eq!(status_color(&s, true), listening());
    s.tcp_established = true;
    assert_eq!(status_color(&s, true), established());
}

#[test]
fn full_status_labels() {
    let mut s = status();
    assert_eq!(status_label_full(&s), "closed");
    s.udp_active = true;
    assert_eq!(status_label_full(&s), "udp");
    s.protocol = Protocol::Tcp;
    s.tcp_state = TcpState::TimeWait;
    assert_eq!(status_label_full(&s), "time_wait");
}

#[test]
fn process_hue_ignores_pid_and_avoids_status_hues() {
    let a = process_hue(Some("chrome (100)"));
    let b = process_hue(Some("chrome (200)"));
    assert_eq!(a, b);
    assert!(a.is_some());
    assert_eq!(process_hue(None), None);
    for h in [0u64, 1, 107, 108, 160, 161, u64::MAX] {
        let hue = hue_of_hash(h);
        assert!((74..182).contains(&hue) || (331..360).contains(&hue) || hue < 24);
    }
    assert_eq!(hue_of_hash(0), 74);
    assert_eq!(hue_of_hash(108), 331);
    assert_eq!(hue_of_hash(160), 23);
}

#[test]
fn process_hue_is_the_fnv1a_hue_of_the_name() {
    fn fnv(s: &str) -> u64 {
        let mut h: u64 = 0xcbf29ce484222325;
        for b in s.as_bytes() {
            h ^= *b as u64;
            h = h.wrapping_mul(0x100000001b3);
        }
        h
    }
    assert_eq!(process_hue(Some("nginx (12)")), Some(hue_of_hash(fnv("nginx"))));
    assert_eq!(process_hue(Some("plain")), Some(hue_of_hash(fnv("plain"))));
    assert_eq!(process_hue(Some("a (b) (c)")), Some(hue_of_hash(fnv("a (b)"))));
}

#[test]
fn panel_lists_active_ports_in_order() {
    let mut t = empty_table();
    t[8080].tcp_listen = true;
    t[8080].protocol = Protocol::Tcp;
    t[8080].tcp_state = TcpState::Listen;
    t[8080].bind_global = true;
    t[8080].process = Some("web (5)".to_string());
    t[8080].direction = portx::ports::Direction::Inbound;
    t[53].udp_active = true;
    t[53].protocol = Protocol::Udp;
    t[53].owner = Some("root".to_string());
    let e = active_entries(&t);
    assert_eq!(e.iter().map(|x| x.port).collect::<Vec<_>>(), vec![53, 8080]);
    assert_eq!(selected_index(&e, 8080), Some(1));
    assert_eq!(selected_index(&e, 22), None);
    let r = rows(&e);
    assert_eq!(r[0].port, "53");
    assert_eq!(r[0].proto, "udp");
    assert_eq!(r[0].state, "udp");
    assert_eq!(r[0].scope, "local");
    assert_eq!(r[0].dir, "-");
    assert_eq!(r[0].process, "unknown");
    assert_eq!(r[0].owner, "root");
    assert_eq!(r[0].remote, "");
    assert_eq!(r[0].state_color, Color::Rgb(0, 120, 220));
    assert_eq!(r[1].state, "listen");
    assert_eq!(r[1].scope, "global");
    assert_eq!(r[1].process, "web (5)");
    assert_eq!(r[1].dir, "in");
}

#[test]
fn grid_table_widths() {
    assert_eq!(
        widths_constraints(5, 11),
        vec![Width::Fill(1), Width::Length(11), Width::Length(1), Width::Length(1), Width::Fill(1)]
    );
    assert_eq!(widths_constraints(1, 11), vec![Width::Fill(1)]);
    assert_eq!(widths_constraints(0, 11), vec![]);
}

#[test]
fn random_matrix_keeps_margins_blank() {
    let m = ports_matrix(6);
    assert_eq!(m.len(), 6);
    for row in &m {
        assert_eq!(row.len(), 6);
        assert!(row[0].is_none() && row[5].is_none());
        for cell in &row[1..5] {
            let (r, g, b) = cell.unwrap();
            assert!(r < 255 && g < 255 && b < 255);
        }
    }
    let flat: Vec<_> = m.iter().flat_map(|r| r[1..5].iter().copied()).collect();
    assert!(flat.iter().any(|c| c != &flat[0]));
}

#[test]
fn drawn_colors_fill_the_interior_in_order() {
    let draws = vec![(1, 2, 3), (4, 5, 6), (7, 8, 9)];
    assert_eq!(
        place_colors(5, &draws),
        vec![None, Some((1, 2, 3)), Some((4, 5, 6)), Some((7, 8, 9)), None]
    );
    assert_eq!(place_colors(2, &vec![]), vec![None, None]);
    assert_eq!(place_colors(1, &vec![]), vec![None]);
}

#[test]
fn grid_table_has_a_width_per_cell() {
    assert_eq!(matrix_column_count(128), 132);
    let w = widths_constraints(matrix_column_count(64), 11);
    assert_eq!(w.len(), 68);
    assert_eq!(w[2], Width::Length(1));
    assert_eq!(w[67], Width::Fill(1));
}

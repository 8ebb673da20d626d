use portx::events::{handle_key, handle_prompt_key, selected_target, Action, Key};
use portx::kill::{KillPrompt, Signal, Target};
use portx::ports::{empty_table, PORT_COUNT};
use portx::ui::layout::{Cursor, WidthMode};

fn target() -> Target {
    Target { port: 5432, pid: 900, process: "postgres (900)".to_string() }
}

fn message(p: &KillPrompt) -> Option<&str> {
    match p {
        KillPrompt::Message(m) => Some(m.as_str()),
        _ => None,
    }
}

#[test]
fn request_then_confirm_waits_for_exit() {
    let mut p = KillPrompt::default();
    assert!(matches!(p, KillPrompt::Idle));
    p.request(target());
    assert_eq!(p.pending_signal(), Some((Signal::Term, 900)));
    p.confirm(Ok(()), 1000);
    match &p {
        KillPrompt::WaitingForExit { target, sent_at } => {
            assert_eq!(target.pid, 900);
            assert_eq!(*sent_at, 1000);
        }
        _ => panic!("expected waiting"),
    }
    assert_eq!(p.pending_signal(), None);
}

#[test]
fn failed_sigterm_reports_the_error() {
    let mut p = KillPrompt::ConfirmTerm(target());
    p.confirm(Err("Operation not permitted (os error 1)".to_string()), 0);
    assert_eq!(message(&p), Some("couldn't send SIGTERM: Operation not permitted (os error 1)"));
}

#[test]
fn tick_escalates_after_grace_period() {
    let mut table = empty_table();
    table[5432].pid = Some(900);
    let mut p = KillPrompt::WaitingForExit { target: target(), sent_at: 1000 };
    p.tick(&table, 2999);
    assert!(matches!(p, KillPrompt::WaitingForExit { .. }));
    p.tick(&table, 3000);
    assert!(matches!(&p, KillPrompt::ConfirmKill(t) if t.pid == 900));
    assert_eq!(p.pending_signal(), Some((Signal::Kill, 900)));
    p.confirm(Ok(()), 3500);
    assert_eq!(message(&p), Some("sent SIGKILL to postgres (900) (pid 900)"));
    p.dismiss_message();
    assert!(matches!(p, KillPrompt::Idle));
}

#[test]
fn tick_reports_termination() {
    let table = empty_table();
    let mut p = KillPrompt::WaitingForExit { target: target(), sent_at: 1000 };
    p.tick(&table, 1001);
    assert_eq!(message(&p), Some("postgres (900) (pid 900) terminated"));
}

#[test]
fn another_pid_on_the_port_counts_as_gone() {
    let mut table = empty_table();
    table[5432].pid = Some(901);
    let mut p = KillPrompt::WaitingForExit { target: target(), sent_at: 0 };
    p.tick(&table, 10);
    assert!(message(&p).is_some());
}

#[test]
fn failed_sigkill_and_inert_states() {
    let mut p = KillPrompt::ConfirmKill(target());
    p.confirm(Err("No such process (os error 3)".to_string()), 0);
    assert_eq!(message(&p), Some("couldn't send SIGKILL: No such process (os error 3)"));
    let table = empty_table();
    p.tick(&table, 100000);
    assert!(message(&p).is_some());
    p.confirm(Ok(()), 0);
    assert!(message(&p).is_some());
    let mut idle = KillPrompt::Idle;
    idle.dismiss_message();
    idle.confirm(Ok(()), 0);
    assert!(matches!(idle, KillPrompt::Idle));
    let mut c = KillPrompt::ConfirmTerm(target());
    c.dismiss_message();
    assert!(matches!(c, KillPrompt::ConfirmTerm(_)));
    c.cancel();
    assert!(matches!(c, KillPrompt::Idle));
}

#[test]
fn prompt_keys() {
    let mut p = KillPrompt::ConfirmTerm(target());
    assert_eq!(handle_prompt_key(Key::Char('x'), &mut p), Action::Continue);
    assert!(matches!(p, KillPrompt::ConfirmTerm(_)));
    assert_eq!(handle_prompt_key(Key::Enter, &mut p), Action::Send(Signal::Term, 900));
    assert_eq!(handle_prompt_key(Key::Char('y'), &mut p), Action::Send(Signal::Term, 900));
    assert_eq!(handle_prompt_key(Key::Esc, &mut p), Action::Continue);
    assert!(matches!(p, KillPrompt::Idle));
    let mut m = KillPrompt::Message("hi".to_string());
    assert_eq!(handle_prompt_key(Key::Char('q'), &mut m), Action::Continue);
    assert!(matches!(m, KillPrompt::Idle));
    let mut w = KillPrompt::WaitingForExit { target: target(), sent_at: 0 };
    assert_eq!(handle_prompt_key(Key::Char('y'), &mut w), Action::Continue);
    assert!(matches!(w, KillPrompt::WaitingForExit { .. }));
}

#[test]
fn keys_without_prompt() {
    let mut table = empty_table();
    table[3].pid = Some(42);
    let ages = vec![None; PORT_COUNT];
    let mut cursor = Cursor::default();
    let mut mode = WidthMode::Auto;
    let mut p = KillPrompt::Idle;
    assert_eq!(handle_key(Key::Char('q'), &mut cursor, &mut mode, &table, &ages, &mut p), Action::Quit);
    handle_key(Key::Right, &mut cursor, &mut mode, &table, &ages, &mut p);
    handle_key(Key::Down, &mut cursor, &mut mode, &table, &ages, &mut p);
    assert_eq!((cursor.row, cursor.col), (1, 1));
    handle_key(Key::Up, &mut cursor, &mut mode, &table, &ages, &mut p);
    handle_key(Key::Left, &mut cursor, &mut mode, &table, &ages, &mut p);
    assert_eq!((cursor.row, cursor.col), (0, 0));
    handle_key(Key::Char('w'), &mut cursor, &mut mode, &table, &ages, &mut p);
    assert_eq!(mode, WidthMode::Fixed(128));
    handle_key(Key::Char('k'), &mut cursor, &mut mode, &table, &ages, &mut p);
    assert_eq!(message(&p), Some("no process to kill on this port"));
    assert_eq!(handle_key(Key::Char('q'), &mut cursor, &mut mode, &table, &ages, &mut p), Action::Continue);
    assert!(matches!(p, KillPrompt::Idle));
    for _ in 0..3 {
        handle_key(Key::Right, &mut cursor, &mut mode, &table, &ages, &mut p);
    }
    handle_key(Key::Char('k'), &mut cursor, &mut mode, &table, &ages, &mut p);
    match &p {
        KillPrompt::ConfirmTerm(t) => {
            assert_eq!((t.port, t.pid, t.process.as_str()), (3, 42, "pid 42"));
        }
        _ => panic!("expected a confirmation"),
    }
}

#[test]
fn selected_target_uses_process_name_when_known() {
    let mut table = empty_table();
    table[3].pid = Some(42);
    table[3].process = Some("nc (42)".to_string());
    let ages = vec![None; PORT_COUNT];
    let c = Cursor { row: 0, col: 3, grid_cols: 64 };
    let t = selected_target(&c, &table, &ages).unwrap();
    assert_eq!((t.port, t.pid, t.process.as_str()), (3, 42, "nc (42)"));
    let none = Cursor { row: 0, col: 4, grid_cols: 64 };
    assert!(selected_target(&none, &table, &ages).is_none());
}

#[test]
fn quit_and_width_keys_need_no_table() {
    let table = Vec::new();
    let ages: Vec<Option<u64>> = Vec::new();
    let mut cursor = Cursor { row: usize::MAX, col: 0, grid_cols: 0 };
    let mut mode = WidthMode::Fixed(1024);
    let mut p = KillPrompt::Idle;
    handle_key(Key::Char('w'), &mut cursor, &mut mode, &table, &ages, &mut p);
    assert_eq!(mode, WidthMode::Auto);
    handle_key(Key::Up, &mut cursor, &mut mode, &table, &ages, &mut p);
    assert_eq!(cursor.row, usize::MAX - 1);
    assert_eq!(handle_key(Key::Char('q'), &mut cursor, &mut mode, &table, &ages, &mut p), Action::Quit);
}

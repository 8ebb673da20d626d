//! What a key press does: the decisions of the event loop, from the key and
//! the current state to the next state and what the loop must do.
use vstd::prelude::*;

use crate::kill::{spec_dismiss, spec_pending, KillPrompt, PromptView, Signal, Target, TargetView};
use crate::ports::{PortStatus, PORT_COUNT};
use crate::ui::layout::{next_width_mode, selected_port_info, Cursor, WidthMode};
use crate::ui::populator::{display_rows, spec_selected_port, tables_ok};

verus! {

/// A pressed key, as far as the interface tells keys apart.
#[derive(Clone, Copy, PartialEq, Eq, Structural, Debug)]
pub enum Key {
    Char(char),
    Up,
    Down,
    Left,
    Right,
    Enter,
    Esc,
    Other,
}

/// What the event loop does after a key.
#[derive(Clone, Copy, PartialEq, Eq, Structural, Debug)]
pub enum Action {
    /// Keep going.
    Continue,
    /// Leave the program.
    Quit,
    /// Send the signal to the pid, then hand the outcome to
    /// `KillPrompt::confirm`.
    Send(Signal, u32),
}

/// The cursor can take every move: a grid to move in and room to count.
pub open spec fn cursor_ok(c: Cursor) -> bool {
    &&& c.grid_cols > 0
    &&& c.row < usize::MAX
    &&& c.col <= usize::MAX - PORT_COUNT
}

pub fn is_cursor_ok(c: &Cursor) -> (b: bool)
    ensures
        b == cursor_ok(*c),
{
    c.grid_cols > 0 && c.row < usize::MAX && c.col <= usize::MAX - PORT_COUNT
}

/// What a key does while a prompt shows: any key dismisses a message;
/// y/Enter confirms and n/Esc cancels a confirmation; nothing else reacts.
pub open spec fn spec_prompt_key(code: Key, p: PromptView) -> (Action, PromptView) {
    match p {
        PromptView::Message(_) => (Action::Continue, spec_dismiss(p)),
        PromptView::ConfirmTerm(_) | PromptView::ConfirmKill(_) => {
            if code == Key::Char('y') || code == Key::Enter {
                match spec_pending(p) {
                    Some((sig, pid)) => (Action::Send(sig, pid), p),
                    None => (Action::Continue, p),
                }
            } else if code == Key::Char('n') || code == Key::Esc {
                (Action::Continue, PromptView::Idle)
            } else {
                (Action::Continue, p)
            }
        },
        _ => (Action::Continue, p),
    }
}

pub fn handle_prompt_key(code: Key, kill_prompt: &mut KillPrompt) -> (a: Action)
    ensures
        (a, final(kill_prompt)@) == spec_prompt_key(code, old(kill_prompt)@),
{
    match kill_prompt {
        KillPrompt::Message(_) => {
            kill_prompt.dismiss_message();
            Action::Continue
        },
        KillPrompt::ConfirmTerm(_) | KillPrompt::ConfirmKill(_) => {
            if code == Key::Char('y') || code == Key::Enter {
                match kill_prompt.pending_signal() {
                    Some((sig, pid)) => Action::Send(sig, pid),
                    None => Action::Continue,
                }
            } else if code == Key::Char('n') || code == Key::Esc {
                kill_prompt.cancel();
                Action::Continue
            } else {
                Action::Continue
            }
        },
        _ => Action::Continue,
    }
}

/// "pid N".
pub open spec fn pid_text(pid: u32) -> Seq<char> {
    "pid "@ + crate::num::decimal(pid as nat)
}

/// The process behind the selected port, when it has a pid; named "pid N"
/// when its name is unknown.
pub open spec fn spec_selected_target(
    ports: Seq<PortStatus>,
    ages: Seq<Option<u64>>,
    cursor: Cursor,
) -> Option<TargetView> {
    let p = spec_selected_port(ports, ages, cursor, cursor.grid_cols as int);
    match ports[p].pid {
        Some(pid) => Some(
            TargetView {
                port: p as u16,
                pid,
                process: match ports[p].process {
                    Some(name) => name@,
                    None => pid_text(pid),
                },
            },
        ),
        None => None,
    }
}

pub open spec fn opt_target_view(t: Option<Target>) -> Option<TargetView> {
    match t {
        Some(t) => Some(t@),
        None => None,
    }
}

pub fn selected_target(cursor: &Cursor, ports: &Vec<PortStatus>, ages: &[Option<u64>]) -> (t: Option<
    Target,
>)
    requires
        tables_ok(ports@, ages@),
        cursor_ok(*cursor),
    ensures
        opt_target_view(t) == spec_selected_target(ports@, ages@, *cursor),
{
    let (port, pid, process) = selected_port_info(ports, ages, *cursor);
    let pid = match pid {
        Some(p) => p,
        None => return None,
    };
    let process = match process {
        Some(name) => name,
        None => {
            let mut s = String::from_str("pid ");
            crate::num::push_decimal(&mut s, pid as u64);
            s
        },
    };
    Some(Target { port, pid, process })
}

/// The message shown when `k` finds nothing to kill.
pub open spec fn nothing_to_kill_text() -> Seq<char> {
    "no process to kill on this port"@
}

/// Handles a key press. With a prompt showing only the prompt reacts;
/// otherwise q quits, the arrows move the cursor, k asks to kill the
/// process behind the selected port and w cycles the grid width.
pub fn handle_key(
    code: Key,
    cursor: &mut Cursor,
    width_mode: &mut WidthMode,
    ports: &Vec<PortStatus>,
    ages: &[Option<u64>],
    kill_prompt: &mut KillPrompt,
) -> (a: Action)
    requires
        old(kill_prompt)@ is Idle && code == Key::Down ==> tables_ok(ports@, ages@) && old(
            cursor,
        ).grid_cols > 0 && old(cursor).row < usize::MAX,
        old(kill_prompt)@ is Idle && code == Key::Right ==> old(cursor).grid_cols > 0 && old(
            cursor,
        ).col < usize::MAX,
        old(kill_prompt)@ is Idle && code == Key::Char('k') ==> tables_ok(ports@, ages@)
            && cursor_ok(*old(cursor)),
    ensures
        !(old(kill_prompt)@ is Idle) ==> (a, final(kill_prompt)@) == spec_prompt_key(
            code,
            old(kill_prompt)@,
        ) && *final(cursor) == *old(cursor) && *final(width_mode) == *old(width_mode),
        old(kill_prompt)@ is Idle ==> {
            &&& a == (if code == Key::Char('q') {
                Action::Quit
            } else {
                Action::Continue
            })
            &&& *final(width_mode) == (if code == Key::Char('w') {
                next_width_mode(*old(width_mode))
            } else {
                *old(width_mode)
            })
            &&& final(cursor).grid_cols == old(cursor).grid_cols
            &&& final(cursor).row == (if code == Key::Up {
                if old(cursor).row > 0 {
                    (old(cursor).row - 1) as usize
                } else {
                    0
                }
            } else if code == Key::Down {
                let max_row = display_rows(ports@, ages@, old(cursor).grid_cols as int).len() - 1;
                if old(cursor).row + 1 < max_row {
                    (old(cursor).row + 1) as usize
                } else {
                    max_row as usize
                }
            } else {
                old(cursor).row
            })
            &&& final(cursor).col == (if code == Key::Left {
                if old(cursor).col > 0 {
                    (old(cursor).col - 1) as usize
                } else {
                    0
                }
            } else if code == Key::Right {
                if old(cursor).col + 1 < old(cursor).grid_cols - 1 {
                    (old(cursor).col + 1) as usize
                } else {
                    (old(cursor).grid_cols - 1) as usize
                }
            } else {
                old(cursor).col
            })
            &&& final(kill_prompt)@ == (if code == Key::Char('k') {
                match spec_selected_target(ports@, ages@, *old(cursor)) {
                    Some(t) => PromptView::ConfirmTerm(t),
                    None => PromptView::Message(nothing_to_kill_text()),
                }
            } else {
                PromptView::Idle
            })
        },
{
    if !matches!(kill_prompt, KillPrompt::Idle) {
        return handle_prompt_key(code, kill_prompt);
    }
    match code {
        Key::Char('q') => return Action::Quit,
        Key::Up => cursor.up(),
        Key::Down => cursor.down(ports, ages),
        Key::Left => cursor.left(),
        Key::Right => cursor.right(),
        Key::Char('k') => match selected_target(cursor, ports, ages) {
            Some(target) => kill_prompt.request(target),
            None => {
                *kill_prompt = KillPrompt::Message(
                    String::from_str("no process to kill on this port"),
                );
            },
        },
        Key::Char('w') => width_mode.cycle(),
        _ => {},
    }
    Action::Continue
}

/// `k` on a port with a known pid, then `y` or Enter, asks to send SIGTERM
/// to exactly that pid (SIGKILL on the second confirmation); `n` or Esc
/// instead closes either confirmation without a signal.
pub proof fn lemma_kill_keys(t: TargetView, confirm: Key, refuse: Key)
    requires
        confirm == Key::Char('y') || confirm == Key::Enter,
        refuse == Key::Char('n') || refuse == Key::Esc,
    ensures
        spec_prompt_key(confirm, PromptView::ConfirmTerm(t)) == (
            Action::Send(Signal::Term, t.pid),
            PromptView::ConfirmTerm(t),
        ),
        spec_prompt_key(refuse, PromptView::ConfirmTerm(t)) == (Action::Continue, PromptView::Idle),
        spec_prompt_key(confirm, PromptView::ConfirmKill(t)) == (
            Action::Send(Signal::Kill, t.pid),
            PromptView::ConfirmKill(t),
        ),
        spec_prompt_key(refuse, PromptView::ConfirmKill(t)) == (Action::Continue, PromptView::Idle),
{
}

/// On a confirmation, a key that neither confirms nor refuses changes
/// nothing and sends nothing; a message goes away on any key; while waiting
/// for the process to exit, keys change nothing.
pub proof fn lemma_other_prompt_keys(code: Key, t: TargetView, text: Seq<char>, sent_at: u64)
    requires
        code != Key::Char('y'),
        code != Key::Enter,
        code != Key::Char('n'),
        code != Key::Esc,
    ensures
        spec_prompt_key(code, PromptView::ConfirmTerm(t)) == (Action::Continue, PromptView::ConfirmTerm(t)),
        spec_prompt_key(code, PromptView::ConfirmKill(t)) == (Action::Continue, PromptView::ConfirmKill(t)),
        spec_prompt_key(code, PromptView::Message(text)) == (Action::Continue, PromptView::Idle),
        spec_prompt_key(Key::Char('y'), PromptView::Message(text)) == (Action::Continue, PromptView::Idle),
        spec_prompt_key(code, PromptView::WaitingForExit { target: t, sent_at }) == (
            Action::Continue,
            PromptView::WaitingForExit { target: t, sent_at },
        ),
{
}

/// While a prompt shows, no key quits the program.
pub proof fn lemma_prompt_never_quits(code: Key, p: PromptView)
    ensures
        spec_prompt_key(code, p).0 != Action::Quit,
{
}

} // verus!

//! The confirmation flow for killing the process behind the selected port.
//!
//! A socket cannot be closed apart from the process that owns it, so the
//! flow always acts on the whole process: SIGTERM first, with SIGKILL
//! offered only when the process is still there after `GRACE_PERIOD_MS`.
//! Sending a signal is the caller's work: `pending_signal` names the signal
//! the showing confirmation asks for, and `confirm` takes what sending it
//! gave. Times are milliseconds on one monotonic clock.
use vstd::prelude::*;

use crate::num::decimal;
use crate::ports::{PortStatus, PortTable};

verus! {

/// Wait after SIGTERM before offering SIGKILL, in milliseconds.
pub const GRACE_PERIOD_MS: u64 = 2000;

/// The process behind a selected port, as a signal needs it.
pub struct Target {
    pub port: u16,
    pub pid: u32,
    pub process: String,
}

impl Clone for Target {
    fn clone(&self) -> (r: Self)
        ensures
            r == *self,
    {
        Target { port: self.port, pid: self.pid, process: self.process.clone() }
    }
}

/// Where the kill flow stands.
pub enum KillPrompt {
    /// No prompt showing.
    Idle,
    /// Asking whether to send SIGTERM.
    ConfirmTerm(Target),
    /// SIGTERM sent at `sent_at`; waiting for the process to go.
    WaitingForExit { target: Target, sent_at: u64 },
    /// Asking whether to send SIGKILL.
    ConfirmKill(Target),
    /// A status line, until a key dismisses it.
    Message(String),
}

impl Default for KillPrompt {
    fn default() -> (p: Self)
        ensures
            p == KillPrompt::Idle,
    {
        KillPrompt::Idle
    }
}

/// A signal the flow sends.
#[derive(Clone, Copy, PartialEq, Eq, Structural, Debug)]
pub enum Signal {
    Term,
    Kill,
}

/// A target with its process name as characters.
pub struct TargetView {
    pub port: u16,
    pub pid: u32,
    pub process: Seq<char>,
}

impl View for Target {
    type V = TargetView;

    open spec fn view(&self) -> TargetView {
        TargetView { port: self.port, pid: self.pid, process: self.process@ }
    }
}

/// The flow's state with its texts as characters.
pub enum PromptView {
    Idle,
    ConfirmTerm(TargetView),
    WaitingForExit { target: TargetView, sent_at: u64 },
    ConfirmKill(TargetView),
    Message(Seq<char>),
}

impl View for KillPrompt {
    type V = PromptView;

    open spec fn view(&self) -> PromptView {
        match *self {
            KillPrompt::Idle => PromptView::Idle,
            KillPrompt::ConfirmTerm(t) => PromptView::ConfirmTerm(t@),
            KillPrompt::WaitingForExit { target, sent_at } => PromptView::WaitingForExit {
                target: target@,
                sent_at,
            },
            KillPrompt::ConfirmKill(t) => PromptView::ConfirmKill(t@),
            KillPrompt::Message(m) => PromptView::Message(m@),
        }
    }
}

/// "name (pid N)".
pub open spec fn target_text(t: TargetView) -> Seq<char> {
    t.process + " (pid "@ + decimal(t.pid as nat) + ")"@
}

pub open spec fn term_failed_text(err: Seq<char>) -> Seq<char> {
    "couldn't send SIGTERM: "@ + err
}

pub open spec fn kill_failed_text(err: Seq<char>) -> Seq<char> {
    "couldn't send SIGKILL: "@ + err
}

pub open spec fn kill_sent_text(t: TargetView) -> Seq<char> {
    "sent SIGKILL to "@ + target_text(t)
}

pub open spec fn terminated_text(t: TargetView) -> Seq<char> {
    target_text(t) + " terminated"@
}

/// The port still has an owner with the target's pid.
pub open spec fn spec_still_running(ports: Seq<PortStatus>, t: TargetView) -> bool {
    (t.port as int) < ports.len() && ports[t.port as int].pid == Some(t.pid)
}

/// Time from `from` to `now`, zero when `now` is earlier.
pub open spec fn elapsed(now: u64, from: u64) -> int {
    if now >= from {
        now - from
    } else {
        0
    }
}

pub open spec fn spec_dismiss(p: PromptView) -> PromptView {
    match p {
        PromptView::Message(_) => PromptView::Idle,
        _ => p,
    }
}

pub open spec fn spec_pending(p: PromptView) -> Option<(Signal, u32)> {
    match p {
        PromptView::ConfirmTerm(t) => Some((Signal::Term, t.pid)),
        PromptView::ConfirmKill(t) => Some((Signal::Kill, t.pid)),
        _ => None,
    }
}

/// The state after the pending signal was sent (`Ok`) or failed to send
/// (`Err` with the error's text) at time `now`.
pub open spec fn spec_confirm(p: PromptView, sent: Result<(), Seq<char>>, now: u64) -> PromptView {
    match p {
        PromptView::ConfirmTerm(t) => match sent {
            Ok(()) => PromptView::WaitingForExit { target: t, sent_at: now },
            Err(e) => PromptView::Message(term_failed_text(e)),
        },
        PromptView::ConfirmKill(t) => match sent {
            Ok(()) => PromptView::Message(kill_sent_text(t)),
            Err(e) => PromptView::Message(kill_failed_text(e)),
        },
        _ => p,
    }
}

/// The state after a fresh scan at time `now`.
pub open spec fn spec_tick(p: PromptView, ports: Seq<PortStatus>, now: u64) -> PromptView {
    match p {
        PromptView::WaitingForExit { target, sent_at } => if !spec_still_running(ports, target) {
            PromptView::Message(terminated_text(target))
        } else if elapsed(now, sent_at) >= GRACE_PERIOD_MS {
            PromptView::ConfirmKill(target)
        } else {
            p
        },
        _ => p,
    }
}

pub open spec fn sent_view(r: Result<(), String>) -> Result<(), Seq<char>> {
    match r {
        Ok(()) => Ok(()),
        Err(e) => Err(e@),
    }
}

/// Appends "name (pid N)".
pub(crate) fn push_target(s: &mut String, t: &Target)
    ensures
        final(s)@ == old(s)@ + target_text(t@),
{
    let ghost start = s@;
    crate::text::push_str(s, t.process.as_str());
    crate::text::push_str(s, " (pid ");
    crate::num::push_decimal(s, t.pid as u64);
    crate::text::push_str(s, ")");
    assert(s@ =~= start + target_text(t@));
}

fn still_running(ports: &PortTable, target: &Target) -> (b: bool)
    ensures
        b == spec_still_running(ports@, target@),
{
    let p = target.port as usize;
    if p < ports.len() {
        match ports[p].pid {
            Some(pid) => pid == target.pid,
            None => false,
        }
    } else {
        false
    }
}

impl KillPrompt {
    /// Asks to send SIGTERM to `target`.
    pub fn request(&mut self, target: Target)
        ensures
            final(self)@ == PromptView::ConfirmTerm(target@),
    {
        *self = KillPrompt::ConfirmTerm(target);
    }

    pub fn cancel(&mut self)
        ensures
            final(self)@ == PromptView::Idle,
    {
        *self = KillPrompt::Idle;
    }

    /// Clears a message; any other state stays.
    pub fn dismiss_message(&mut self)
        ensures
            final(self)@ == spec_dismiss(old(self)@),
    {
        if let KillPrompt::Message(_) = self {
            *self = KillPrompt::Idle;
        }
    }

    /// The signal the showing confirmation asks for, and the pid to send it
    /// to.
    pub fn pending_signal(&self) -> (r: Option<(Signal, u32)>)
        ensures
            r == spec_pending(self@),
    {
        match self {
            KillPrompt::ConfirmTerm(t) => Some((Signal::Term, t.pid)),
            KillPrompt::ConfirmKill(t) => Some((Signal::Kill, t.pid)),
            _ => None,
        }
    }

    /// Takes what sending the pending signal gave (`Err` with the error's
    /// text when it failed) at time `now`. After SIGTERM the flow waits for
    /// the process to exit; after SIGKILL it reports. Without a pending
    /// confirmation nothing changes.
    pub fn confirm(&mut self, sent: Result<(), String>, now: u64)
        ensures
            final(self)@ == spec_confirm(old(self)@, sent_view(sent), now),
    {
        let next = match self {
            KillPrompt::ConfirmTerm(target) => match sent {
                Ok(()) => KillPrompt::WaitingForExit { target: target.clone(), sent_at: now },
                Err(e) => {
                    let mut m = String::from_str("couldn't send SIGTERM: ");
                    crate::text::push_str(&mut m, e.as_str());
                    KillPrompt::Message(m)
                },
            },
            KillPrompt::ConfirmKill(target) => match sent {
                Ok(()) => {
                    let mut m = String::from_str("sent SIGKILL to ");
                    push_target(&mut m, target);
                    KillPrompt::Message(m)
                },
                Err(e) => {
                    let mut m = String::from_str("couldn't send SIGKILL: ");
                    crate::text::push_str(&mut m, e.as_str());
                    KillPrompt::Message(m)
                },
            },
            _ => return ,
        };
        *self = next;
    }

    /// Checked against each fresh scan at time `now`: once the process is
    /// gone the flow reports it; once `GRACE_PERIOD_MS` has passed without
    /// that, it offers SIGKILL. Other states stay.
    pub fn tick(&mut self, ports: &PortTable, now: u64)
        ensures
            final(self)@ == spec_tick(old(self)@, ports@, now),
    {
        let next = match self {
            KillPrompt::WaitingForExit { target, sent_at } => {
                if !still_running(ports, target) {
                    let mut m = String::new();
                    push_target(&mut m, target);
                    crate::text::push_str(&mut m, " terminated");
                    assert(m@ =~= terminated_text(target@));
                    KillPrompt::Message(m)
                } else if now.saturating_sub(*sent_at) >= GRACE_PERIOD_MS {
                    KillPrompt::ConfirmKill(target.clone())
                } else {
                    return ;
                }
            },
            _ => return ,
        };
        *self = next;
    }
}

/// Confirming a fresh request sends SIGTERM to the target's pid, and once
/// it is sent the flow waits on that same target from the time it was sent.
pub proof fn lemma_request_then_confirm(t: TargetView, now: u64)
    ensures
        spec_pending(PromptView::ConfirmTerm(t)) == Some((Signal::Term, t.pid)),
        spec_confirm(PromptView::ConfirmTerm(t), Ok(()), now) == (PromptView::WaitingForExit {
            target: t,
            sent_at: now,
        }),
{
}

/// While waiting: a process that has left its port is reported terminated;
/// one still there after the grace period is offered SIGKILL, which goes to
/// the same pid; before that nothing changes.
pub proof fn lemma_waiting(t: TargetView, sent_at: u64, ports: Seq<PortStatus>, now: u64)
    ensures
        ({
            let w = PromptView::WaitingForExit { target: t, sent_at };
            let next = spec_tick(w, ports, now);
            &&& !spec_still_running(ports, t) ==> next == PromptView::Message(terminated_text(t))
            &&& spec_still_running(ports, t) && elapsed(now, sent_at) >= GRACE_PERIOD_MS ==> next
                == PromptView::ConfirmKill(t) && spec_pending(next) == Some((Signal::Kill, t.pid))
            &&& spec_still_running(ports, t) && elapsed(now, sent_at) < GRACE_PERIOD_MS ==> next
                == w
        }),
{
}

/// The grace period counted in milliseconds from the send: a target still
/// owning its port is offered SIGKILL once two seconds have passed and not
/// before, and a target gone from its port is reported terminated at once.
pub proof fn lemma_grace_period(t: TargetView, sent_at: u64, ports: Seq<PortStatus>, now: u64)
    requires
        (t.port as int) < ports.len(),
    ensures
        ({
            let w = PromptView::WaitingForExit { target: t, sent_at };
            let next = spec_tick(w, ports, now);
            &&& ports[t.port as int].pid == Some(t.pid) && now >= sent_at + 2000 ==> next
                == PromptView::ConfirmKill(t)
            &&& ports[t.port as int].pid == Some(t.pid) && now < sent_at + 2000 ==> next == w
            &&& ports[t.port as int].pid != Some(t.pid) ==> next == PromptView::Message(
                t.process + " (pid "@ + decimal(t.pid as nat) + ") terminated"@,
            )
        }),
{
    assert(t.process + " (pid "@ + decimal(t.pid as nat) + ") terminated"@ =~= terminated_text(t))
        by {
        reveal_strlit(") terminated");
        reveal_strlit(")");
        reveal_strlit(" terminated");
    }
}

/// Only a waiting flow reacts to scans, and only a confirmation reacts to
/// a send: everything else stays as it is.
pub proof fn lemma_inert_states(p: PromptView, ports: Seq<PortStatus>, now: u64, sent: Result<(), Seq<char>>)
    ensures
        !(p is WaitingForExit) ==> spec_tick(p, ports, now) == p,
        !(p is ConfirmTerm) && !(p is ConfirmKill) ==> spec_confirm(p, sent, now) == p
            && spec_pending(p) is None,
        spec_dismiss(spec_dismiss(p)) == spec_dismiss(p),
{
}

} // verus!

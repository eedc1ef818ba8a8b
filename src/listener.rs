use vstd::prelude::*;

use crate::status::{LocalAddress, ServerStatus};

verus! {

/// How far one listener generation has come.
#[derive(Debug, Clone, Copy, PartialEq, Eq, Structural)]
pub enum ListenerPhase {
    Binding,
    Serving,
    Stopped,
}

/// What happens to a listener generation, as its task sees it.
#[derive(Debug, Clone, Copy)]
pub enum ListenerEvent {
    /// The port could not be bound.
    BindFailed,
    /// The port is bound; `ip` is the machine's local address, when it could
    /// be found.
    Bound { ip: Option<LocalAddress> },
    /// Serving ended: `clean` after a cancellation, otherwise on an error.
    ServeEnded { clean: bool },
}

/// The phase after `e`, and the status the generation reports, if any.
pub open spec fn listener_step(phase: ListenerPhase, e: ListenerEvent) -> (ListenerPhase, Option<ServerStatus>) {
    match (phase, e) {
        (ListenerPhase::Binding, ListenerEvent::BindFailed) => (ListenerPhase::Stopped, Some(ServerStatus::Error)),
        (ListenerPhase::Binding, ListenerEvent::Bound { ip }) => (
            ListenerPhase::Serving,
            Some(
                match ip {
                    Some(a) => ServerStatus::Online { ip: a },
                    None => ServerStatus::OnlineNoIp,
                },
            ),
        ),
        (ListenerPhase::Serving, ListenerEvent::ServeEnded { clean }) => (
            ListenerPhase::Stopped,
            Some(if clean { ServerStatus::Offline } else { ServerStatus::Error }),
        ),
        _ => (phase, None),
    }
}

/// The phase after `events`, starting from `Binding`.
pub open spec fn phase_after(events: Seq<ListenerEvent>) -> ListenerPhase
    decreases events.len(),
{
    if events.len() == 0 {
        ListenerPhase::Binding
    } else {
        listener_step(phase_after(events.drop_last()), events.last()).0
    }
}

/// The statuses reported along `events`, in order.
pub open spec fn reports_after(events: Seq<ListenerEvent>) -> Seq<ServerStatus>
    decreases events.len(),
{
    if events.len() == 0 {
        Seq::empty()
    } else {
        let before = reports_after(events.drop_last());
        match listener_step(phase_after(events.drop_last()), events.last()).1 {
            Some(s) => before.push(s),
            None => before,
        }
    }
}

/// The status reporting of one listener generation.
pub struct Listener {
    pub phase: ListenerPhase,
}

impl Listener {
    pub fn new() -> (r: Listener)
        ensures
            r.phase == ListenerPhase::Binding,
    {
        Listener { phase: ListenerPhase::Binding }
    }

    /// Moves on after `e` and returns the status to report, if any.
    pub fn on_event(&mut self, e: ListenerEvent) -> (r: Option<ServerStatus>)
        ensures
            (final(self).phase, r) == listener_step(old(self).phase, e),
    {
        match (self.phase, e) {
            (ListenerPhase::Binding, ListenerEvent::BindFailed) => {
                self.phase = ListenerPhase::Stopped;
                Some(ServerStatus::Error)
            },
            (ListenerPhase::Binding, ListenerEvent::Bound { ip }) => {
                self.phase = ListenerPhase::Serving;
                match ip {
                    Some(a) => Some(ServerStatus::Online { ip: a }),
                    None => Some(ServerStatus::OnlineNoIp),
                }
            },
            (ListenerPhase::Serving, ListenerEvent::ServeEnded { clean }) => {
                self.phase = ListenerPhase::Stopped;
                if clean {
                    Some(ServerStatus::Offline)
                } else {
                    Some(ServerStatus::Error)
                }
            },
            _ => None,
        }
    }
}

proof fn lemma_terminal_only_when_stopped(events: Seq<ListenerEvent>)
    ensures
        phase_after(events) != ListenerPhase::Stopped ==> forall|i: int|
            0 <= i < reports_after(events).len() ==> !(#[trigger] reports_after(events)[i]).is_terminal(),
        phase_after(events) == ListenerPhase::Stopped ==> reports_after(events).len() > 0
            && reports_after(events).last().is_terminal(),
        forall|i: int|
            0 <= i < reports_after(events).len() && (#[trigger] reports_after(events)[i]).is_terminal()
                ==> i == reports_after(events).len() - 1,
    decreases events.len(),
{
    if events.len() > 0 {
        let rest = events.drop_last();
        lemma_terminal_only_when_stopped(rest);
        let prev = reports_after(rest);
        let now = reports_after(events);
        match listener_step(phase_after(rest), events.last()).1 {
            Some(st) => {
                assert(now == prev.push(st));
                assert forall|i: int| 0 <= i < prev.len() implies now[i] == prev[i] by {}
                if phase_after(rest) == ListenerPhase::Stopped {
                    assert(false);
                }
            },
            None => {
                assert(now == prev);
            },
        }
    }
}

/// A generation reports at most one last status: once it reported `Offline`
/// or `Error`, it reports nothing more, whatever else happens to it.
pub proof fn lemma_one_terminal_status(events: Seq<ListenerEvent>)
    ensures
        forall|i: int|
            0 <= i < reports_after(events).len() && (#[trigger] reports_after(events)[i]).is_terminal()
                ==> i == reports_after(events).len() - 1,
{
    lemma_terminal_only_when_stopped(events);
}

} // verus!

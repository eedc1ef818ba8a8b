use vstd::prelude::*;

use crate::status::{ServerCommand, ServerMessage, ServerStatus};

verus! {

/// The port that a fresh controller starts its listener on.
pub const DEFAULT_PORT: u16 = 8000;

/// What reaches the controller's mailbox.
#[derive(Debug, Clone, Copy)]
pub enum ControllerEvent {
    /// A command from the host.
    Command(ServerCommand),
    /// A listener generation reported a status or a connection event.
    Report { generation: u64, message: ServerMessage },
    /// The result channel of a listener generation closed.
    Closed { generation: u64 },
}

/// What the controller asks of its surroundings, in order.
#[derive(Debug, Clone, Copy)]
pub enum ControllerAction {
    /// Make this the status that subscribers see.
    PublishStatus(ServerStatus),
    /// Hand this connection event to subscribers.
    Relay(ServerMessage),
    /// Signal this generation to stop accepting connections.
    Cancel { generation: u64 },
    /// Start a new listener generation on this port.
    Spawn { generation: u64, port: u16 },
    /// Close the mailbox: no further events are handled.
    Exit,
}

/// The lifecycle controller: the one owner of which listener generation runs,
/// and on which port.
#[derive(Debug, Clone, Copy)]
pub struct Controller {
    /// The port for the next start.
    pub port: u16,
    /// The status that subscribers see.
    pub status: ServerStatus,
    /// The generation that accepts connections, if any.
    pub active: Option<u64>,
    /// The generation whose status reports the controller follows: the
    /// latest one started, until it reports that it stopped.
    pub following: Option<u64>,
    /// The number that the next generation gets.
    pub next_generation: u64,
    /// False once the controller has shut down.
    pub running: bool,
}

/// The state of a controller when it is made.
pub open spec fn initial_controller() -> Controller {
    Controller {
        port: DEFAULT_PORT,
        status: ServerStatus::Offline,
        active: None,
        following: None,
        next_generation: 0,
        running: true,
    }
}

/// The cancellation of the active generation, if there is one.
pub open spec fn cancel_active(c: Controller) -> Seq<ControllerAction> {
    match c.active {
        Some(g) => seq![ControllerAction::Cancel { generation: g }],
        None => seq![],
    }
}

/// Whether `generation` is the one started last. Only its result channel is
/// drained: connection events of a replaced generation are dropped, while
/// those of a stopped one still come through.
pub open spec fn is_latest(c: Controller, generation: u64) -> bool {
    generation + 1 == c.next_generation
}

/// The controller after handling one event, and what it asks for.
pub open spec fn step(c: Controller, e: ControllerEvent) -> (Controller, Seq<ControllerAction>) {
    if !c.running {
        (c, seq![])
    } else {
        match e {
            ControllerEvent::Command(ServerCommand::SwitchPort { port }) => (Controller { port, ..c }, seq![]),
            ControllerEvent::Command(ServerCommand::Restart) => {
                let n = c.next_generation;
                if n == u64::MAX {
                    (
                        Controller { status: ServerStatus::Error, active: None, following: None, ..c },
                        seq![ControllerAction::PublishStatus(ServerStatus::Restarting)] + cancel_active(c)
                            + seq![ControllerAction::PublishStatus(ServerStatus::Error)],
                    )
                } else {
                    (
                        Controller {
                            status: ServerStatus::Restarting,
                            active: Some(n),
                            following: Some(n),
                            next_generation: (n + 1) as u64,
                            ..c
                        },
                        seq![ControllerAction::PublishStatus(ServerStatus::Restarting)] + cancel_active(c)
                            + seq![ControllerAction::Spawn { generation: n, port: c.port }],
                    )
                }
            },
            ControllerEvent::Command(ServerCommand::Stop) => (Controller { active: None, ..c }, cancel_active(c)),
            ControllerEvent::Command(ServerCommand::Shutdown) => (
                Controller { active: None, running: false, ..c },
                cancel_active(c) + seq![ControllerAction::Exit],
            ),
            ControllerEvent::Report { generation, message: ServerMessage::Status(s) } => {
                if c.following == Some(generation) {
                    if s.is_terminal() {
                        let active = if c.active == Some(generation) { None } else { c.active };
                        (
                            Controller { status: s, following: None, active, ..c },
                            seq![ControllerAction::PublishStatus(s)],
                        )
                    } else {
                        (Controller { status: s, ..c }, seq![ControllerAction::PublishStatus(s)])
                    }
                } else {
                    (c, seq![])
                }
            },
            ControllerEvent::Report { generation, message } => {
                if is_latest(c, generation) {
                    (c, seq![ControllerAction::Relay(message)])
                } else {
                    (c, seq![])
                }
            },
            ControllerEvent::Closed { generation } => {
                if c.following == Some(generation) {
                    let active = if c.active == Some(generation) { None } else { c.active };
                    (
                        Controller { status: ServerStatus::Offline, following: None, active, ..c },
                        seq![ControllerAction::PublishStatus(ServerStatus::Offline)],
                    )
                } else {
                    (c, seq![])
                }
            },
        }
    }
}

/// The controller after handling `events` in order.
pub open spec fn after(c: Controller, events: Seq<ControllerEvent>) -> Controller
    decreases events.len(),
{
    if events.len() == 0 {
        c
    } else {
        step(after(c, events.drop_last()), events.last()).0
    }
}

impl Controller {
    pub fn new() -> (r: Controller)
        ensures
            r == initial_controller(),
    {
        Controller {
            port: DEFAULT_PORT,
            status: ServerStatus::Offline,
            active: None,
            following: None,
            next_generation: 0,
            running: true,
        }
    }

    fn push_cancel_active(&self, actions: &mut Vec<ControllerAction>)
        ensures
            final(actions)@ == old(actions)@ + cancel_active(*self),
    {
        if let Some(g) = self.active {
            actions.push(ControllerAction::Cancel { generation: g });
        }
        assert(final(actions)@ =~= old(actions)@ + cancel_active(*self));
    }

    /// Handles one event of the mailbox.
    pub fn handle(&mut self, event: ControllerEvent) -> (r: Vec<ControllerAction>)
        ensures
            (*final(self), r@) == step(*old(self), event),
    {
        let mut actions: Vec<ControllerAction> = Vec::new();
        if !self.running {
            return actions;
        }
        match event {
            ControllerEvent::Command(ServerCommand::SwitchPort { port }) => {
                self.port = port;
            },
            ControllerEvent::Command(ServerCommand::Restart) => {
                actions.push(ControllerAction::PublishStatus(ServerStatus::Restarting));
                self.push_cancel_active(&mut actions);
                let n = self.next_generation;
                if n == u64::MAX {
                    self.status = ServerStatus::Error;
                    self.active = None;
                    self.following = None;
                    actions.push(ControllerAction::PublishStatus(ServerStatus::Error));
                } else {
                    self.status = ServerStatus::Restarting;
                    self.active = Some(n);
                    self.following = Some(n);
                    self.next_generation = n + 1;
                    actions.push(ControllerAction::Spawn { generation: n, port: self.port });
                }
            },
            ControllerEvent::Command(ServerCommand::Stop) => {
                self.push_cancel_active(&mut actions);
                self.active = None;
            },
            ControllerEvent::Command(ServerCommand::Shutdown) => {
                self.push_cancel_active(&mut actions);
                self.active = None;
                self.running = false;
                actions.push(ControllerAction::Exit);
            },
            ControllerEvent::Report { generation, message: ServerMessage::Status(s) } => {
                if self.following == Some(generation) {
                    self.status = s;
                    if matches!(s, ServerStatus::Offline | ServerStatus::Error) {
                        self.following = None;
                        if self.active == Some(generation) {
                            self.active = None;
                        }
                    }
                    actions.push(ControllerAction::PublishStatus(s));
                }
            },
            ControllerEvent::Report { generation, message } => {
                if self.next_generation > 0 && generation == self.next_generation - 1 {
                    actions.push(ControllerAction::Relay(message));
                }
            },
            ControllerEvent::Closed { generation } => {
                if self.following == Some(generation) {
                    self.status = ServerStatus::Offline;
                    self.following = None;
                    if self.active == Some(generation) {
                        self.active = None;
                    }
                    actions.push(ControllerAction::PublishStatus(ServerStatus::Offline));
                }
            },
        }
        assert(actions@ =~= step(*old(self), event).1);
        actions
    }
}

/// The generations that `actions` cancels.
pub open spec fn cancelled_by(actions: Seq<ControllerAction>) -> Set<u64> {
    Set::new(
        |g: u64|
            exists|i: int|
                0 <= i < actions.len() && #[trigger] actions[i] == ControllerAction::Cancel { generation: g },
    )
}

/// The generations that `actions` starts.
pub open spec fn spawned_by(actions: Seq<ControllerAction>) -> Set<u64> {
    Set::new(
        |g: u64|
            exists|i: int|
                0 <= i < actions.len() && (#[trigger] actions[i]) is Spawn && actions[i]->Spawn_generation
                    == g,
    )
}

/// The generations that say, through `e`, that they have stopped on their
/// own: a last status, or a closed result channel.
pub open spec fn ended_by(e: ControllerEvent) -> Set<u64> {
    match e {
        ControllerEvent::Report { generation, message: ServerMessage::Status(s) } => if s.is_terminal() {
            set![generation]
        } else {
            Set::empty()
        },
        ControllerEvent::Closed { generation } => set![generation],
        _ => Set::empty(),
    }
}

/// The generations that may be accepting connections after `events`, judged
/// from the outside: started by the controller, and neither cancelled by it
/// nor stopped on their own since.
pub open spec fn accepting_after(c: Controller, events: Seq<ControllerEvent>) -> Set<u64>
    decreases events.len(),
{
    if events.len() == 0 {
        Set::empty()
    } else {
        let before = after(c, events.drop_last());
        let actions = step(before, events.last()).1;
        accepting_after(c, events.drop_last()).difference(ended_by(events.last())).difference(
            cancelled_by(actions),
        ).union(spawned_by(actions))
    }
}

/// The active generation, as a set.
pub open spec fn active_set(c: Controller) -> Set<u64> {
    match c.active {
        Some(g) => set![g],
        None => Set::empty(),
    }
}

proof fn lemma_step_keeps_accepting_within_active(c: Controller, e: ControllerEvent, live: Set<u64>)
    requires
        live.subset_of(active_set(c)),
    ensures
        live.difference(ended_by(e)).difference(cancelled_by(step(c, e).1)).union(
            spawned_by(step(c, e).1),
        ).subset_of(active_set(step(c, e).0)),
{
    let (c2, actions) = step(c, e);
    let next = live.difference(ended_by(e)).difference(cancelled_by(actions)).union(spawned_by(actions));
    if let Some(g) = c.active {
        let cancels = cancel_active(c);
        if c.running && (e == ControllerEvent::Command(ServerCommand::Restart) || e
            == ControllerEvent::Command(ServerCommand::Stop) || e == ControllerEvent::Command(
            ServerCommand::Shutdown,
        )) {
            let k: int = if e == ControllerEvent::Command(ServerCommand::Restart) { 1 } else { 0 };
            assert(actions[k] == ControllerAction::Cancel { generation: g });
            assert(cancelled_by(actions).contains(g));
        }
    }
    assert forall|x: u64| next.contains(x) implies active_set(c2).contains(x) by {
        if spawned_by(actions).contains(x) {
            let i = choose|i: int|
                0 <= i < actions.len() && (#[trigger] actions[i]) is Spawn && actions[i]->Spawn_generation
                    == x;
            assert(actions[i] is Spawn);
        }
    }
}

/// At most one listener generation accepts connections at any time: whatever
/// events a fresh controller handles, every generation that it started and
/// that neither was cancelled nor stopped on its own is the active one.
pub proof fn lemma_one_generation_accepts(events: Seq<ControllerEvent>)
    ensures
        accepting_after(initial_controller(), events).subset_of(
            active_set(after(initial_controller(), events)),
        ),
        forall|g1: u64, g2: u64|
            accepting_after(initial_controller(), events).contains(g1) && accepting_after(
                initial_controller(),
                events,
            ).contains(g2) ==> g1 == g2,
    decreases events.len(),
{
    if events.len() > 0 {
        lemma_one_generation_accepts(events.drop_last());
        lemma_step_keeps_accepting_within_active(
            after(initial_controller(), events.drop_last()),
            events.last(),
            accepting_after(initial_controller(), events.drop_last()),
        );
    }
}

/// Events that the host does not send: reports and closed channels, from
/// any generation, with no last status of generation `g` among them.
pub open spec fn listener_traffic(events: Seq<ControllerEvent>, g: u64) -> bool {
    forall|i: int|
        0 <= i < events.len() ==> !(#[trigger] events[i] is Command) && !(events[i] is Report
            && events[i]->Report_generation == g && events[i]->Report_message is Status
            && events[i]->Report_message->Status_0.is_terminal())
}

proof fn lemma_stopped_generation_settles(c: Controller, events: Seq<ControllerEvent>, g: u64)
    requires
        c.running,
        c.active is None,
        c.following == Some(g) || (c.following is None && c.status == ServerStatus::Offline),
        listener_traffic(events, g),
    ensures
        after(c, events).running,
        after(c, events).active is None,
        after(c, events).following == Some(g) || (after(c, events).following is None
            && after(c, events).status == ServerStatus::Offline),
    decreases events.len(),
{
    if events.len() > 0 {
        let prefix = events.drop_last();
        assert forall|i: int| 0 <= i < prefix.len() implies !(#[trigger] prefix[i] is Command) && !(
        prefix[i] is Report && prefix[i]->Report_generation == g && prefix[i]->Report_message is Status
            && prefix[i]->Report_message->Status_0.is_terminal()) by {
            assert(prefix[i] == events[i]);
        }
        lemma_stopped_generation_settles(c, prefix, g);
        assert(events[events.len() - 1] == events.last());
    }
}

/// A start that is stopped before the listener is up does not leave the
/// status at `Restarting`: once the new generation reports that it stopped,
/// or its channel closes, the status is `Offline` and nothing is active,
/// whatever other listener traffic came in between. A controller that has
/// shut down takes no Restart, and one whose generation numbers are spent
/// answers Restart with `Error`; neither starts a generation, so both stand
/// outside this law.
pub proof fn lemma_stop_during_start_settles_offline(
    c: Controller,
    traffic: Seq<ControllerEvent>,
    last: ControllerEvent,
)
    requires
        c.running,
        c.next_generation < u64::MAX,
        listener_traffic(traffic, c.next_generation),
        last == (ControllerEvent::Report {
            generation: c.next_generation,
            message: ServerMessage::Status(ServerStatus::Offline),
        }) || last == (ControllerEvent::Closed { generation: c.next_generation }),
    ensures
        ({
            let started = step(c, ControllerEvent::Command(ServerCommand::Restart)).0;
            let stopped = step(started, ControllerEvent::Command(ServerCommand::Stop)).0;
            let settled = after(stopped, traffic.push(last));
            settled.status == ServerStatus::Offline && settled.active is None && settled.running
        }),
{
    let g = c.next_generation;
    let started = step(c, ControllerEvent::Command(ServerCommand::Restart)).0;
    let stopped = step(started, ControllerEvent::Command(ServerCommand::Stop)).0;
    lemma_stopped_generation_settles(stopped, traffic, g);
    assert(traffic.push(last).drop_last() == traffic);
}

/// A port switch leaves the running generation, the status and the followed
/// generation alone, asks for nothing, and the next start uses the new port.
pub proof fn lemma_port_waits_for_restart(c: Controller, port: u16)
    requires
        c.running,
    ensures
        ({
            let (switched, actions) = step(c, ControllerEvent::Command(ServerCommand::SwitchPort { port }));
            &&& actions.len() == 0
            &&& switched.active == c.active
            &&& switched.status == c.status
            &&& switched.following == c.following
            &&& switched.port == port
            &&& c.next_generation < u64::MAX ==> {
                let (restarted, started) = step(switched, ControllerEvent::Command(ServerCommand::Restart));
                &&& started.last() == (ControllerAction::Spawn { generation: c.next_generation, port })
                &&& restarted.active == Some(c.next_generation)
            }
        }),
{
}

/// The generations that the controller follows or lets accept are always the
/// one started last.
pub open spec fn tracks_latest(c: Controller) -> bool {
    &&& (c.following matches Some(g) ==> is_latest(c, g))
    &&& (c.active matches Some(g) ==> is_latest(c, g))
}

proof fn lemma_tracks_latest(events: Seq<ControllerEvent>)
    ensures
        tracks_latest(after(initial_controller(), events)),
    decreases events.len(),
{
    if events.len() > 0 {
        lemma_tracks_latest(events.drop_last());
    }
}

/// Once a Restart has replaced a generation, nothing that generation reports,
/// nor the closing of its channel, changes the controller or reaches its
/// subscribers.
pub proof fn lemma_replaced_generation_is_ignored(
    events: Seq<ControllerEvent>,
    generation: u64,
    message: ServerMessage,
)
    requires
        generation + 1 < after(initial_controller(), events).next_generation,
    ensures
        ({
            let c = after(initial_controller(), events);
            &&& step(c, ControllerEvent::Report { generation, message }) == (c, Seq::<ControllerAction>::empty())
            &&& step(c, ControllerEvent::Closed { generation }) == (c, Seq::<ControllerAction>::empty())
        }),
{
    lemma_tracks_latest(events);
}

} // verus!

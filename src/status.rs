use vstd::prelude::*;

verus! {

/// An address of this machine on the local network, as plain numbers.
#[derive(Debug, Clone, Copy, PartialEq, Eq)]
pub enum LocalAddress {
    V4([u8; 4]),
    V6([u16; 8]),
}

/// A request from the host to the lifecycle controller.
#[derive(Debug, Clone, Copy, PartialEq, Eq, Structural)]
pub enum ServerCommand {
    /// Use this port for the next start; a running listener keeps its port.
    SwitchPort { port: u16 },
    /// Stop the running listener, if any, and start a new one.
    Restart,
    /// Stop the running listener, if any.
    Stop,
    /// Stop the running listener, if any, and accept no further commands.
    Shutdown,
}

/// The externally observable lifecycle state of the listener.
#[derive(Debug, Clone, Copy, PartialEq, Eq)]
pub enum ServerStatus {
    Online { ip: LocalAddress },
    OnlineNoIp,
    Restarting,
    Offline,
    Error,
}

/// Everything the controller republishes to its subscribers.
#[derive(Debug, Clone, Copy, PartialEq, Eq)]
pub enum ServerMessage {
    Status(ServerStatus),
    NewConnection { id: u32 },
    ClosedConnection { id: u32 },
}

impl ServerStatus {
    /// A status that a listener reports last, when it has stopped.
    pub open spec fn is_terminal(self) -> bool {
        self is Offline || self is Error
    }
}

} // verus!

//! What the WebSocket tunnel does with each thing that happens on it: data
//! from either side is passed to the other unchanged, pings are answered,
//! and the tunnel ends when either side closes or fails.

use vstd::prelude::*;

verus! {

/// Seconds between the keep-alive pings sent to the server.
pub const PING_INTERVAL_SECS: u64 = 5;

/// Seconds allowed for the WebSocket connection to open.
pub const CONNECT_TIMEOUT_SECS: u64 = 10;

/// Size of the buffer that client data is read into.
pub const RELAY_BUFFER_SIZE: usize = 32768;

/// Something that happened on a tunnel.
pub enum RelayEvent {
    /// The keep-alive interval elapsed.
    PingTick,
    /// The server sent a binary message.
    ServerBinary(Vec<u8>),
    /// The server sent a ping with this payload.
    ServerPing(Vec<u8>),
    /// The server sent a message of another kind (text, pong, raw frame).
    ServerOther,
    /// The server sent a close message.
    ServerClose,
    /// The server's message stream ended.
    ServerEnded,
    /// Reading from the server failed.
    ServerError,
    /// A read from the client returned these bytes; none means end of stream.
    ClientRead(Vec<u8>),
    /// Reading from the client failed.
    ClientError,
}

/// What the tunnel does next.
pub enum RelayAction {
    /// Send a ping with an empty payload to the server.
    SendPing,
    /// Answer the server's ping with a pong carrying this payload.
    SendPong(Vec<u8>),
    /// Write these bytes to the client.
    ForwardToClient(Vec<u8>),
    /// Send these bytes to the server as a binary message.
    ForwardToServer(Vec<u8>),
    /// Nothing to do; wait for the next event.
    Continue,
    /// End the tunnel.
    Stop,
}

/// The model of a tunnel event, by the bytes it carries.
pub enum RelayEventModel {
    PingTick,
    ServerBinary(Seq<u8>),
    ServerPing(Seq<u8>),
    ServerOther,
    ServerClose,
    ServerEnded,
    ServerError,
    ClientRead(Seq<u8>),
    ClientError,
}

/// The model of a tunnel action, by the bytes it carries.
pub enum RelayActionModel {
    SendPing,
    SendPong(Seq<u8>),
    ForwardToClient(Seq<u8>),
    ForwardToServer(Seq<u8>),
    Continue,
    Stop,
}

impl View for RelayEvent {
    type V = RelayEventModel;

    open spec fn view(&self) -> RelayEventModel {
        match self {
            RelayEvent::PingTick => RelayEventModel::PingTick,
            RelayEvent::ServerBinary(d) => RelayEventModel::ServerBinary(d@),
            RelayEvent::ServerPing(d) => RelayEventModel::ServerPing(d@),
            RelayEvent::ServerOther => RelayEventModel::ServerOther,
            RelayEvent::ServerClose => RelayEventModel::ServerClose,
            RelayEvent::ServerEnded => RelayEventModel::ServerEnded,
            RelayEvent::ServerError => RelayEventModel::ServerError,
            RelayEvent::ClientRead(d) => RelayEventModel::ClientRead(d@),
            RelayEvent::ClientError => RelayEventModel::ClientError,
        }
    }
}

impl View for RelayAction {
    type V = RelayActionModel;

    open spec fn view(&self) -> RelayActionModel {
        match self {
            RelayAction::SendPing => RelayActionModel::SendPing,
            RelayAction::SendPong(d) => RelayActionModel::SendPong(d@),
            RelayAction::ForwardToClient(d) => RelayActionModel::ForwardToClient(d@),
            RelayAction::ForwardToServer(d) => RelayActionModel::ForwardToServer(d@),
            RelayAction::Continue => RelayActionModel::Continue,
            RelayAction::Stop => RelayActionModel::Stop,
        }
    }
}

/// The tunnel's response to an event.
pub open spec fn spec_relay_decide(e: RelayEventModel) -> RelayActionModel {
    match e {
        RelayEventModel::PingTick => RelayActionModel::SendPing,
        RelayEventModel::ServerBinary(d) => RelayActionModel::ForwardToClient(d),
        RelayEventModel::ServerPing(p) => RelayActionModel::SendPong(p),
        RelayEventModel::ServerOther => RelayActionModel::Continue,
        RelayEventModel::ServerClose => RelayActionModel::Stop,
        RelayEventModel::ServerEnded => RelayActionModel::Stop,
        RelayEventModel::ServerError => RelayActionModel::Stop,
        RelayEventModel::ClientRead(d) => if d.len() == 0 {
            RelayActionModel::Stop
        } else {
            RelayActionModel::ForwardToServer(d)
        },
        RelayEventModel::ClientError => RelayActionModel::Stop,
    }
}

/// Decides what the tunnel does with an event.
pub fn relay_decide(event: RelayEvent) -> (r: RelayAction)
    ensures
        r@ == spec_relay_decide(event@),
{
    match event {
        RelayEvent::PingTick => RelayAction::SendPing,
        RelayEvent::ServerBinary(d) => RelayAction::ForwardToClient(d),
        RelayEvent::ServerPing(p) => RelayAction::SendPong(p),
        RelayEvent::ServerOther => RelayAction::Continue,
        RelayEvent::ServerClose => RelayAction::Stop,
        RelayEvent::ServerEnded => RelayAction::Stop,
        RelayEvent::ServerError => RelayAction::Stop,
        RelayEvent::ClientRead(d) => if d.len() == 0 {
            RelayAction::Stop
        } else {
            RelayAction::ForwardToServer(d)
        },
        RelayEvent::ClientError => RelayAction::Stop,
    }
}

/// Whether the tunnel ends when carrying out the action fails: forwarding
/// data does, keep-alive traffic does not.
pub open spec fn spec_stops_on_failure(a: RelayActionModel) -> bool {
    a is ForwardToClient || a is ForwardToServer
}

impl RelayAction {
    /// Whether a failure to carry out this action ends the tunnel.
    pub fn stops_on_failure(&self) -> (r: bool)
        ensures
            r == spec_stops_on_failure(self@),
    {
        match self {
            RelayAction::ForwardToClient(_) => true,
            RelayAction::ForwardToServer(_) => true,
            _ => false,
        }
    }
}

} // verus!

use vstd::prelude::*;

use crate::json::{json_quoted, quote_json};
use crate::status::ServerMessage;
use crate::text::{decimal_text, push_decimal};

verus! {

/// A message that a client sends over its connection.
#[derive(Debug, Clone)]
pub enum ClientMessage {
    /// The client has no id yet and asks the server for one.
    RequestId,
    /// The client reconnects under an id it was given before.
    Id { id: u32 },
    /// The client changed a character; `data` is the serialized sheet.
    CharacterUpdated { data: String },
}

/// A message that the server sends to a client.
#[derive(Debug, Clone)]
pub enum ToClientMessage {
    Id { id: u32 },
    /// `player_id` is the client that wrote the sheet, its owner. The field
    /// keeps this name on the wire, which existing clients read.
    CharacterUpdated { data: String, player_id: u32 },
}

/// What a connection reads from its client, once decoded.
#[derive(Debug, Clone)]
pub enum Inbound {
    Client(ClientMessage),
    /// A frame that is not a message of the protocol: undecodable text, an
    /// unknown tag, or a frame kind that carries no message.
    Unreadable,
    /// The client closed the connection.
    Close,
}

/// An event that one connection hands to all the others.
#[derive(Debug, Clone)]
pub enum InternalMessage {
    CharacterUpdated {
        /// The connection that produced the event.
        origin: u64,
        character_data: String,
        player_id: u32,
    },
}

/// What a connection asks of its surroundings, in order.
#[derive(Debug, Clone)]
pub enum Effect {
    /// Write this message to the client.
    Send(ToClientMessage),
    /// Report this event to the lifecycle controller.
    Signal(ServerMessage),
    /// Hand this event to every other connection.
    Broadcast(InternalMessage),
}

/// The text frame of a message to a client: a JSON object whose one key
/// names the message and holds its fields.
pub open spec fn wire_text(m: ToClientMessage) -> Seq<char> {
    match m {
        ToClientMessage::Id { id } => "{\"Id\":{\"id\":"@ + decimal_text(id as nat) + "}}"@,
        ToClientMessage::CharacterUpdated { data, player_id } => "{\"CharacterUpdated\":{\"data\":"@
            + json_quoted(data@) + ",\"player_id\":"@ + decimal_text(player_id as nat) + "}}"@,
    }
}

/// Writes a message to a client as its text frame.
pub fn encode_to_client(m: &ToClientMessage) -> (r: String)
    ensures
        r@ == wire_text(*m),
{
    let mut out = String::new();
    match m {
        ToClientMessage::Id { id } => {
            out.append("{\"Id\":{\"id\":");
            push_decimal(&mut out, *id);
            out.append("}}");
        },
        ToClientMessage::CharacterUpdated { data, player_id } => {
            out.append("{\"CharacterUpdated\":{\"data\":");
            let quoted = quote_json(data.as_str());
            out.append(quoted.as_str());
            out.append(",\"player_id\":");
            push_decimal(&mut out, *player_id);
            out.append("}}");
        },
    }
    out
}

} // verus!

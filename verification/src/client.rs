//! The client's response handling.
//!
//! The client gives every request a fresh nonzero id and matches responses
//! to requests by that id; packets with the reserved zero id are server
//! pushes for watched keys. These are the decisions of the client's read
//! loop; the sockets and tasks around them belong to the caller.

use vstd::prelude::*;
use crate::errors::NetworkError;
use crate::keys::Key;
use crate::packet::{Packet, PacketPayload, PayloadView};
use crate::values::Value;

verus! {

/// Where an inbound packet goes.
#[derive(Debug)]
pub enum InboundRoute {
    /// A push for a watched key: hand the value to its live handle.
    Push { key: Key, value: Option<Value> },
    /// A response: fulfil the request with this id.
    Response { packet: Packet },
    /// A zero-id packet that is not a push: dropped.
    Dropped,
}

/// Routes one inbound packet: zero-id notifies are pushes, everything else
/// with a nonzero id answers the request carrying that id.
pub fn route_inbound(packet: Packet) -> (r: InboundRoute)
    ensures
        packet@.id.0 == 0 ==> match packet@.payload {
            PayloadView::Notify { key, value, more } => r matches InboundRoute::Push {
                key: k2,
                value: v2,
            } && k2@ == key && v2.deep_view() == value,
            _ => r is Dropped,
        },
        packet@.id.0 != 0 ==> (r matches InboundRoute::Response { packet: p2 } && p2 == packet),
{
    if packet.id().id() == 0 {
        match packet.into_payload() {
            PacketPayload::Notify { key, value, more } => InboundRoute::Push { key, value },
            _ => InboundRoute::Dropped,
        }
    } else {
        InboundRoute::Response { packet }
    }
}

/// Reads a value out of a get or insert response: the payload must be a
/// return packet.
pub fn parse_return_response(packet: Packet) -> (r: Result<Option<Value>, NetworkError>)
    ensures
        packet@.payload matches PayloadView::Return { key, value } ==> (r matches Ok(v)
            && v.deep_view() == value),
        !(packet@.payload is Return) ==> r == Err::<Option<Value>, NetworkError>(
            NetworkError::WrongResponseFromServer,
        ),
{
    match packet.into_payload() {
        PacketPayload::Return { key, value } => Ok(value),
        _ => Err(NetworkError::WrongResponseFromServer),
    }
}

/// Checks a delete, watch or release acknowledgement: the payload must be a
/// key-only get packet.
pub fn parse_ack_response(packet: Packet) -> (r: Result<(), NetworkError>)
    ensures
        packet@.payload is Get ==> r is Ok,
        !(packet@.payload is Get) ==> r == Err::<(), NetworkError>(
            NetworkError::WrongResponseFromServer,
        ),
{
    match packet.into_payload() {
        PacketPayload::Get { .. } => Ok(()),
        _ => Err(NetworkError::WrongResponseFromServer),
    }
}

} // verus!

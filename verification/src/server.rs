//! The server's request dispatch.
//!
//! For each request packet the server runs one store operation and answers
//! with exactly one response packet carrying the request's id. Mutation
//! acknowledgements reply with a key-only packet; reads reply with the
//! value. A watch request additionally tells the caller to start a
//! subscriber task for the key.

use vstd::prelude::*;
use crate::database::Database;
use crate::errors::NetworkError;
use crate::keys::Key;
use crate::packet::{Packet, PacketId, PacketPayload, PacketView, PayloadView};
use crate::values::Value;
use crate::ClientId;

verus! {

/// What the connection should do after answering a request.
#[derive(Debug)]
pub enum ServerAction {
    /// Nothing beyond sending the response.
    Nothing,
    /// Start a subscriber task for this client and key.
    StartSubscriber { key: Key },
}

/// Whether a payload is a client request; pushes and responses are not
/// dispatched.
pub open spec fn spec_is_request(p: PayloadView) -> bool {
    p is Insert || p is Get || p is Watch || p is Release || p is Delete
}

/// Dispatches one request for `client` against the database and produces
/// the response packet, echoing the request's id. An insert answers with
/// the stored value; a get answers with the current value; a delete, watch
/// or release answers with a key-only acknowledgement. A second watch for
/// the same key and client is an error, which tears the connection down.
pub fn handle_request(db: &mut Database, client: ClientId, packet: Packet) -> (r: Result<
    (Packet, ServerAction),
    NetworkError,
>)
    requires
        old(db).wf(),
        spec_is_request(packet@.payload),
    ensures
        final(db).wf(),
        r matches Ok((reply, action)) ==> reply@.id == packet@.id,
        packet@.payload matches PayloadView::Insert { key, value } ==> {
            &&& (crate::storage::spec_pair_fits(key, value)
                && old(db).storage.entries@.len() + 4 <= crate::storage::spec_page_limit()
                ==> r is Ok)
            &&& (r is Ok ==> final(db).spec_get(key) == Some(value))
            &&& (r is Ok ==> forall|k2: Seq<char>|
                k2 != key ==> final(db).spec_get(k2) == old(db).spec_get(k2))
            &&& (r matches Ok((reply, action)) ==> reply@.payload == (PayloadView::Return {
                key,
                value: Some(value),
            }) && action is Nothing)
        },
        packet@.payload matches PayloadView::Get { key } ==> {
            &&& final(db).spec_get(key) == old(db).spec_get(key)
            &&& (r matches Ok((reply, action)) && reply@.payload == (PayloadView::Return {
                key,
                value: old(db).spec_get(key),
            }) && action is Nothing)
        },
        packet@.payload matches PayloadView::Delete { key } ==> {
            &&& final(db).spec_get(key) is None
            &&& (forall|k2: Seq<char>| k2 != key ==> final(db).spec_get(k2) == old(db).spec_get(k2))
            &&& (r matches Ok((reply, action)) && reply@.payload == (PayloadView::Get { key })
                && action is Nothing)
        },
        packet@.payload matches PayloadView::Watch { key, activity, behaviour } ==> {
            &&& (crate::store::spec_find_sub(old(db).memory.subs@, key, client) is Some ==> r
                == Err::<(Packet, ServerAction), NetworkError>(NetworkError::SubscriptionExists))
            &&& (crate::store::spec_find_sub(old(db).memory.subs@, key, client) is None ==> (
            r matches Ok((reply, action)) && reply@.payload == (PayloadView::Get { key }) && (
            action matches ServerAction::StartSubscriber { key: k2 } && k2@ == key)))
        },
        packet@.payload matches PayloadView::Release { key } ==> {
            &&& crate::store::spec_find_sub(final(db).memory.subs@, key, client) is None
            &&& (r matches Ok((reply, action)) && reply@.payload == (PayloadView::Get { key })
                && action is Nothing)
        },
{
    let packet_id = packet.id();
    match packet.into_payload() {
        PacketPayload::Insert { key, value } => {
            let reply_key = key.duplicate();
            let reply_value = value.duplicate();
            match db.insert(key, value) {
                Ok(..) => {},
                Err(e) => {
                    return Err(e);
                },
            }
            Ok((Packet::vreturn(packet_id, reply_key, Some(reply_value)), ServerAction::Nothing))
        },
        PacketPayload::Get { key } => {
            let value = db.get(&key);
            Ok((Packet::vreturn(packet_id, key, value), ServerAction::Nothing))
        },
        PacketPayload::Delete { key } => {
            match db.delete(&key) {
                Ok(..) => {},
                Err(e) => {
                    return Err(e);
                },
            }
            Ok((Packet::get(packet_id, key), ServerAction::Nothing))
        },
        PacketPayload::Watch { key, activity, behaviour } => {
            match db.subscribe(&key, client, behaviour, activity) {
                Ok(..) => {},
                Err(e) => {
                    return Err(e);
                },
            }
            let task_key = key.duplicate();
            Ok(
                (
                    Packet::get(packet_id, key),
                    ServerAction::StartSubscriber { key: task_key },
                ),
            )
        },
        PacketPayload::Release { key } => {
            match db.release(&key, client) {
                Ok(..) => {},
                Err(e) => {
                    return Err(e);
                },
            }
            Ok((Packet::get(packet_id, key), ServerAction::Nothing))
        },
        PacketPayload::Notify { .. } => {
            proof {
                assert(false);
            }
            Err(NetworkError::WrongResponseFromServer)
        },
        PacketPayload::Return { .. } => {
            proof {
                assert(false);
            }
            Err(NetworkError::WrongResponseFromServer)
        },
    }
}

/// One turn of a subscriber task: polls the watcher for `(key, client)`.
/// Nothing to do yet comes back empty; a killed or vanished watcher asks
/// the task to stop; a completed wait becomes the push packet to send,
/// carrying exactly the delivered value under the reserved zero id.
#[derive(Debug)]
pub enum SubscriberTurn {
    /// No delivery and no signal: suspend and poll again later.
    Pending,
    /// The watcher is killed: the task exits.
    Stop,
    /// Send this push packet, then poll again.
    Send { packet: Packet },
}

pub fn subscriber_turn(db: &mut Database, key: &Key, client: ClientId) -> (r: SubscriberTurn)
    requires
        old(db).wf(),
    ensures
        final(db).wf(),
        final(db).storage == old(db).storage,
        crate::store::spec_find_sub(old(db).memory.subs@, key@, client) is None ==> r is Stop,
        crate::store::spec_find_sub(old(db).memory.subs@, key@, client) matches Some(w)
            && !w.can_complete() ==> r is Pending && final(db).memory.subs == old(db).memory.subs,
        crate::store::spec_find_sub(old(db).memory.subs@, key@, client) matches Some(w)
            && w.can_complete() && w.killed ==> r is Stop,
        crate::store::spec_find_sub(old(db).memory.subs@, key@, client) matches Some(w)
            && w.can_complete() && !w.killed ==> ({
            let w0 = crate::store::spec_find_sub(old(db).memory.subs@, key@, client)->Some_0;
            r matches SubscriberTurn::Send { packet } && packet@.id == PacketId(0, 0)
                && packet@.payload == (PayloadView::Notify {
                key: key@,
                value: w0.delivery(),
                more: false,
            })
        }),
{
    match db.watcher_poll(key, client) {
        None => SubscriberTurn::Pending,
        Some(delivery) => {
            if db.watcher_is_killed(key, client) {
                SubscriberTurn::Stop
            } else {
                SubscriberTurn::Send {
                    packet: Packet::notify(PacketId::zero(), key.duplicate(), delivery, false),
                }
            }
        },
    }
}

} // verus!

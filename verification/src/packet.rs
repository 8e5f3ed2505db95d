//! Packets of the wire protocol.
//!
//! A packet pairs a packet id with a payload. The id carries a 32-bit request
//! id and a 32-bit order; id 0 is reserved for server-initiated pushes. The
//! payload is one of seven request and response kinds.

use vstd::prelude::*;
use crate::access::{WatcherActivity, WatcherBehaviour};
use crate::keys::Key;
use crate::values::{Value, ValueView};

verus! {

/// The wire protocol version this library speaks.
pub const CURRENT_VERSION: u8 = 0;

/// A packet id: the request id and the order within the request.
#[derive(Clone, Copy, PartialEq, Eq, Debug, Hash, Structural)]
pub struct PacketId(pub u32, pub u32);

impl PacketId {
    /// The id of server-initiated pushes.
    pub fn zero() -> (r: Self)
        ensures
            r == PacketId(0, 0),
    {
        Self(0, 0)
    }

    pub fn new(id: u32, order: u32) -> (r: Self)
        ensures
            r == PacketId(id, order),
    {
        Self(id, order)
    }

    pub fn id(&self) -> (r: u32)
        ensures
            r == self.0,
    {
        self.0
    }

    pub fn order(&self) -> (r: u32)
        ensures
            r == self.1,
    {
        self.1
    }
}

/// A packet payload.
#[derive(Clone, PartialEq, Eq, Debug)]
pub enum PacketPayload {
    Insert { key: Key, value: Value },
    Get { key: Key },
    Watch { key: Key, activity: WatcherActivity, behaviour: WatcherBehaviour },
    Release { key: Key },
    Delete { key: Key },
    Notify { key: Key, value: Option<Value>, more: bool },
    Return { key: Key, value: Option<Value> },
}

/// The mathematical shape of a payload, over key characters and value views.
pub ghost enum PayloadView {
    Insert { key: Seq<char>, value: ValueView },
    Get { key: Seq<char> },
    Watch { key: Seq<char>, activity: WatcherActivity, behaviour: WatcherBehaviour },
    Release { key: Seq<char> },
    Delete { key: Seq<char> },
    Notify { key: Seq<char>, value: Option<ValueView>, more: bool },
    Return { key: Seq<char>, value: Option<ValueView> },
}

impl View for PacketPayload {
    type V = PayloadView;

    open spec fn view(&self) -> PayloadView {
        match self {
            PacketPayload::Insert { key, value } => PayloadView::Insert {
                key: key@,
                value: value@,
            },
            PacketPayload::Get { key } => PayloadView::Get { key: key@ },
            PacketPayload::Watch { key, activity, behaviour } => PayloadView::Watch {
                key: key@,
                activity: *activity,
                behaviour: *behaviour,
            },
            PacketPayload::Release { key } => PayloadView::Release { key: key@ },
            PacketPayload::Delete { key } => PayloadView::Delete { key: key@ },
            PacketPayload::Notify { key, value, more } => PayloadView::Notify {
                key: key@,
                value: value.deep_view(),
                more: *more,
            },
            PacketPayload::Return { key, value } => PayloadView::Return {
                key: key@,
                value: value.deep_view(),
            },
        }
    }
}

/// A packet: an id and a payload.
#[derive(Clone, PartialEq, Eq, Debug)]
pub struct Packet {
    pub id: PacketId,
    pub payload: PacketPayload,
}

/// The mathematical shape of a packet.
pub ghost struct PacketView {
    pub id: PacketId,
    pub payload: PayloadView,
}

impl View for Packet {
    type V = PacketView;

    open spec fn view(&self) -> PacketView {
        PacketView { id: self.id, payload: self.payload@ }
    }
}

impl PacketPayload {
    pub fn notify(key: Key, value: Option<Value>, more: bool) -> (r: Self)
        ensures
            r@ == (PayloadView::Notify { key: key@, value: value.deep_view(), more }),
    {
        Self::Notify { key, value, more }
    }

    pub fn return_packet(key: Key, value: Option<Value>) -> (r: Self)
        ensures
            r@ == (PayloadView::Return { key: key@, value: value.deep_view() }),
    {
        Self::Return { key, value }
    }

    pub fn release(key: Key) -> (r: Self)
        ensures
            r@ == (PayloadView::Release { key: key@ }),
    {
        Self::Release { key }
    }

    pub fn watch(key: Key, activity: WatcherActivity, behaviour: WatcherBehaviour) -> (r: Self)
        ensures
            r@ == (PayloadView::Watch { key: key@, activity, behaviour }),
    {
        Self::Watch { key, activity, behaviour }
    }

    pub fn insert(key: Key, value: Value) -> (r: Self)
        ensures
            r@ == (PayloadView::Insert { key: key@, value: value@ }),
    {
        Self::Insert { key, value }
    }

    pub fn delete(key: Key) -> (r: Self)
        ensures
            r@ == (PayloadView::Delete { key: key@ }),
    {
        Self::Delete { key }
    }

    pub fn get(key: Key) -> (r: Self)
        ensures
            r@ == (PayloadView::Get { key: key@ }),
    {
        Self::Get { key }
    }

    /// The wire tag of the payload kind.
    pub fn discriminator(&self) -> (r: u8)
        ensures
            r == self@.tag(),
    {
        match self {
            Self::Insert { .. } => 0,
            Self::Get { .. } => 1,
            Self::Watch { .. } => 2,
            Self::Release { .. } => 3,
            Self::Delete { .. } => 4,
            Self::Notify { .. } => 5,
            Self::Return { .. } => 6,
        }
    }

    /// Payloads are owned; the packet passes through unchanged.
    pub fn to_owned(self) -> (r: Self)
        ensures
            r == self,
    {
        self
    }
}

impl PayloadView {
    /// The wire tag of the payload kind, at the specification level.
    pub open spec fn tag(self) -> u8 {
        match self {
            Self::Insert { .. } => 0,
            Self::Get { .. } => 1,
            Self::Watch { .. } => 2,
            Self::Release { .. } => 3,
            Self::Delete { .. } => 4,
            Self::Notify { .. } => 5,
            Self::Return { .. } => 6,
        }
    }
}

impl Packet {
    pub fn new(id: PacketId, payload: PacketPayload) -> (r: Self)
        ensures
            r@ == (PacketView { id, payload: payload@ }),
    {
        Self { id, payload }
    }

    pub fn id(&self) -> (r: PacketId)
        ensures
            r == self.id,
    {
        self.id
    }

    pub fn payload(&self) -> (r: &PacketPayload)
        ensures
            r == &self.payload,
    {
        &self.payload
    }

    pub fn into_payload(self) -> (r: PacketPayload)
        ensures
            r == self.payload,
    {
        self.payload
    }

    pub fn get(id: PacketId, key: Key) -> (r: Self)
        ensures
            r@ == (PacketView { id, payload: PayloadView::Get { key: key@ } }),
    {
        Self { id, payload: PacketPayload::get(key) }
    }

    pub fn delete(id: PacketId, key: Key) -> (r: Self)
        ensures
            r@ == (PacketView { id, payload: PayloadView::Delete { key: key@ } }),
    {
        Self { id, payload: PacketPayload::delete(key) }
    }

    pub fn insert(id: PacketId, key: Key, value: Value) -> (r: Self)
        ensures
            r@ == (PacketView { id, payload: PayloadView::Insert { key: key@, value: value@ } }),
    {
        Self { id, payload: PacketPayload::insert(key, value) }
    }

    pub fn release(id: PacketId, key: Key) -> (r: Self)
        ensures
            r@ == (PacketView { id, payload: PayloadView::Release { key: key@ } }),
    {
        Self { id, payload: PacketPayload::release(key) }
    }

    pub fn watch(id: PacketId, key: Key, activity: WatcherActivity, behaviour: WatcherBehaviour) -> (r:
        Self)
        ensures
            r@ == (PacketView {
                id,
                payload: PayloadView::Watch { key: key@, activity, behaviour },
            }),
    {
        Self { id, payload: PacketPayload::watch(key, activity, behaviour) }
    }

    pub fn vreturn(id: PacketId, key: Key, value: Option<Value>) -> (r: Self)
        ensures
            r@ == (PacketView {
                id,
                payload: PayloadView::Return { key: key@, value: value.deep_view() },
            }),
    {
        Self { id, payload: PacketPayload::return_packet(key, value) }
    }

    pub fn notify(id: PacketId, key: Key, value: Option<Value>, is_more: bool) -> (r: Self)
        ensures
            r@ == (PacketView {
                id,
                payload: PayloadView::Notify { key: key@, value: value.deep_view(), more: is_more },
            }),
    {
        Self { id, payload: PacketPayload::notify(key, value, is_more) }
    }

    /// Packets are owned; the packet passes through unchanged.
    pub fn to_owned(self) -> (r: Self)
        ensures
            r == self,
    {
        self
    }
}

} // verus!

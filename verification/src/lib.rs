//! Overseer: a watchable key-value service core.
//!
//! The crate holds the verified logic of the service: the data model (keys and
//! values), the wire codec with its round-trip proof, the watcher primitive,
//! the in-memory store with its subscription index, the paged storage engine
//! with its slotted leaf pages, and the request dispatch rules.

use vstd::prelude::*;

pub mod errors;
pub mod keys;
pub mod values;
pub mod varint;
pub mod access;
pub mod packet;
pub mod codec;
pub mod watcher;
pub mod store;
pub mod buf;
pub mod meta;
pub mod paged_file;
pub mod page;
pub mod leaf;
pub mod storage;
pub mod database;
pub mod server;
pub mod client;
pub mod frame;

verus! {

/// A client identifier, assigned monotonically by the server at accept time.
#[derive(Clone, Copy, PartialEq, Eq, Hash, Debug, Structural)]
pub struct ClientId(pub u64);

impl ClientId {
    pub fn from_id(i: u64) -> (r: Self)
        ensures
            r.0 == i,
    {
        Self(i)
    }
}

} // verus!

//! Subscription modes.
//!
//! A watch names a behaviour (how deliveries are held) and an activity
//! (whether the current value is kicked back at subscribe time).

use vstd::prelude::*;
use crate::errors::NetworkError;

verus! {

/// How a watcher holds deliveries.
#[derive(Debug, PartialEq, Eq, Clone, Copy, Structural)]
pub enum WatcherBehaviour {
    /// Deliveries queue up and come out in order.
    Ordered,
    /// Only the most recent delivery is kept.
    Eager,
}

/// Whether a subscription starts with the current value.
#[derive(Debug, PartialEq, Eq, Clone, Copy, Structural)]
pub enum WatcherActivity {
    /// The current value is delivered immediately on subscribe.
    Kickback,
    /// Only future changes are delivered.
    Lazy,
}

impl WatcherBehaviour {
    /// The wire byte of the behaviour.
    pub fn discriminator(&self) -> (r: u8)
        ensures
            r == self.tag(),
    {
        match self {
            Self::Ordered => 0,
            Self::Eager => 1,
        }
    }

    /// The wire byte, at the specification level.
    pub open spec fn tag(self) -> u8 {
        match self {
            Self::Ordered => 0,
            Self::Eager => 1,
        }
    }

    /// Decodes the wire byte of a behaviour.
    pub fn from_u8(value: u8) -> (r: Result<Self, NetworkError>)
        ensures
            value == 0 ==> r == Ok::<Self, NetworkError>(Self::Ordered),
            value == 1 ==> r == Ok::<Self, NetworkError>(Self::Eager),
            value > 1 ==> r == Err::<Self, NetworkError>(NetworkError::WatcherBehaviourDecodeError),
    {
        match value {
            0 => Ok(Self::Ordered),
            1 => Ok(Self::Eager),
            _ => Err(NetworkError::WatcherBehaviourDecodeError),
        }
    }
}

impl WatcherActivity {
    /// The wire byte of the activity.
    pub fn discriminator(&self) -> (r: u8)
        ensures
            r == self.tag(),
    {
        match self {
            Self::Kickback => 0,
            Self::Lazy => 1,
        }
    }

    /// The wire byte, at the specification level.
    pub open spec fn tag(self) -> u8 {
        match self {
            Self::Kickback => 0,
            Self::Lazy => 1,
        }
    }

    /// Decodes the wire byte of an activity.
    pub fn from_u8(value: u8) -> (r: Result<Self, NetworkError>)
        ensures
            value == 0 ==> r == Ok::<Self, NetworkError>(Self::Kickback),
            value == 1 ==> r == Ok::<Self, NetworkError>(Self::Lazy),
            value > 1 ==> r == Err::<Self, NetworkError>(NetworkError::WatcherActivityDecodeError),
    {
        match value {
            0 => Ok(Self::Kickback),
            1 => Ok(Self::Lazy),
            _ => Err(NetworkError::WatcherActivityDecodeError),
        }
    }
}

} // verus!

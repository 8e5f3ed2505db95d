//! Error types of the library.
//!
//! Each component reports failures through a sum type. Decode errors are fatal
//! to a connection; storage errors are fatal to the current request; semantic
//! conditions (missing key, missing subscription) are reported as `bool` or
//! `Option` results, not as errors.

use vstd::prelude::*;

verus! {

/// Errors of the wire codec, the paged file, and the connection layer.
#[derive(Clone, Copy, PartialEq, Eq, Debug, Structural)]
pub enum NetworkError {
    /// A read or write beyond the bounds of a page.
    IllegalRead,
    /// An acquire of a page whose free byte is set.
    PageFreedError,
    /// An acquire of a page number at or past the end of the file.
    PageOutOfBounds,
    /// An unknown payload tag in a packet.
    UnrecognizedPacketTypeDiscriminator(u8),
    /// An input/output failure, including truncated input.
    IoError,
    /// An unknown value tag.
    UnrecognizedValueTypeDiscriminator(u8),
    /// A key could not be decoded.
    FailedToReadKey,
    /// A value could not be decoded.
    FailedToReadValue,
    /// A watcher activity byte that is neither kickback nor lazy.
    WatcherActivityDecodeError,
    /// A watcher behaviour byte that is neither ordered nor eager.
    WatcherBehaviourDecodeError,
    /// An option marker byte that is neither 0 nor 1.
    ErrorDecodingOption,
    /// A boolean byte that is neither 0 nor 1.
    ErrorDecodingBoolean,
    /// A packet version this library does not speak.
    UnknownPacketSchema(u8),
    /// A byte slice of the wrong length for a fixed-width integer.
    TrySliceError,
    /// Bytes that are not valid UTF-8 where text was expected.
    ParseUtf8Error,
    /// A storage file whose magic byte is wrong.
    BadMagicByte,
    /// A second subscription for the same key and client.
    SubscriptionExists,
    /// An address could not be resolved.
    SocketError,
    /// A connection could not be established.
    FailedToConnectToSocket,
    /// A socket could not be bound.
    SocketBindFailure,
    /// A storage backend failure.
    StorageError,
    /// A response of an unexpected kind.
    WrongResponseFromServer,
}

/// Errors of the slotted leaf page.
#[derive(Clone, Copy, PartialEq, Eq, Debug, Structural)]
pub enum PageError {
    /// The record does not fit in the remaining free space.
    LeafPageFull,
    /// An input/output failure.
    IoError,
    /// A record index whose cell offset is zero.
    NoRecordFound,
    /// A free block could not be read.
    FailedReadingFreeBlock,
    /// An allocation that is neither a lead nor a free-block allocation.
    BadAllocation,
    /// Record bytes that do not decode.
    RecordDeserializationFailure,
}

impl PageError {
    /// A stable small integer for each variant, for comparisons in tests.
    pub fn variant(&self) -> (r: usize)
        ensures
            r == self.variant_id(),
    {
        match self {
            Self::LeafPageFull => 0,
            Self::IoError => 1,
            Self::NoRecordFound => 2,
            Self::FailedReadingFreeBlock => 3,
            Self::BadAllocation => 4,
            Self::RecordDeserializationFailure => 5,
        }
    }

    pub open spec fn variant_id(self) -> usize {
        match self {
            Self::LeafPageFull => 0,
            Self::IoError => 1,
            Self::NoRecordFound => 2,
            Self::FailedReadingFreeBlock => 3,
            Self::BadAllocation => 4,
            Self::RecordDeserializationFailure => 5,
        }
    }
}

/// Errors of the frame allocator.
#[derive(Clone, Copy, PartialEq, Eq, Debug, Structural)]
pub enum FrameAllocatorError {
    /// The frame size is not even.
    BadFrameSize,
    /// A frame index beyond the allocator's frames.
    FrameOutOfBounds,
    /// A frame that is already checked out.
    FrameInUse,
}

/// Errors of reading a typed payload out of a value.
#[derive(Clone, Copy, PartialEq, Eq, Debug, Structural)]
pub enum ValueParseError {
    /// The value holds the other type than the one asked for.
    IncorrectType,
}

} // verus!

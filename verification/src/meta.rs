//! Page addresses and page types.
//!
//! A raw page address is a byte offset into the storage file. Data pages
//! start after a reserved header page and are page-size aligned.

use vstd::prelude::*;
use crate::errors::NetworkError;

verus! {

/// A page is this many bytes.
pub const PAGE_SIZE: usize = 4096;

/// The file starts with a reserved header of this many bytes.
pub const RESERVED_HEADER_SIZE: u32 = 4096;

/// Every page starts with: free byte, previous page word, next page word,
/// page type byte.
pub const PAGE_HEADER_RESERVED_BYTES: u32 = 10;

/// The first byte of a well-formed storage file.
pub const MAGIC_BYTE: u8 = 0x83;

/// A byte offset into the storage file.
#[derive(Copy, Clone, PartialEq, Eq, Debug, Structural)]
pub struct RawPageAddress(pub u32);

impl RawPageAddress {
    pub fn new(inner: u32) -> (r: Self)
        ensures
            r.0 == inner,
    {
        Self(inner)
    }

    pub fn is_zero(&self) -> (r: bool)
        ensures
            r == (self.0 == 0),
    {
        self.0 == 0
    }

    pub fn as_u64(&self) -> (r: u64)
        ensures
            r == self.0,
    {
        self.0 as u64
    }

    pub fn zero() -> (r: Self)
        ensures
            r.0 == 0,
    {
        Self::new(0)
    }

    /// The address `o` bytes further on.
    pub fn offset(self, o: u32) -> (r: Self)
        requires
            self.0 + o <= u32::MAX,
        ensures
            r.0 == self.0 + o,
    {
        Self(self.0 + o)
    }

    /// The address `o` bytes back.
    pub fn offset_subtract(self, o: u32) -> (r: Self)
        requires
            o <= self.0,
        ensures
            r.0 == self.0 - o,
    {
        Self(self.0 - o)
    }

    /// The number of the data page that starts at this address; the zero
    /// address reads as page zero.
    pub fn page_number(&self) -> (r: u32)
        requires
            self.0 == 0 || self.0 >= RESERVED_HEADER_SIZE,
        ensures
            r == self.spec_page_number(),
    {
        if self.is_zero() {
            0
        } else {
            (self.0 - RESERVED_HEADER_SIZE) / (PAGE_SIZE as u32)
        }
    }

    pub open spec fn spec_page_number(self) -> u32 {
        if self.0 == 0 {
            0
        } else {
            (((self.0 - RESERVED_HEADER_SIZE) as u32) / (PAGE_SIZE as u32)) as u32
        }
    }
}

/// The kind of a page body.
#[derive(Copy, Clone, PartialEq, Eq, PartialOrd, Ord, Debug, Structural)]
pub enum PageType {
    Normal,
    Dummy,
}

impl PageType {
    /// The on-disk byte of the page type.
    pub fn as_u8(&self) -> (r: u8)
        ensures
            r == self.tag(),
    {
        match self {
            Self::Normal => 0,
            Self::Dummy => 1,
        }
    }

    /// The on-disk byte, at the specification level.
    pub open spec fn tag(self) -> u8 {
        match self {
            Self::Normal => 0,
            Self::Dummy => 1,
        }
    }

    /// Decodes the on-disk byte of a page type.
    pub fn from_u8(discrim: u8) -> (r: Result<Self, NetworkError>)
        ensures
            discrim == 0 ==> r == Ok::<Self, NetworkError>(Self::Normal),
            discrim == 1 ==> r == Ok::<Self, NetworkError>(Self::Dummy),
            discrim > 1 ==> r == Err::<Self, NetworkError>(NetworkError::ErrorDecodingBoolean),
    {
        match discrim {
            0 => Ok(Self::Normal),
            1 => Ok(Self::Dummy),
            _ => Err(NetworkError::ErrorDecodingBoolean),
        }
    }
}

} // verus!

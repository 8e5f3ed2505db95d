//! Values of the store.
//!
//! A value is a tagged union of exactly two variants: UTF-8 text (tag 0) and a
//! signed 64-bit integer (tag 1). Values are immutable; an update replaces the
//! whole value.

use vstd::prelude::*;
use vstd::bytes::{u64_from_le_bytes, u64_to_le_bytes, spec_u64_to_le_bytes, spec_u64_from_le_bytes};
use vstd::utf8::{valid_utf8, encode_utf8};
use vstd::slice::slice_to_vec;
use vstd::string::StrSliceExecFns;
use crate::errors::{NetworkError, ValueParseError};

verus! {

/// A value of the store.
#[derive(Clone, PartialEq, Eq, Debug)]
pub enum Value {
    String(String),
    Integer(i64),
}

/// The mathematical shape of a value: its text as characters, or its integer.
pub ghost enum ValueView {
    String(Seq<char>),
    Integer(i64),
}

impl View for Value {
    type V = ValueView;

    open spec fn view(&self) -> ValueView {
        match self {
            Value::String(s) => ValueView::String(s@),
            Value::Integer(i) => ValueView::Integer(*i),
        }
    }
}

impl DeepView for Value {
    type V = ValueView;

    open spec fn deep_view(&self) -> ValueView {
        self.view()
    }
}

/// The signed reading of a 64-bit word, as two's complement.
pub open spec fn spec_u64_as_i64(u: u64) -> i64 {
    if u < 0x8000_0000_0000_0000 {
        u as i64
    } else {
        (u - 0x1_0000_0000_0000_0000) as i64
    }
}

/// The unsigned reading of a signed 64-bit integer, as two's complement.
pub open spec fn spec_i64_as_u64(i: i64) -> u64 {
    if i >= 0 {
        i as u64
    } else {
        (i + 0x1_0000_0000_0000_0000) as u64
    }
}

/// Relies on String::from_utf8: it succeeds exactly on valid UTF-8 and
/// returns the string whose UTF-8 encoding is the given bytes.
#[verifier::external_body]
pub fn string_from_utf8(bytes: Vec<u8>) -> (r: Option<String>)
    ensures
        r is Some <==> valid_utf8(bytes@),
        r matches Some(s) ==> encode_utf8(s@) == bytes@,
{
    String::from_utf8(bytes).ok()
}

impl Value {
    /// The wire tag of the value: 0 for text, 1 for an integer.
    pub fn discriminator(&self) -> (r: u8)
        ensures
            r == self.tag(),
    {
        match self {
            Self::String(..) => 0,
            Self::Integer(..) => 1,
        }
    }

    /// The wire tag, at the specification level.
    pub open spec fn tag(self) -> u8 {
        match self {
            Self::String(..) => 0,
            Self::Integer(..) => 1,
        }
    }

    /// Rebuilds a value from a tag and its raw bytes: UTF-8 text for tag 0, a
    /// little-endian 64-bit integer for tag 1.
    pub fn decode(discrim: u8, bytes: &[u8]) -> (r: Result<Self, NetworkError>)
        ensures
            discrim == 0 ==> (r is Ok <==> valid_utf8(bytes@)),
            discrim == 0 ==> (r matches Ok(v) ==> v matches Value::String(s) && encode_utf8(s@)
                == bytes@),
            discrim == 0 && !valid_utf8(bytes@) ==> r == Err::<Value, NetworkError>(
                NetworkError::ParseUtf8Error,
            ),
            discrim == 1 ==> (r is Ok <==> bytes@.len() == 8),
            discrim == 1 && bytes@.len() == 8 ==> r == Ok::<Value, NetworkError>(
                Value::Integer(spec_u64_as_i64(spec_u64_from_le_bytes(bytes@))),
            ),
            discrim == 1 && bytes@.len() != 8 ==> r == Err::<Value, NetworkError>(
                NetworkError::TrySliceError,
            ),
            discrim != 0 && discrim != 1 ==> r == Err::<Value, NetworkError>(
                NetworkError::UnrecognizedValueTypeDiscriminator(discrim),
            ),
    {
        match discrim {
            0 => {
                match string_from_utf8(slice_to_vec(bytes)) {
                    Some(s) => Ok(Self::String(s)),
                    None => Err(NetworkError::ParseUtf8Error),
                }
            },
            1 => {
                if bytes.len() != 8 {
                    Err(NetworkError::TrySliceError)
                } else {
                    let u = u64_from_le_bytes(bytes);
                    if u < 0x8000_0000_0000_0000 {
                        Ok(Self::Integer(u as i64))
                    } else {
                        let mag: u64 = (0xFFFF_FFFF_FFFF_FFFFu64 - u) + 1;
                        if mag == 0x8000_0000_0000_0000 {
                            Ok(Self::Integer(i64::MIN))
                        } else {
                            Ok(Self::Integer(-(mag as i64)))
                        }
                    }
                }
            },
            x => Err(NetworkError::UnrecognizedValueTypeDiscriminator(x)),
        }
    }

    /// A printable name for the value's type.
    pub fn kind_name(&self) -> (r: &'static str)
        ensures
            self is String ==> r@ == "string"@,
            self is Integer ==> r@ == "integer"@,
    {
        match self {
            Self::String(..) => "string",
            Self::Integer(..) => "integer",
        }
    }

    /// The text of the value, or an error if it holds an integer.
    pub fn as_string(&self) -> (r: Result<&str, ValueParseError>)
        ensures
            self matches Value::String(s) ==> (r matches Ok(t) && t@ == s@),
            self is Integer ==> r == Err::<&str, ValueParseError>(ValueParseError::IncorrectType),
    {
        if let Self::String(s) = self {
            Ok(s.as_str())
        } else {
            Err(ValueParseError::IncorrectType)
        }
    }

    /// The integer of the value, or an error if it holds text.
    pub fn as_integer(&self) -> (r: Result<i64, ValueParseError>)
        ensures
            self matches Value::Integer(i) ==> r == Ok::<i64, ValueParseError>(*i),
            self is String ==> r == Err::<i64, ValueParseError>(ValueParseError::IncorrectType),
    {
        if let Self::Integer(s) = self {
            Ok(*s)
        } else {
            Err(ValueParseError::IncorrectType)
        }
    }

    /// The raw bytes of the value: UTF-8 for text, little-endian for an
    /// integer.
    pub fn as_bytes(&self) -> (r: Vec<u8>)
        ensures
            self matches Value::String(s) ==> r@ == encode_utf8(s@),
            self matches Value::Integer(i) ==> r@ == spec_u64_to_le_bytes(spec_i64_as_u64(*i)),
    {
        match self {
            Self::Integer(i) => {
                let u: u64 = if *i >= 0 {
                    *i as u64
                } else {
                    (u64::MAX - ((-(*i + 1)) as u64)) as u64
                };
                u64_to_le_bytes(u)
            },
            Self::String(s) => s.as_str().as_bytes_vec(),
        }
    }

    /// A copy of the value, equal to the original.
    pub fn duplicate(&self) -> (r: Value)
        ensures
            r == *self,
    {
        match self {
            Self::String(s) => Self::String(s.clone()),
            Self::Integer(i) => Self::Integer(*i),
        }
    }

    /// Structural equality of two values, decided at the view level.
    pub fn matches_value(&self, other: &Value) -> (r: bool)
        ensures
            r == (self@ == other@),
    {
        match (self, other) {
            (Value::String(a), Value::String(b)) => *a == *b,
            (Value::Integer(a), Value::Integer(b)) => *a == *b,
            _ => false,
        }
    }
}

} // verus!

//! Keys of the store.
//!
//! A key is a non-empty UTF-8 string; equality is byte-exact, and a key is
//! immutable once constructed.

use vstd::prelude::*;
use vstd::string::StringExecFns;

verus! {

/// A key of the store, viewed as its sequence of characters.
#[derive(Clone, PartialEq, Eq, Hash, Debug)]
pub struct Key(pub String);

impl View for Key {
    type V = Seq<char>;

    open spec fn view(&self) -> Seq<char> {
        self.0@
    }
}

impl Key {
    /// Wraps an owned string as a key; keys are never empty.
    pub fn from_owned(key: String) -> (r: Self)
        requires
            key@.len() > 0,
        ensures
            r@ == key@,
    {
        Self(key)
    }

    /// Copies a string slice into a fresh key; keys are never empty.
    pub fn from_str(key: &str) -> (r: Self)
        requires
            key@.len() > 0,
        ensures
            r@ == key@,
    {
        Self(String::from_str(key))
    }

    /// The key's text.
    pub fn as_str(&self) -> (r: &str)
        ensures
            r@ == self@,
    {
        self.0.as_str()
    }

    /// A copy of the key, equal to the original.
    pub fn duplicate(&self) -> (r: Self)
        ensures
            r == *self,
    {
        Self(self.0.clone())
    }

    /// Byte-exact equality of two keys.
    pub fn matches(&self, other: &Key) -> (r: bool)
        ensures
            r == (self@ == other@),
    {
        self.0 == other.0
    }
}

} // verus!

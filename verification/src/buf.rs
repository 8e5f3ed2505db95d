//! Byte-buffer primitives for the paged storage engine: in-place range
//! writes and little-endian 16-bit fields.

use vstd::prelude::*;
use vstd::bytes::{u16_from_le_bytes, u16_to_le_bytes, spec_u16_to_le_bytes, spec_u16_from_le_bytes};
use vstd::slice::{slice_subrange, slice_to_vec};

verus! {

/// A fresh copy of a byte buffer.
pub fn copy_bytes(src: &Vec<u8>) -> (r: Vec<u8>)
    ensures
        r@ == src@,
{
    slice_to_vec(src.as_slice())
}

/// The buffer with `src` written over it at `at`; everything else keeps its
/// byte.
pub open spec fn spec_splice(dst: Seq<u8>, at: int, src: Seq<u8>) -> Seq<u8> {
    Seq::new(dst.len(), |i: int| if at <= i < at + src.len() {
        src[i - at]
    } else {
        dst[i]
    })
}

/// Writes `src` over `dst` starting at `at`.
pub fn splice_bytes(dst: &mut Vec<u8>, at: usize, src: &[u8])
    requires
        at + src@.len() <= old(dst)@.len(),
    ensures
        final(dst)@ == spec_splice(old(dst)@, at as int, src@),
{
    let total = dst.len();
    let n = src.len();
    let mut i: usize = 0;
    while i < n
        invariant
            n == src@.len(),
            total == dst@.len(),
            at + n <= dst@.len() == old(dst)@.len(),
            i <= n,
            forall|j: int| 0 <= j < i ==> dst@[at + j] == src@[j],
            forall|j: int| 0 <= j < dst@.len() && !(at <= j < at + i) ==> dst@[j] == old(dst)@[j],
        decreases n - i,
    {
        dst.set(at + i, src[i]);
        i = i + 1;
    }
    assert(dst@ =~= spec_splice(old(dst)@, at as int, src@));
}

/// Fills `dst` with `value` on the range `at ..= at + n - 1`.
pub fn fill_bytes(dst: &mut Vec<u8>, at: usize, n: usize, value: u8)
    requires
        at + n <= old(dst)@.len(),
    ensures
        final(dst)@.len() == old(dst)@.len(),
        forall|j: int| at <= j < at + n ==> final(dst)@[j] == value,
        forall|j: int|
            0 <= j < old(dst)@.len() && !(at <= j < at + n) ==> final(dst)@[j] == old(dst)@[j],
{
    let total = dst.len();
    let mut i: usize = 0;
    while i < n
        invariant
            total == dst@.len(),
            at + n <= dst@.len() == old(dst)@.len(),
            i <= n,
            forall|j: int| at <= j < at + i ==> dst@[j] == value,
            forall|j: int| 0 <= j < dst@.len() && !(at <= j < at + i) ==> dst@[j] == old(dst)@[j],
        decreases n - i,
    {
        dst.set(at + i, value);
        i = i + 1;
    }
}

/// The little-endian 16-bit field stored at `at`.
pub open spec fn spec_u16_at(b: Seq<u8>, at: int) -> u16 {
    spec_u16_from_le_bytes(b.subrange(at, at + 2))
}

/// Reads the little-endian 16-bit field at `at`.
pub fn read_u16_at(bytes: &Vec<u8>, at: usize) -> (r: u16)
    requires
        at + 2 <= bytes@.len(),
    ensures
        r == spec_u16_at(bytes@, at as int),
{
    let total = bytes.len();
    let s = slice_subrange(bytes.as_slice(), at, at + 2);
    u16_from_le_bytes(s)
}

/// Writes the little-endian 16-bit field at `at`.
pub fn write_u16_at(dst: &mut Vec<u8>, at: usize, v: u16)
    requires
        at + 2 <= old(dst)@.len(),
    ensures
        final(dst)@ == spec_splice(old(dst)@, at as int, spec_u16_to_le_bytes(v)),
        final(dst)@.len() == old(dst)@.len(),
        spec_u16_at(final(dst)@, at as int) == v,
        forall|j: int|
            0 <= j < old(dst)@.len() && !(at <= j < at + 2) ==> final(dst)@[j] == old(dst)@[j],
{
    proof {
        vstd::bytes::lemma_auto_spec_u16_to_from_le_bytes();
    }
    let le = u16_to_le_bytes(v);
    splice_bytes(dst, at, le.as_slice());
    assert(final(dst)@.subrange(at as int, at + 2) =~= spec_u16_to_le_bytes(v));
}


} // verus!

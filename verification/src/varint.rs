//! Variable-width integers.
//!
//! Unsigned values travel as LEB128: seven payload bits per byte, least
//! significant group first, and the high bit of every byte but the last set.
//! Signed values are zig-zag folded onto the unsigned line first, so that
//! small magnitudes of either sign stay short.

use vstd::prelude::*;
use crate::errors::NetworkError;

verus! {

/// The LEB128 encoding of an unsigned number.
pub open spec fn spec_varint(n: nat) -> Seq<u8>
    decreases n,
{
    if n < 128 {
        seq![n as u8]
    } else {
        seq![(128 + (n % 128)) as u8] + spec_varint(n / 128)
    }
}

/// The LEB128 parse of a byte sequence: the value and how many bytes it took,
/// or nothing if the bytes end before a byte with a clear high bit.
pub open spec fn spec_parse_varint(b: Seq<u8>) -> Option<(nat, int)>
    decreases b.len(),
{
    if b.len() == 0 {
        None
    } else if b[0] < 128 {
        Some((b[0] as nat, 1))
    } else {
        match spec_parse_varint(b.skip(1)) {
            Option::None => None,
            Option::Some((v, used)) => Some((((b[0] - 128) + 128 * v) as nat, used + 1)),
        }
    }
}

/// The zig-zag fold of a signed integer onto the unsigned line:
/// 0, -1, 1, -2, 2, ... become 0, 1, 2, 3, 4, ...
pub open spec fn spec_zigzag(i: i64) -> u64 {
    if i >= 0 {
        (2 * i) as u64
    } else {
        (-2 * i - 1) as u64
    }
}

/// The inverse of the zig-zag fold.
pub open spec fn spec_unzigzag(u: u64) -> i64 {
    if u % 2 == 0 {
        (u / 2) as i64
    } else {
        (-((u + 1) / 2)) as i64
    }
}

/// Parsing bytes that start with a value's encoding recovers exactly that
/// value and consumes exactly the encoding.
pub proof fn lemma_varint_roundtrip(n: nat, rest: Seq<u8>)
    ensures
        spec_parse_varint(spec_varint(n) + rest) == Some(
            (n, spec_varint(n).len() as int),
        ),
    decreases n,
{
    if n < 128 {
        assert((spec_varint(n) + rest)[0] == n as u8);
        assert((spec_varint(n) + rest).len() >= 1);
    } else {
        let b0: u8 = (128 + (n % 128)) as u8;
        lemma_varint_roundtrip(n / 128, rest);
        assert((spec_varint(n) + rest).skip(1) =~= spec_varint(n / 128) + rest);
        assert((spec_varint(n) + rest)[0] == b0);
        assert((b0 - 128) + 128 * (n / 128) == n as int);
    }
}

/// Powers of the LEB128 radix.
pub open spec fn pow128(k: nat) -> nat
    decreases k,
{
    if k == 0 {
        1
    } else {
        128 * pow128((k - 1) as nat)
    }
}

/// The encoding of a 64-bit value is at most ten bytes, and never empty.
pub proof fn lemma_varint_len(n: nat)
    ensures
        1 <= spec_varint(n).len(),
        n < 0x1_0000_0000_0000_0000 ==> spec_varint(n).len() <= 10,
{
    if n >= 128 && n < 0x1_0000_0000_0000_0000 {
        assert(pow128(10) == 0x40_0000_0000_0000_0000) by {
            reveal_with_fuel(pow128, 11);
        }
        lemma_varint_len_bound(n, 10);
    }
}

proof fn lemma_varint_len_bound(n: nat, k: nat)
    requires
        n < pow128(k),
        k >= 1,
    ensures
        spec_varint(n).len() <= k,
    decreases n,
{
    if n < 128 {
    } else {
        assert(pow128(k) == 128 * pow128((k - 1) as nat));
        assert(n / 128 < pow128((k - 1) as nat)) by (nonlinear_arith)
            requires
                n < 128 * pow128((k - 1) as nat),
                n >= 128,
        ;
        assert(k >= 2);
        lemma_varint_len_bound(n / 128, (k - 1) as nat);
    }
}

/// A successful parse consumes at least one byte and at most the buffer.
pub proof fn lemma_parse_varint_bounds(b: Seq<u8>)
    ensures
        spec_parse_varint(b) matches Some((v, used)) ==> 1 <= used <= b.len(),
    decreases b.len(),
{
    if b.len() > 0 && b[0] >= 128 {
        lemma_parse_varint_bounds(b.skip(1));
    }
}

/// A short value has a short encoding: two bytes suffice below the
/// two-group bound.
pub proof fn lemma_varint_len_small(n: nat)
    ensures
        n < 16384 ==> spec_varint(n).len() <= 2,
{
    if 128 <= n && n < 16384 {
        assert(spec_varint(n).len() == 1 + spec_varint(n / 128).len());
        assert(n / 128 < 128);
    }
}

/// The zig-zag fold loses nothing.
pub proof fn lemma_zigzag_roundtrip(i: i64)
    ensures
        spec_unzigzag(spec_zigzag(i)) == i,
{
}

/// Variable-width integer reading and writing on byte buffers.
pub struct OvrInteger;

impl OvrInteger {
    /// Appends the LEB128 encoding of `data`.
    pub fn write(data: u64, out: &mut Vec<u8>)
        ensures
            final(out)@ == old(out)@ + spec_varint(data as nat),
    {
        let ghost orig = out@;
        let mut n: u64 = data;
        loop
            invariant_except_break
                orig + spec_varint(data as nat) == out@ + spec_varint(n as nat),
            ensures
                out@ == orig + spec_varint(data as nat),
            decreases n,
        {
            if n < 128 {
                out.push(n as u8);
                proof {
                    assert(spec_varint(n as nat) =~= seq![n as u8]);
                    assert(out@ =~= orig + spec_varint(data as nat));
                }
                break;
            } else {
                let b: u8 = ((n % 128) + 128) as u8;
                out.push(b);
                proof {
                    assert(spec_varint(n as nat) =~= seq![b] + spec_varint((n / 128) as nat));
                    assert(out@ + spec_varint((n / 128) as nat) =~= orig + spec_varint(
                        data as nat,
                    ));
                }
                n = n / 128;
            }
        }
    }

    /// Appends the zig-zag LEB128 encoding of a signed value.
    pub fn write_signed(data: i64, out: &mut Vec<u8>)
        ensures
            final(out)@ == old(out)@ + spec_varint(spec_zigzag(data) as nat),
    {
        let folded: u64 = if data >= 0 {
            (data as u64) * 2
        } else {
            ((-(data + 1)) as u64) * 2 + 1
        };
        Self::write(folded, out);
    }

    /// Reads an LEB128 value at `pos`. On success returns the value and the
    /// position just past it; fails when the bytes end first or the value
    /// does not fit in 64 bits.
    pub fn read(bytes: &[u8], pos: usize) -> (r: Result<(u64, usize), NetworkError>)
        requires
            pos <= bytes@.len(),
        ensures
            r matches Ok((v, end)) ==> pos < end <= bytes@.len() && spec_parse_varint(
                bytes@.skip(pos as int),
            ) == Some((v as nat, end - pos)),
            r is Err ==> r == Err::<(u64, usize), NetworkError>(NetworkError::IoError) && (
            spec_parse_varint(bytes@.skip(pos as int)) is None || spec_parse_varint(
                bytes@.skip(pos as int),
            )->Some_0.0 > u64::MAX),
        decreases bytes@.len() - pos,
    {
        if pos >= bytes.len() {
            assert(bytes@.skip(pos as int).len() == 0);
            return Err(NetworkError::IoError);
        }
        let b = bytes[pos];
        if b < 128 {
            assert(bytes@.skip(pos as int)[0] == b);
            Ok((b as u64, pos + 1))
        } else {
            let low: u64 = (b - 128) as u64;
            proof {
                assert(bytes@.skip(pos as int).skip(1) =~= bytes@.skip(pos as int + 1));
            }
            match Self::read(bytes, pos + 1) {
                Err(e) => Err(e),
                Ok((v, end)) => {
                    if v > (u64::MAX - low) / 128 {
                        proof {
                            assert(low + 128 * (v as nat) > u64::MAX) by (nonlinear_arith)
                                requires
                                    v > (u64::MAX - low) / 128,
                                    low < 128,
                            ;
                        }
                        Err(NetworkError::IoError)
                    } else {
                        proof {
                            assert(low + 128 * (v as nat) <= u64::MAX) by (nonlinear_arith)
                                requires
                                    v <= (u64::MAX - low) / 128,
                                    low < 128,
                            ;
                        }
                        Ok((low + 128 * v, end))
                    }
                },
            }
        }
    }

    /// Reads a zig-zag LEB128 signed value at `pos`.
    pub fn read_signed(bytes: &[u8], pos: usize) -> (r: Result<(i64, usize), NetworkError>)
        requires
            pos <= bytes@.len(),
        ensures
            r matches Ok((v, end)) ==> pos < end <= bytes@.len() && (
            spec_parse_varint(bytes@.skip(pos as int)) matches Some((u, used)) && u
                <= u64::MAX && v == spec_unzigzag(u as u64) && end - pos == used),
            r is Err ==> r == Err::<(i64, usize), NetworkError>(NetworkError::IoError) && (
            spec_parse_varint(bytes@.skip(pos as int)) is None || spec_parse_varint(
                bytes@.skip(pos as int),
            )->Some_0.0 > u64::MAX),
    {
        match Self::read(bytes, pos) {
            Err(e) => Err(e),
            Ok((u, end)) => {
                let v: i64 = if u % 2 == 0 {
                    (u / 2) as i64
                } else {
                    -((u / 2) as i64) - 1
                };
                Ok((v, end))
            },
        }
    }

    /// How many bytes the LEB128 encoding of `n` takes.
    pub fn required_space(n: u64) -> (r: usize)
        ensures
            r == spec_varint(n as nat).len(),
    {
        let mut count: usize = 1;
        let mut m: u64 = n;
        proof {
            lemma_varint_len(n as nat);
        }
        while m >= 128
            invariant
                1 <= count <= 10,
                spec_varint(n as nat).len() == count + spec_varint(m as nat).len() - 1,
                spec_varint(n as nat).len() <= 10,
            decreases m,
        {
            proof {
                lemma_varint_len((m / 128) as nat);
                assert(spec_varint(m as nat).len() == 1 + spec_varint((m / 128) as nat).len());
            }
            m = m / 128;
            count = count + 1;
        }
        count
    }
}

} // verus!

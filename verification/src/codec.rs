//! The wire codec.
//!
//! A packet travels as: a version byte, the packet id as two big-endian
//! 32-bit words, a payload tag byte, and the payload fields. Keys and text
//! travel as a varint length followed by UTF-8 bytes; integers as zig-zag
//! varints; options as a marker byte; booleans as a single byte.
//!
//! The encoding and the parse are first stated as specification functions,
//! and parsing is proved to invert encoding; the executable reader and
//! writer are then proved to implement them.

use vstd::prelude::*;
use vstd::bytes::{
    u32_from_le_bytes,
    u32_to_le_bytes,
    spec_u32_to_le_bytes,
    spec_u32_from_le_bytes,
    lemma_auto_spec_u32_to_from_le_bytes,
};
use vstd::utf8::{valid_utf8, encode_utf8, decode_utf8, encode_utf8_valid_utf8, encode_utf8_decode_utf8};
use vstd::slice::{slice_subrange, slice_to_vec};
use vstd::string::StrSliceExecFns;
use crate::access::{WatcherActivity, WatcherBehaviour};
use crate::errors::NetworkError;
use crate::keys::Key;
use crate::packet::{Packet, PacketId, PacketPayload, PacketView, PayloadView, CURRENT_VERSION};
use crate::values::{Value, ValueView, string_from_utf8};
use crate::varint::{spec_varint, spec_parse_varint, spec_zigzag, spec_unzigzag, lemma_varint_roundtrip, OvrInteger};

verus! {

// ---------------------------------------------------------------------------
// Specification: what each field encodes to.
// ---------------------------------------------------------------------------

/// A 32-bit word, most significant byte first.
pub open spec fn spec_ser_u32_be(x: u32) -> Seq<u8> {
    let le = spec_u32_to_le_bytes(x);
    seq![le[3], le[2], le[1], le[0]]
}

/// Text: a varint byte length, then the UTF-8 bytes.
pub open spec fn spec_ser_string(s: Seq<char>) -> Seq<u8> {
    spec_varint(encode_utf8(s).len()) + encode_utf8(s)
}

/// A value: its tag byte, then its body.
pub open spec fn spec_ser_value(v: ValueView) -> Seq<u8> {
    match v {
        ValueView::String(s) => seq![0u8] + spec_ser_string(s),
        ValueView::Integer(i) => seq![1u8] + spec_varint(spec_zigzag(i) as nat),
    }
}

/// An optional value: a marker byte, then the value if present.
pub open spec fn spec_ser_opt_value(v: Option<ValueView>) -> Seq<u8> {
    match v {
        Option::None => seq![0u8],
        Option::Some(v) => seq![1u8] + spec_ser_value(v),
    }
}

/// A boolean: one byte, 0 or 1.
pub open spec fn spec_ser_bool(b: bool) -> Seq<u8> {
    if b {
        seq![1u8]
    } else {
        seq![0u8]
    }
}

/// A payload body, without its tag byte.
pub open spec fn spec_ser_payload_body(p: PayloadView) -> Seq<u8> {
    match p {
        PayloadView::Insert { key, value } => spec_ser_string(key) + spec_ser_value(value),
        PayloadView::Get { key } => spec_ser_string(key),
        PayloadView::Watch { key, activity, behaviour } => spec_ser_string(key) + seq![
            activity.tag(),
            behaviour.tag(),
        ],
        PayloadView::Release { key } => spec_ser_string(key),
        PayloadView::Delete { key } => spec_ser_string(key),
        PayloadView::Notify { key, value, more } => spec_ser_string(key) + spec_ser_opt_value(value)
            + spec_ser_bool(more),
        PayloadView::Return { key, value } => spec_ser_string(key) + spec_ser_opt_value(value),
    }
}

/// A whole packet: version, id, order, tag, payload body.
pub open spec fn spec_ser_packet(p: PacketView) -> Seq<u8> {
    seq![CURRENT_VERSION] + spec_ser_u32_be(p.id.0) + spec_ser_u32_be(p.id.1) + seq![
        p.payload.tag(),
    ] + spec_ser_payload_body(p.payload)
}

// ---------------------------------------------------------------------------
// Specification: what a byte sequence parses to. Each parse returns the
// parsed item and how many bytes it consumed, or nothing when the bytes are
// truncated or malformed.
// ---------------------------------------------------------------------------

/// Parses a big-endian 32-bit word.
pub open spec fn spec_parse_u32_be(b: Seq<u8>) -> Option<(u32, int)> {
    if b.len() < 4 {
        None
    } else {
        Some((spec_u32_from_le_bytes(seq![b[3], b[2], b[1], b[0]]), 4))
    }
}

/// Parses varint-length-prefixed UTF-8 text.
pub open spec fn spec_parse_string(b: Seq<u8>) -> Option<(Seq<char>, int)> {
    match spec_parse_varint(b) {
        Option::None => None,
        Option::Some((n, used)) => if used + n > b.len() {
            None
        } else {
            let data = b.subrange(used, used + n);
            if valid_utf8(data) {
                Some((decode_utf8(data), used + n))
            } else {
                None
            }
        },
    }
}

/// Parses a key: length-prefixed UTF-8 text that must not be empty.
pub open spec fn spec_parse_key(b: Seq<u8>) -> Option<(Seq<char>, int)> {
    match spec_parse_string(b) {
        Option::None => None,
        Option::Some((s, used)) => if s.len() == 0 {
            None
        } else {
            Some((s, used))
        },
    }
}

/// The key a payload names.
pub open spec fn spec_payload_key(p: PayloadView) -> Seq<char> {
    match p {
        PayloadView::Insert { key, .. } => key,
        PayloadView::Get { key } => key,
        PayloadView::Watch { key, .. } => key,
        PayloadView::Release { key } => key,
        PayloadView::Delete { key } => key,
        PayloadView::Notify { key, .. } => key,
        PayloadView::Return { key, .. } => key,
    }
}

/// A well-formed packet names a non-empty key.
pub open spec fn spec_packet_wf(p: PacketView) -> bool {
    spec_payload_key(p.payload).len() > 0
}

/// Parses a tagged value.
pub open spec fn spec_parse_value(b: Seq<u8>) -> Option<(ValueView, int)> {
    if b.len() == 0 {
        None
    } else if b[0] == 0 {
        match spec_parse_string(b.skip(1)) {
            Option::None => None,
            Option::Some((s, used)) => Some((ValueView::String(s), 1 + used)),
        }
    } else if b[0] == 1 {
        match spec_parse_varint(b.skip(1)) {
            Option::None => None,
            Option::Some((u, used)) => if u > u64::MAX {
                None
            } else {
                Some((ValueView::Integer(spec_unzigzag(u as u64)), 1 + used))
            },
        }
    } else {
        None
    }
}

/// Parses an optional value.
pub open spec fn spec_parse_opt_value(b: Seq<u8>) -> Option<(Option<ValueView>, int)> {
    if b.len() == 0 {
        None
    } else if b[0] == 0 {
        Some((None, 1))
    } else if b[0] == 1 {
        match spec_parse_value(b.skip(1)) {
            Option::None => None,
            Option::Some((v, used)) => Some((Some(v), 1 + used)),
        }
    } else {
        None
    }
}

/// Parses a boolean byte.
pub open spec fn spec_parse_bool(b: Seq<u8>) -> Option<(bool, int)> {
    if b.len() == 0 {
        None
    } else if b[0] == 0 {
        Some((false, 1))
    } else if b[0] == 1 {
        Some((true, 1))
    } else {
        None
    }
}

/// Parses a payload body, given its tag.
pub open spec fn spec_parse_payload_body(tag: u8, b: Seq<u8>) -> Option<(PayloadView, int)> {
    if tag == 0 {
        match spec_parse_key(b) {
            Option::None => None,
            Option::Some((key, u1)) => match spec_parse_value(b.skip(u1)) {
                Option::None => None,
                Option::Some((value, u2)) => Some(
                    (PayloadView::Insert { key, value }, u1 + u2),
                ),
            },
        }
    } else if tag == 1 {
        match spec_parse_key(b) {
            Option::None => None,
            Option::Some((key, u1)) => Some((PayloadView::Get { key }, u1)),
        }
    } else if tag == 2 {
        match spec_parse_key(b) {
            Option::None => None,
            Option::Some((key, u1)) => if b.len() < u1 + 2 {
                None
            } else {
                let a = b[u1];
                let h = b[u1 + 1];
                if a > 1 || h > 1 {
                    None
                } else {
                    Some(
                        (
                            PayloadView::Watch {
                                key,
                                activity: if a == 0 {
                                    WatcherActivity::Kickback
                                } else {
                                    WatcherActivity::Lazy
                                },
                                behaviour: if h == 0 {
                                    WatcherBehaviour::Ordered
                                } else {
                                    WatcherBehaviour::Eager
                                },
                            },
                            u1 + 2,
                        ),
                    )
                }
            },
        }
    } else if tag == 3 {
        match spec_parse_key(b) {
            Option::None => None,
            Option::Some((key, u1)) => Some((PayloadView::Release { key }, u1)),
        }
    } else if tag == 4 {
        match spec_parse_key(b) {
            Option::None => None,
            Option::Some((key, u1)) => Some((PayloadView::Delete { key }, u1)),
        }
    } else if tag == 5 {
        match spec_parse_key(b) {
            Option::None => None,
            Option::Some((key, u1)) => match spec_parse_opt_value(b.skip(u1)) {
                Option::None => None,
                Option::Some((value, u2)) => match spec_parse_bool(b.skip(u1 + u2)) {
                    Option::None => None,
                    Option::Some((more, u3)) => Some(
                        (PayloadView::Notify { key, value, more }, u1 + u2 + u3),
                    ),
                },
            },
        }
    } else if tag == 6 {
        match spec_parse_key(b) {
            Option::None => None,
            Option::Some((key, u1)) => match spec_parse_opt_value(b.skip(u1)) {
                Option::None => None,
                Option::Some((value, u2)) => Some(
                    (PayloadView::Return { key, value }, u1 + u2),
                ),
            },
        }
    } else {
        None
    }
}

/// Parses a whole packet.
pub open spec fn spec_parse_packet(b: Seq<u8>) -> Option<(PacketView, int)> {
    if b.len() < 10 {
        None
    } else if b[0] != CURRENT_VERSION {
        None
    } else {
        let id = spec_parse_u32_be(b.skip(1))->Some_0.0;
        let order = spec_parse_u32_be(b.skip(5))->Some_0.0;
        match spec_parse_payload_body(b[9], b.skip(10)) {
            Option::None => None,
            Option::Some((payload, used)) => Some(
                (PacketView { id: PacketId(id, order), payload }, 10 + used),
            ),
        }
    }
}

// ---------------------------------------------------------------------------
// Round trip: parsing inverts encoding, whatever follows the encoding.
// ---------------------------------------------------------------------------

proof fn lemma_u32_be_roundtrip(x: u32, rest: Seq<u8>)
    ensures
        spec_parse_u32_be(spec_ser_u32_be(x) + rest) == Some((x, 4int)),
{
    lemma_auto_spec_u32_to_from_le_bytes();
    let le = spec_u32_to_le_bytes(x);
    let b = spec_ser_u32_be(x) + rest;
    assert(seq![b[3], b[2], b[1], b[0]] =~= le);
}

proof fn lemma_string_roundtrip(s: Seq<char>, rest: Seq<u8>)
    ensures
        spec_parse_string(spec_ser_string(s) + rest) == Some(
            (s, spec_ser_string(s).len() as int),
        ),
{
    let e = encode_utf8(s);
    let lv = spec_varint(e.len());
    let b = spec_ser_string(s) + rest;
    assert(b =~= lv + (e + rest));
    lemma_varint_roundtrip(e.len(), e + rest);
    assert(spec_parse_varint(b) == Some((e.len(), lv.len() as int)));
    assert(b.subrange(lv.len() as int, (lv.len() + e.len()) as int) =~= e);
    encode_utf8_valid_utf8(s);
    encode_utf8_decode_utf8(s);
}

proof fn lemma_value_roundtrip(v: ValueView, rest: Seq<u8>)
    ensures
        spec_parse_value(spec_ser_value(v) + rest) == Some(
            (v, spec_ser_value(v).len() as int),
        ),
{
    let b = spec_ser_value(v) + rest;
    match v {
        ValueView::String(s) => {
            assert(b.skip(1) =~= spec_ser_string(s) + rest);
            lemma_string_roundtrip(s, rest);
        },
        ValueView::Integer(i) => {
            let z = spec_zigzag(i);
            assert(b.skip(1) =~= spec_varint(z as nat) + rest);
            lemma_varint_roundtrip(z as nat, rest);
            crate::varint::lemma_zigzag_roundtrip(i);
        },
    }
}

proof fn lemma_opt_value_roundtrip(v: Option<ValueView>, rest: Seq<u8>)
    ensures
        spec_parse_opt_value(spec_ser_opt_value(v) + rest) == Some(
            (v, spec_ser_opt_value(v).len() as int),
        ),
{
    let b = spec_ser_opt_value(v) + rest;
    match v {
        Option::None => {
            assert(b[0] == 0);
        },
        Option::Some(inner) => {
            assert(b[0] == 1);
            assert(b.skip(1) =~= spec_ser_value(inner) + rest);
            lemma_value_roundtrip(inner, rest);
        },
    }
}

proof fn lemma_bool_roundtrip(v: bool, rest: Seq<u8>)
    ensures
        spec_parse_bool(spec_ser_bool(v) + rest) == Some((v, 1int)),
{
}

#[verifier::rlimit(100)]
proof fn lemma_payload_body_roundtrip(p: PayloadView, rest: Seq<u8>)
    requires
        spec_payload_key(p).len() > 0,
    ensures
        spec_parse_payload_body(p.tag(), spec_ser_payload_body(p) + rest) == Some(
            (p, spec_ser_payload_body(p).len() as int),
        ),
{
    let b = spec_ser_payload_body(p) + rest;
    match p {
        PayloadView::Insert { key, value } => {
            let sk = spec_ser_string(key);
            let sv = spec_ser_value(value);
            assert(b =~= sk + (sv + rest));
            lemma_string_roundtrip(key, sv + rest);
            assert(b.skip(sk.len() as int) =~= sv + rest);
            lemma_value_roundtrip(value, rest);
        },
        PayloadView::Get { key } => {
            lemma_string_roundtrip(key, rest);
            assert(b =~= spec_ser_string(key) + rest);
        },
        PayloadView::Watch { key, activity, behaviour } => {
            let sk = spec_ser_string(key);
            let tail = seq![activity.tag(), behaviour.tag()];
            assert(b =~= sk + (tail + rest));
            lemma_string_roundtrip(key, tail + rest);
            assert(b[sk.len() as int] == activity.tag());
            assert(b[(sk.len() + 1) as int] == behaviour.tag());
        },
        PayloadView::Release { key } => {
            lemma_string_roundtrip(key, rest);
            assert(b =~= spec_ser_string(key) + rest);
        },
        PayloadView::Delete { key } => {
            lemma_string_roundtrip(key, rest);
            assert(b =~= spec_ser_string(key) + rest);
        },
        PayloadView::Notify { key, value, more } => {
            let sk = spec_ser_string(key);
            let sv = spec_ser_opt_value(value);
            let sm = spec_ser_bool(more);
            assert(b =~= sk + (sv + (sm + rest)));
            lemma_string_roundtrip(key, sv + (sm + rest));
            assert(b.skip(sk.len() as int) =~= sv + (sm + rest));
            lemma_opt_value_roundtrip(value, sm + rest);
            assert(b.skip((sk.len() + sv.len()) as int) =~= sm + rest);
            lemma_bool_roundtrip(more, rest);
        },
        PayloadView::Return { key, value } => {
            let sk = spec_ser_string(key);
            let sv = spec_ser_opt_value(value);
            assert(b =~= sk + (sv + rest));
            lemma_string_roundtrip(key, sv + rest);
            assert(b.skip(sk.len() as int) =~= sv + rest);
            lemma_opt_value_roundtrip(value, rest);
        },
    }
}

/// Round trip: for every well-formed packet — one naming a non-empty key —
/// parsing its encoding, whatever bytes follow it, yields exactly the
/// packet back and consumes exactly its encoding.
#[verifier::rlimit(100)]
pub proof fn lemma_packet_roundtrip(p: PacketView, rest: Seq<u8>)
    requires
        spec_packet_wf(p),
    ensures
        spec_parse_packet(spec_ser_packet(p) + rest) == Some(
            (p, spec_ser_packet(p).len() as int),
        ),
{
    let b = spec_ser_packet(p) + rest;
    let id_bytes = spec_ser_u32_be(p.id.0);
    let order_bytes = spec_ser_u32_be(p.id.1);
    let body = spec_ser_payload_body(p.payload);
    assert(id_bytes.len() == 4 && order_bytes.len() == 4) by {
        lemma_auto_spec_u32_to_from_le_bytes();
    }
    assert(b.len() >= 10);
    assert(b[0] == CURRENT_VERSION);
    assert(b.skip(1) =~= id_bytes + (order_bytes + (seq![p.payload.tag()] + (body + rest))));
    lemma_u32_be_roundtrip(p.id.0, order_bytes + (seq![p.payload.tag()] + (body + rest)));
    assert(b.skip(5) =~= order_bytes + (seq![p.payload.tag()] + (body + rest)));
    lemma_u32_be_roundtrip(p.id.1, seq![p.payload.tag()] + (body + rest));
    assert(b[9] == p.payload.tag());
    assert(b.skip(10) =~= body + rest);
    lemma_payload_body_roundtrip(p.payload, rest);
    assert(spec_parse_u32_be(b.skip(1))->Some_0.0 == p.id.0);
    assert(spec_parse_u32_be(b.skip(5))->Some_0.0 == p.id.1);
}

// ---------------------------------------------------------------------------
// Executable writer: each function appends exactly the encoding its
// specification names.
// ---------------------------------------------------------------------------

/// Appends a 32-bit word, most significant byte first.
pub fn write_u32_be(x: u32, out: &mut Vec<u8>)
    ensures
        final(out)@ == old(out)@ + spec_ser_u32_be(x),
{
    proof {
        lemma_auto_spec_u32_to_from_le_bytes();
    }
    let le = u32_to_le_bytes(x);
    out.push(le[3]);
    out.push(le[2]);
    out.push(le[1]);
    out.push(le[0]);
    assert(out@ =~= old(out)@ + spec_ser_u32_be(x));
}

/// Reads a 32-bit word, most significant byte first.
pub fn read_u32_be(bytes: &[u8], pos: usize) -> (r: Result<(u32, usize), NetworkError>)
    requires
        pos <= bytes@.len(),
    ensures
        r matches Ok((v, end)) ==> end == pos + 4 && spec_parse_u32_be(bytes@.skip(pos as int))
            == Some((v, 4int)),
        r is Err <==> bytes@.len() < pos + 4,
        r is Err ==> r == Err::<(u32, usize), NetworkError>(NetworkError::IoError),
{
    if bytes.len() - pos < 4 {
        return Err(NetworkError::IoError);
    }
    let mut le: Vec<u8> = Vec::new();
    le.push(bytes[pos + 3]);
    le.push(bytes[pos + 2]);
    le.push(bytes[pos + 1]);
    le.push(bytes[pos]);
    let ghost b = bytes@.skip(pos as int);
    assert(le@ =~= seq![b[3], b[2], b[1], b[0]]);
    let v = u32_from_le_bytes(le.as_slice());
    Ok((v, pos + 4))
}

/// Appends text: a varint byte length, then the UTF-8 bytes.
pub fn write_string(s: &str, out: &mut Vec<u8>)
    ensures
        final(out)@ == old(out)@ + spec_ser_string(s@),
{
    let mut bs = s.as_bytes_vec();
    OvrInteger::write(bs.len() as u64, out);
    out.append(&mut bs);
    assert(out@ =~= old(out)@ + spec_ser_string(s@));
}

/// Reads varint-length-prefixed UTF-8 text.
pub fn read_string(bytes: &[u8], pos: usize) -> (r: Result<(String, usize), NetworkError>)
    requires
        pos <= bytes@.len(),
    ensures
        r matches Ok((s, end)) ==> pos <= end <= bytes@.len() && spec_parse_string(
            bytes@.skip(pos as int),
        ) == Some((s@, end - pos)),
        r is Err <==> spec_parse_string(bytes@.skip(pos as int)) is None,
{
    let total = bytes.len();
    let ghost b = bytes@.skip(pos as int);
    match OvrInteger::read(bytes, pos) {
        Err(..) => {
            proof {
                crate::varint::lemma_parse_varint_bounds(b);
                if spec_parse_varint(b) is Some {
                    let (n0, u0) = spec_parse_varint(b)->Some_0;
                    assert(n0 > u64::MAX);
                    assert(u0 + n0 > b.len());
                }
            }
            Err(NetworkError::IoError)
        },
        Ok((n, p2)) => {
            let ghost used = p2 - pos;
            if n > usize::MAX as u64 {
                proof {
                    assert(used + n > b.len());
                }
                Err(NetworkError::IoError)
            } else if (n as usize) > total - p2 {
                proof {
                    assert(used + n > b.len());
                }
                Err(NetworkError::IoError)
            } else {
                let len = n as usize;
                let data = slice_subrange(bytes, p2, p2 + len);
                assert(data@ =~= b.subrange(used, used + n as int));
                match string_from_utf8(slice_to_vec(data)) {
                    None => Err(NetworkError::FailedToReadValue),
                    Some(s) => {
                        proof {
                            encode_utf8_decode_utf8(s@);
                            encode_utf8_valid_utf8(s@);
                        }
                        Ok((s, p2 + len))
                    },
                }
            }
        },
    }
}

/// Reads a key: length-prefixed UTF-8 text, which must not be empty.
pub fn read_key(bytes: &[u8], pos: usize) -> (r: Result<(Key, usize), NetworkError>)
    requires
        pos <= bytes@.len(),
    ensures
        r matches Ok((k, end)) ==> pos <= end <= bytes@.len() && k@.len() > 0 && spec_parse_key(
            bytes@.skip(pos as int),
        ) == Some((k@, end - pos)),
        r is Err <==> spec_parse_key(bytes@.skip(pos as int)) is None,
        spec_parse_string(bytes@.skip(pos as int)) matches Some((s, used)) && s.len() == 0 ==> r
            == Err::<(Key, usize), NetworkError>(NetworkError::FailedToReadKey),
{
    match read_string(bytes, pos) {
        Err(e) => Err(e),
        Ok((s, end)) => {
            if s.as_str().is_empty() {
                Err(NetworkError::FailedToReadKey)
            } else {
                Ok((Key::from_owned(s), end))
            }
        },
    }
}

/// Appends a value: its tag byte, then its body.
pub fn write_value(v: &Value, out: &mut Vec<u8>)
    ensures
        final(out)@ == old(out)@ + spec_ser_value(v@),
{
    match v {
        Value::String(s) => {
            out.push(0);
            write_string(s.as_str(), out);
            assert(out@ =~= old(out)@ + spec_ser_value(v@));
        },
        Value::Integer(i) => {
            out.push(1);
            OvrInteger::write_signed(*i, out);
            assert(out@ =~= old(out)@ + spec_ser_value(v@));
        },
    }
}

/// Reads a tagged value.
pub fn read_value(bytes: &[u8], pos: usize) -> (r: Result<(Value, usize), NetworkError>)
    requires
        pos <= bytes@.len(),
    ensures
        r matches Ok((v, end)) ==> pos <= end <= bytes@.len() && spec_parse_value(
            bytes@.skip(pos as int),
        ) == Some((v@, end - pos)),
        r is Err <==> spec_parse_value(bytes@.skip(pos as int)) is None,
        pos < bytes@.len() && bytes@.skip(pos as int)[0] > 1 ==> r == Err::<
            (Value, usize),
            NetworkError,
        >(NetworkError::UnrecognizedValueTypeDiscriminator(bytes@.skip(pos as int)[0])),
{
    let ghost b = bytes@.skip(pos as int);
    if pos == bytes.len() {
        return Err(NetworkError::IoError);
    }
    let tag = bytes[pos];
    assert(b[0] == tag);
    proof {
        assert(b.skip(1) =~= bytes@.skip(pos as int + 1));
    }
    if tag == 0 {
        match read_string(bytes, pos + 1) {
            Err(e) => Err(e),
            Ok((s, end)) => Ok((Value::String(s), end)),
        }
    } else if tag == 1 {
        match OvrInteger::read_signed(bytes, pos + 1) {
            Err(e) => Err(e),
            Ok((i, end)) => Ok((Value::Integer(i), end)),
        }
    } else {
        Err(NetworkError::UnrecognizedValueTypeDiscriminator(tag))
    }
}

/// Appends an optional value: a marker byte, then the value if present.
pub fn write_opt_value(v: &Option<Value>, out: &mut Vec<u8>)
    ensures
        final(out)@ == old(out)@ + spec_ser_opt_value(v.deep_view()),
{
    match v {
        Option::None => {
            out.push(0);
            assert(out@ =~= old(out)@ + spec_ser_opt_value(v.deep_view()));
        },
        Option::Some(inner) => {
            out.push(1);
            write_value(inner, out);
            assert(out@ =~= old(out)@ + spec_ser_opt_value(v.deep_view()));
        },
    }
}

/// Reads an optional value.
pub fn read_opt_value(bytes: &[u8], pos: usize) -> (r: Result<(Option<Value>, usize), NetworkError>)
    requires
        pos <= bytes@.len(),
    ensures
        r matches Ok((v, end)) ==> pos <= end <= bytes@.len() && spec_parse_opt_value(
            bytes@.skip(pos as int),
        ) == Some((v.deep_view(), end - pos)),
        r is Err <==> spec_parse_opt_value(bytes@.skip(pos as int)) is None,
{
    let ghost b = bytes@.skip(pos as int);
    if pos == bytes.len() {
        return Err(NetworkError::IoError);
    }
    let flag = bytes[pos];
    assert(b[0] == flag);
    if flag == 0 {
        Ok((None, pos + 1))
    } else if flag == 1 {
        proof {
            assert(b.skip(1) =~= bytes@.skip(pos as int + 1));
        }
        match read_value(bytes, pos + 1) {
            Err(e) => Err(e),
            Ok((v, end)) => Ok((Some(v), end)),
        }
    } else {
        Err(NetworkError::IoError)
    }
}

/// Appends a boolean byte.
pub fn write_bool(v: bool, out: &mut Vec<u8>)
    ensures
        final(out)@ == old(out)@ + spec_ser_bool(v),
{
    if v {
        out.push(1);
    } else {
        out.push(0);
    }
    assert(out@ =~= old(out)@ + spec_ser_bool(v));
}

/// Reads a boolean byte; any byte but 0 or 1 is an error.
pub fn read_bool(bytes: &[u8], pos: usize) -> (r: Result<(bool, usize), NetworkError>)
    requires
        pos <= bytes@.len(),
    ensures
        r matches Ok((v, end)) ==> pos <= end <= bytes@.len() && spec_parse_bool(
            bytes@.skip(pos as int),
        ) == Some((v, end - pos)),
        r is Err <==> spec_parse_bool(bytes@.skip(pos as int)) is None,
        r is Err ==> r == Err::<(bool, usize), NetworkError>(NetworkError::IoError),
{
    let ghost b = bytes@.skip(pos as int);
    if pos == bytes.len() {
        return Err(NetworkError::IoError);
    }
    let flag = bytes[pos];
    assert(b[0] == flag);
    if flag == 0 {
        Ok((false, pos + 1))
    } else if flag == 1 {
        Ok((true, pos + 1))
    } else {
        Err(NetworkError::IoError)
    }
}

/// Appends a whole packet: version, id, order, tag, payload.
pub fn write_packet(packet: &Packet, out: &mut Vec<u8>)
    ensures
        final(out)@ == old(out)@ + spec_ser_packet(packet@),
{
    out.push(CURRENT_VERSION);
    write_u32_be(packet.id.0, out);
    write_u32_be(packet.id.1, out);
    out.push(packet.payload.discriminator());
    match &packet.payload {
        PacketPayload::Insert { key, value } => {
            write_string(key.as_str(), out);
            write_value(value, out);
        },
        PacketPayload::Get { key } => {
            write_string(key.as_str(), out);
        },
        PacketPayload::Watch { key, activity, behaviour } => {
            write_string(key.as_str(), out);
            out.push(activity.discriminator());
            out.push(behaviour.discriminator());
        },
        PacketPayload::Release { key } => {
            write_string(key.as_str(), out);
        },
        PacketPayload::Delete { key } => {
            write_string(key.as_str(), out);
        },
        PacketPayload::Notify { key, value, more } => {
            write_string(key.as_str(), out);
            write_opt_value(value, out);
            write_bool(*more, out);
        },
        PacketPayload::Return { key, value } => {
            write_string(key.as_str(), out);
            write_opt_value(value, out);
        },
    }
    assert(out@ =~= old(out)@ + spec_ser_packet(packet@));
}

/// Reads a whole packet at `pos`. On success returns the packet and the
/// position just past it; fails exactly when the specification parse fails.
#[verifier::rlimit(100)]
pub fn read_packet(bytes: &[u8], pos: usize) -> (r: Result<(Packet, usize), NetworkError>)
    requires
        pos <= bytes@.len(),
    ensures
        r matches Ok((p, end)) ==> pos <= end <= bytes@.len() && spec_parse_packet(
            bytes@.skip(pos as int),
        ) == Some((p@, end - pos)),
        r is Err <==> spec_parse_packet(bytes@.skip(pos as int)) is None,
        bytes@.len() - pos < 10 ==> r == Err::<(Packet, usize), NetworkError>(
            NetworkError::IoError,
        ),
        bytes@.len() - pos >= 10 && bytes@.skip(pos as int)[0] != CURRENT_VERSION ==> r == Err::<
            (Packet, usize),
            NetworkError,
        >(NetworkError::UnknownPacketSchema(bytes@.skip(pos as int)[0])),
        bytes@.len() - pos >= 10 && bytes@.skip(pos as int)[0] == CURRENT_VERSION && bytes@.skip(
            pos as int,
        )[9] > 6 ==> r == Err::<(Packet, usize), NetworkError>(
            NetworkError::UnrecognizedPacketTypeDiscriminator(bytes@.skip(pos as int)[9]),
        ),
{
    let ghost b = bytes@.skip(pos as int);
    if bytes.len() - pos < 10 {
        return Err(NetworkError::IoError);
    }
    let version = bytes[pos];
    assert(b[0] == version);
    if version != CURRENT_VERSION {
        return Err(NetworkError::UnknownPacketSchema(version));
    }
    proof {
        assert(b.skip(1) =~= bytes@.skip(pos as int + 1));
        assert(b.skip(5) =~= bytes@.skip(pos as int + 5));
        assert(b.skip(10) =~= bytes@.skip(pos as int + 10));
    }
    let id = match read_u32_be(bytes, pos + 1) {
        Ok((v, ..)) => v,
        Err(e) => {
            return Err(e);
        },
    };
    let order = match read_u32_be(bytes, pos + 5) {
        Ok((v, ..)) => v,
        Err(e) => {
            return Err(e);
        },
    };
    let packet_id = PacketId::new(id, order);
    let tag = bytes[pos + 9];
    assert(b[9] == tag);
    let start = pos + 10;
    let ghost body = b.skip(10);
    if tag == 0 {
        let (key, p1) = match read_key(bytes, start) {
            Ok(v) => v,
            Err(e) => {
                return Err(e);
            },
        };
        proof {
            assert(body.skip(p1 - start) =~= bytes@.skip(p1 as int));
        }
        let (value, p2) = match read_value(bytes, p1) {
            Ok(v) => v,
            Err(e) => {
                return Err(e);
            },
        };
        Ok((Packet::new(packet_id, PacketPayload::Insert { key, value }), p2))
    } else if tag == 1 {
        let (key, p1) = match read_key(bytes, start) {
            Ok(v) => v,
            Err(e) => {
                return Err(e);
            },
        };
        Ok((Packet::new(packet_id, PacketPayload::Get { key }), p1))
    } else if tag == 2 {
        let (key, p1) = match read_key(bytes, start) {
            Ok(v) => v,
            Err(e) => {
                return Err(e);
            },
        };
        if bytes.len() - p1 < 2 {
            return Err(NetworkError::IoError);
        }
        let activity = match WatcherActivity::from_u8(bytes[p1]) {
            Ok(v) => v,
            Err(e) => {
                return Err(e);
            },
        };
        let behaviour = match WatcherBehaviour::from_u8(bytes[p1 + 1]) {
            Ok(v) => v,
            Err(e) => {
                return Err(e);
            },
        };
        assert(body[p1 - start] == bytes@[p1 as int]);
        assert(body[p1 - start + 1] == bytes@[p1 as int + 1]);
        Ok(
            (
                Packet::new(
                    packet_id,
                    PacketPayload::Watch { key, activity, behaviour },
                ),
                p1 + 2,
            ),
        )
    } else if tag == 3 {
        let (key, p1) = match read_key(bytes, start) {
            Ok(v) => v,
            Err(e) => {
                return Err(e);
            },
        };
        Ok((Packet::new(packet_id, PacketPayload::Release { key }), p1))
    } else if tag == 4 {
        let (key, p1) = match read_key(bytes, start) {
            Ok(v) => v,
            Err(e) => {
                return Err(e);
            },
        };
        Ok((Packet::new(packet_id, PacketPayload::Delete { key }), p1))
    } else if tag == 5 {
        let (key, p1) = match read_key(bytes, start) {
            Ok(v) => v,
            Err(e) => {
                return Err(e);
            },
        };
        proof {
            assert(body.skip(p1 - start) =~= bytes@.skip(p1 as int));
        }
        let (value, p2) = match read_opt_value(bytes, p1) {
            Ok(v) => v,
            Err(e) => {
                return Err(e);
            },
        };
        proof {
            assert(body.skip(p2 - start) =~= bytes@.skip(p2 as int));
        }
        let (more, p3) = match read_bool(bytes, p2) {
            Ok(v) => v,
            Err(e) => {
                return Err(e);
            },
        };
        Ok(
            (
                Packet::new(
                    packet_id,
                    PacketPayload::Notify { key, value, more },
                ),
                p3,
            ),
        )
    } else if tag == 6 {
        let (key, p1) = match read_key(bytes, start) {
            Ok(v) => v,
            Err(e) => {
                return Err(e);
            },
        };
        proof {
            assert(body.skip(p1 - start) =~= bytes@.skip(p1 as int));
        }
        let (value, p2) = match read_opt_value(bytes, p1) {
            Ok(v) => v,
            Err(e) => {
                return Err(e);
            },
        };
        Ok(
            (Packet::new(packet_id, PacketPayload::Return { key, value }), p2),
        )
    } else {
        Err(NetworkError::UnrecognizedPacketTypeDiscriminator(tag))
    }
}

impl Packet {
    /// Appends the packet's wire encoding.
    pub fn write(&self, out: &mut Vec<u8>)
        ensures
            final(out)@ == old(out)@ + spec_ser_packet(self@),
    {
        write_packet(self, out)
    }

    /// Reads a packet from its wire encoding at `pos`.
    pub fn read(bytes: &[u8], pos: usize) -> (r: Result<(Packet, usize), NetworkError>)
        requires
            pos <= bytes@.len(),
        ensures
            r matches Ok((p, end)) ==> pos <= end <= bytes@.len() && spec_parse_packet(
                bytes@.skip(pos as int),
            ) == Some((p@, end - pos)),
            r is Err <==> spec_parse_packet(bytes@.skip(pos as int)) is None,
    {
        read_packet(bytes, pos)
    }
}

impl Value {
    /// Appends the value's wire encoding.
    pub fn write(&self, out: &mut Vec<u8>)
        ensures
            final(out)@ == old(out)@ + spec_ser_value(self@),
    {
        write_value(self, out)
    }

    /// Reads a value from its wire encoding at `pos`.
    pub fn read(bytes: &[u8], pos: usize) -> (r: Result<(Value, usize), NetworkError>)
        requires
            pos <= bytes@.len(),
        ensures
            r matches Ok((v, end)) ==> pos <= end <= bytes@.len() && spec_parse_value(
                bytes@.skip(pos as int),
            ) == Some((v@, end - pos)),
            r is Err <==> spec_parse_value(bytes@.skip(pos as int)) is None,
    {
        read_value(bytes, pos)
    }
}

} // verus!

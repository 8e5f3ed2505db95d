//! Wire codec tests: field encodings, packet round trips, and manually
//! built wire bytes.

use overseer::access::{WatcherActivity, WatcherBehaviour};
use overseer::codec::{
    read_bool, read_opt_value, read_packet, write_bool, write_opt_value, write_packet,
};
use overseer::errors::NetworkError;
use overseer::keys::Key;
use overseer::packet::{Packet, PacketId, PacketPayload};
use overseer::values::Value;
use overseer::varint::OvrInteger;

#[test]
pub fn test_parse_value() {
    let value = Value::String("hello".to_string());
    assert_eq!(value.as_string().unwrap(), "hello");

    let value = Value::Integer(32);
    assert_eq!(value.as_integer().unwrap(), 32);
}

#[test]
pub fn test_write_var_int_basic() {
    let mut buf: Vec<u8> = Vec::new();
    OvrInteger::write(0u64, &mut buf);
    assert_eq!(OvrInteger::read(&buf, 0).unwrap().0, 0);

    let mut buf: Vec<u8> = Vec::new();
    OvrInteger::write(7u64, &mut buf);
    assert_eq!(OvrInteger::read(&buf, 0).unwrap().0, 7);

    let mut buf: Vec<u8> = Vec::new();
    OvrInteger::write_signed(7393i64, &mut buf);
    assert_eq!(OvrInteger::read_signed(&buf, 0).unwrap().0, 7393);
}

#[test]
pub fn varint_extremes_roundtrip() {
    for v in [0u64, 1, 127, 128, 16383, 16384, u64::MAX] {
        let mut buf: Vec<u8> = Vec::new();
        OvrInteger::write(v, &mut buf);
        let (back, end) = OvrInteger::read(&buf, 0).unwrap();
        assert_eq!(back, v);
        assert_eq!(end, buf.len());
    }
    for v in [0i64, -1, 1, i64::MIN, i64::MAX, -7393] {
        let mut buf: Vec<u8> = Vec::new();
        OvrInteger::write_signed(v, &mut buf);
        let (back, _) = OvrInteger::read_signed(&buf, 0).unwrap();
        assert_eq!(back, v);
    }
}

#[test]
pub fn read_bool_test() {
    let buf = vec![0u8, 1u8];
    assert_eq!(read_bool(&buf, 0).unwrap(), (false, 1));
    assert_eq!(read_bool(&buf, 1).unwrap(), (true, 2));
    let bad = vec![7u8];
    assert_eq!(read_bool(&bad, 0).unwrap_err(), NetworkError::IoError);
}

#[test]
pub fn read_optional_value_test() {
    let mut buf = vec![0u8];
    write_opt_value(&Some(Value::Integer(64)), &mut buf);

    let (none_v, p1) = read_opt_value(&buf, 0).unwrap();
    assert_eq!(none_v, None);
    let (some_v, _) = read_opt_value(&buf, p1).unwrap();
    assert_eq!(some_v, Some(Value::Integer(64)));
}

#[test]
pub fn write_optional_value_test() {
    let mut buf: Vec<u8> = Vec::new();
    write_opt_value(&None, &mut buf);
    assert_eq!(buf.len(), 1);
    assert_eq!(buf[0], 0);

    let mut buf: Vec<u8> = Vec::new();
    write_opt_value(&Some(Value::Integer(22)), &mut buf);
    assert_eq!(OvrInteger::read_signed(&buf, 2).unwrap().0, 22);
}

#[test]
pub fn write_bool_test() {
    let mut buf: Vec<u8> = Vec::new();
    write_bool(true, &mut buf);
    assert_eq!(buf[0], 1);
    write_bool(false, &mut buf);
    assert_eq!(buf[1], 0);
}

#[test]
pub fn write_notify_packet() {
    let key = Key::from_str("hello");
    let packet = Packet::new(PacketId::zero(), PacketPayload::notify(key, None, false));

    let mut buf: Vec<u8> = Vec::new();
    packet.write(&mut buf);

    let (decoded, used) = read_packet(&buf, 0).unwrap();
    assert_eq!(used, buf.len());
    if let PacketPayload::Notify { key, value, more } = decoded.payload() {
        assert_eq!(key.as_str(), "hello");
        assert!(value.is_none());
        assert!(!more);
    } else {
        panic!("Wrong packet type.");
    }
}

#[test]
pub fn write_delete_packet() {
    let key = Key::from_str("hello");
    let packet = Packet::new(PacketId::zero(), PacketPayload::delete(key));

    let mut buf: Vec<u8> = Vec::new();
    packet.write(&mut buf);

    if let PacketPayload::Delete { key } = read_packet(&buf, 0).unwrap().0.payload() {
        assert_eq!(key.as_str(), "hello");
    } else {
        panic!("Wrong packet type.");
    }
}

#[test]
pub fn write_release_packet() {
    let key = Key::from_str("hello");
    let packet = Packet::new(PacketId::zero(), PacketPayload::release(key));

    let mut buf: Vec<u8> = Vec::new();
    packet.write(&mut buf);

    if let PacketPayload::Release { key } = read_packet(&buf, 0).unwrap().0.payload() {
        assert_eq!(key.as_str(), "hello");
    } else {
        panic!("Wrong packet type.");
    }
}

#[test]
pub fn write_watch_packet() {
    let key = Key::from_str("hello");
    let packet = Packet::new(
        PacketId::zero(),
        PacketPayload::watch(key, WatcherActivity::Lazy, WatcherBehaviour::Eager),
    );

    let mut buf: Vec<u8> = Vec::new();
    write_packet(&packet, &mut buf);

    if let PacketPayload::Watch { key, activity, behaviour } =
        read_packet(&buf, 0).unwrap().0.payload()
    {
        assert_eq!(key.as_str(), "hello");
        assert_eq!(*activity, WatcherActivity::Lazy);
        assert_eq!(*behaviour, WatcherBehaviour::Eager);
    } else {
        panic!("Wrong packet type.");
    }
}

#[test]
pub fn write_insert_string_packet() {
    let key = Key::from_str("hello");
    let value = Value::String("hello world".to_string());
    let packet = Packet::new(PacketId::zero(), PacketPayload::insert(key, value));

    let mut buf: Vec<u8> = Vec::new();
    write_packet(&packet, &mut buf);

    if let PacketPayload::Insert { key, value } = read_packet(&buf, 0).unwrap().0.payload() {
        assert_eq!(key.as_str(), "hello");
        assert_eq!(value.as_string().unwrap(), "hello world");
    } else {
        panic!("Wrong packet type.");
    }
}

#[test]
pub fn write_insert_integer_packet() {
    let key = Key::from_str("hello");
    let value = Value::Integer(32);
    let packet = Packet::new(PacketId::zero(), PacketPayload::insert(key, value));

    let mut buf: Vec<u8> = Vec::new();
    write_packet(&packet, &mut buf);

    if let PacketPayload::Insert { key, value } = read_packet(&buf, 0).unwrap().0.payload() {
        assert_eq!(key.as_str(), "hello");
        assert_eq!(value.as_integer().unwrap(), 32);
    } else {
        panic!("Wrong packet type.");
    }
}

#[test]
pub fn write_get_packet() {
    let key = Key::from_str("hello");
    let packet = Packet::new(PacketId::zero(), PacketPayload::get(key));

    let mut buf: Vec<u8> = Vec::new();
    write_packet(&packet, &mut buf);

    if let PacketPayload::Get { key } = read_packet(&buf, 0).unwrap().0.payload() {
        assert_eq!(key.as_str(), "hello");
    } else {
        panic!("Wrong packet type.");
    }
}

#[test]
pub fn read_release_packet() {
    let skey = "hello";
    let mut buffer = vec![0u8, 0, 0, 0, 0, 0, 0, 0, 0, 3u8];
    OvrInteger::write(skey.len() as u64, &mut buffer);
    buffer.extend_from_slice(skey.as_bytes());

    if let PacketPayload::Release { key } = read_packet(&buffer, 0).unwrap().0.payload() {
        assert_eq!(*key, Key::from_str(skey));
    } else {
        panic!("Packet did not decode as the proper type.");
    }
}

#[test]
pub fn read_notify_packet() {
    let skey = "hello";
    let mut buffer = vec![0u8, 0, 0, 0, 0, 0, 0, 0, 0, 5u8];
    OvrInteger::write(skey.len() as u64, &mut buffer);
    buffer.extend_from_slice(skey.as_bytes());

    buffer.extend_from_slice(&[1, 1]);
    OvrInteger::write_signed(64, &mut buffer);
    buffer.push(1);

    if let PacketPayload::Notify { key, value, more } =
        Packet::read(&buffer, 0).unwrap().0.payload()
    {
        assert_eq!(*key, Key::from_str(skey));
        assert_eq!(*value.as_ref().unwrap(), Value::Integer(64));
        assert!(more);
    } else {
        panic!("Packet did not decode as the proper type.");
    }
}

#[test]
pub fn read_watch_packet() {
    let skey = "hello";
    let mut buffer = vec![0u8, 0, 0, 0, 0, 0, 0, 0, 0, 2u8];
    OvrInteger::write(skey.len() as u64, &mut buffer);
    buffer.extend_from_slice(skey.as_bytes());

    buffer.push(1);
    buffer.push(0);

    if let PacketPayload::Watch { key, activity, behaviour } =
        read_packet(&buffer, 0).unwrap().0.payload()
    {
        assert_eq!(*key, Key::from_str(skey));
        assert_eq!(*activity, WatcherActivity::Lazy);
        assert_eq!(*behaviour, WatcherBehaviour::Ordered);
    } else {
        panic!("Packet did not decode as the proper type.");
    }
}

#[test]
pub fn read_delete_packet() {
    let skey = "hello";
    let mut buffer = vec![0u8, 0, 0, 0, 0, 0, 0, 0, 0, 4u8];
    OvrInteger::write(skey.len() as u64, &mut buffer);
    buffer.extend_from_slice(skey.as_bytes());

    if let PacketPayload::Delete { key } = Packet::read(&buffer, 0).unwrap().0.payload() {
        assert_eq!(*key, Key::from_str(skey));
    } else {
        panic!("Packet did not decode as the proper type.");
    }
}

#[test]
pub fn read_get_packet() {
    let skey = "hello";
    let mut buffer = vec![0u8, 0, 0, 0, 0, 0, 0, 0, 0, 1u8];
    OvrInteger::write(skey.len() as u64, &mut buffer);
    buffer.extend_from_slice(skey.as_bytes());

    if let PacketPayload::Get { key } = read_packet(&buffer, 0).unwrap().0.payload() {
        assert_eq!(*key, Key::from_str(skey));
    } else {
        panic!("Packet did not decode as the proper type.");
    }
}

#[test]
pub fn read_integer_insert_packet() {
    let skey = "hello";
    let mut buffer = vec![0u8, 0, 0, 0, 0, 0, 0, 0, 0, 0u8];
    OvrInteger::write(skey.len() as u64, &mut buffer);
    buffer.extend_from_slice(skey.as_bytes());

    buffer.push(1);
    OvrInteger::write_signed(382, &mut buffer);

    if let PacketPayload::Insert { key, value } = read_packet(&buffer, 0).unwrap().0.payload() {
        assert_eq!(*key, Key::from_str(skey));
        assert_eq!(value.as_integer().unwrap(), 382);
    } else {
        panic!("Packet did not decode as the proper type.");
    }
}

#[test]
pub fn read_string_insert_packet() {
    let skey = "hello";
    let mut buffer = vec![0u8, 0, 0, 0, 0, 0, 0, 0, 0, 0u8];
    OvrInteger::write(skey.len() as u64, &mut buffer);
    buffer.extend_from_slice(skey.as_bytes());

    let svalue = "I am a string to be set.";
    buffer.push(0);
    OvrInteger::write(svalue.len() as u64, &mut buffer);
    buffer.extend_from_slice(svalue.as_bytes());

    if let PacketPayload::Insert { key, value } = read_packet(&buffer, 0).unwrap().0.payload() {
        assert_eq!(*key, Key::from_str(skey));
        assert_eq!(value.as_string().unwrap(), svalue);
    } else {
        panic!("Packet did not decode as the proper type.");
    }
}

#[test]
pub fn decode_rejects_bad_input() {
    // An unknown version byte.
    let buffer = vec![9u8, 0, 0, 0, 0, 0, 0, 0, 0, 1u8, 0u8];
    assert_eq!(
        read_packet(&buffer, 0).unwrap_err(),
        NetworkError::UnknownPacketSchema(9)
    );

    // An unknown payload tag.
    let buffer = vec![0u8, 0, 0, 0, 0, 0, 0, 0, 0, 9u8, 0u8];
    assert_eq!(
        read_packet(&buffer, 0).unwrap_err(),
        NetworkError::UnrecognizedPacketTypeDiscriminator(9)
    );

    // Truncated input.
    let buffer = vec![0u8, 0, 0];
    assert_eq!(read_packet(&buffer, 0).unwrap_err(), NetworkError::IoError);

    // A key that is not UTF-8.
    let mut buffer = vec![0u8, 0, 0, 0, 0, 0, 0, 0, 0, 1u8];
    OvrInteger::write(2, &mut buffer);
    buffer.extend_from_slice(&[0xff, 0xfe]);
    assert_eq!(
        read_packet(&buffer, 0).unwrap_err(),
        NetworkError::FailedToReadValue
    );
}

#[test]
pub fn value_decode_errors() {
    assert_eq!(
        Value::decode(2, &[1, 2, 3]).unwrap_err(),
        NetworkError::UnrecognizedValueTypeDiscriminator(2)
    );
    assert_eq!(
        Value::decode(1, &[1, 2, 3]).unwrap_err(),
        NetworkError::TrySliceError
    );
    assert_eq!(
        Value::decode(0, &[0xff, 0xfe]).unwrap_err(),
        NetworkError::ParseUtf8Error
    );
    assert_eq!(
        Value::decode(1, &42i64.to_le_bytes()).unwrap(),
        Value::Integer(42)
    );
    assert_eq!(
        Value::decode(0, "sixty".as_bytes()).unwrap(),
        Value::String("sixty".to_string())
    );
}

#[test]
pub fn watch_mode_bytes_are_checked() {
    // A watch packet with an unknown activity or behaviour byte is refused.
    let skey = "k";
    let mut buffer = vec![0u8, 0, 0, 0, 0, 0, 0, 0, 0, 2u8];
    OvrInteger::write(skey.len() as u64, &mut buffer);
    buffer.extend_from_slice(skey.as_bytes());
    let mut bad_activity = buffer.clone();
    bad_activity.push(9);
    bad_activity.push(0);
    assert_eq!(
        read_packet(&bad_activity, 0).unwrap_err(),
        NetworkError::WatcherActivityDecodeError
    );
    let mut bad_behaviour = buffer.clone();
    bad_behaviour.push(0);
    bad_behaviour.push(9);
    assert_eq!(
        read_packet(&bad_behaviour, 0).unwrap_err(),
        NetworkError::WatcherBehaviourDecodeError
    );

    assert_eq!(WatcherActivity::from_u8(0).unwrap(), WatcherActivity::Kickback);
    assert_eq!(WatcherBehaviour::from_u8(1).unwrap(), WatcherBehaviour::Eager);
}

#[test]
pub fn empty_keys_are_rejected_on_the_wire() {
    // Keys are non-empty; a zero-length key is a decode error.
    let mut buffer = vec![0u8, 0, 0, 0, 0, 0, 0, 0, 0, 1u8];
    OvrInteger::write(0, &mut buffer);
    assert_eq!(
        read_packet(&buffer, 0).unwrap_err(),
        NetworkError::FailedToReadKey
    );

    // An empty string VALUE is still fine.
    let key = Key::from_str("k");
    let packet = Packet::new(
        PacketId::zero(),
        PacketPayload::insert(key, Value::String(String::new())),
    );
    let mut buf: Vec<u8> = Vec::new();
    packet.write(&mut buf);
    if let PacketPayload::Insert { value, .. } = read_packet(&buf, 0).unwrap().0.payload() {
        assert_eq!(value.as_string().unwrap(), "");
    } else {
        panic!("Wrong packet type.");
    }
}

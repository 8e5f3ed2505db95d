//! Store, watcher, dispatch, facade and frame-allocator tests, including the
//! end-to-end request scenarios.

use overseer::access::{WatcherActivity, WatcherBehaviour};
use overseer::client::{parse_ack_response, parse_return_response, route_inbound, InboundRoute};
use overseer::database::Database;
use overseer::errors::{FrameAllocatorError, NetworkError};
use overseer::frame::FrameAllocator;
use overseer::keys::Key;
use overseer::packet::{Packet, PacketId, PacketPayload};
use overseer::server::{handle_request, subscriber_turn, ServerAction, SubscriberTurn};
use overseer::storage::DatabaseStorage;
use overseer::store::MemoryDatabase;
use overseer::values::Value;
use overseer::watcher::Watcher;
use overseer::ClientId;

#[test]
pub fn test_make_allocator() {
    let mut frames = FrameAllocator::new(2, 2).unwrap();

    let mut frame = frames.get_frame(0).unwrap();
    assert_eq!(&frame.data[..], &[0, 0]);
    frame.data[0] = 1;
    assert_eq!(&frame.data[..], &[1, 0]);
    assert!(matches!(
        frames.get_frame(0).err().unwrap(),
        FrameAllocatorError::FrameInUse
    ));

    frames.release_frame(frame);

    let frame = frames.get_frame(0).unwrap();
    assert_eq!(&frame.data[..], &[0, 0]);

    assert!(matches!(
        FrameAllocator::new(2, 3).err().unwrap(),
        FrameAllocatorError::BadFrameSize
    ));
    assert!(matches!(
        frames.get_frame(9).err().unwrap(),
        FrameAllocatorError::FrameOutOfBounds
    ));
}

#[test]
pub fn check_watcher_correctness_ordered() {
    let mut watcher = Watcher::new(WatcherBehaviour::Ordered);
    watcher.wake(None);
    watcher.wake(Some(Value::Integer(0)));
    assert!(watcher.wait().is_none());
}

#[test]
pub fn test_wakeup_mechanism_basic() {
    let mut watcher = Watcher::new(WatcherBehaviour::Ordered);
    watcher.wake(Some(Value::Integer(2)));
    watcher.wake(Some(Value::Integer(4)));
    assert_eq!(watcher.wait().unwrap(), Value::Integer(2));
    assert_eq!(watcher.wait().unwrap(), Value::Integer(4));
}

#[test]
pub fn test_wakeup_mechanism_twotailed() {
    let mut watcher_a = Watcher::new(WatcherBehaviour::Ordered);
    let mut watcher_b = Watcher::new(WatcherBehaviour::Ordered);
    watcher_a.wake(Some(Value::Integer(2)));
    assert_eq!(watcher_a.wait().unwrap(), Value::Integer(2));
    watcher_b.wake(Some(Value::Integer(3)));
    assert_eq!(watcher_b.wait().unwrap(), Value::Integer(3));
    watcher_a.wake(Some(Value::Integer(5)));
    assert_eq!(watcher_a.wait().unwrap(), Value::Integer(5));
}

#[test]
pub fn check_watcher_correctness_eager() {
    let mut watcher = Watcher::new(WatcherBehaviour::Eager);
    watcher.wake(None);
    watcher.wake(Some(Value::Integer(0)));
    assert_eq!(watcher.wait().unwrap().as_integer().unwrap(), 0);
}

#[test]
pub fn check_watcher_notify_synchronize() {
    let mut group = vec![
        Watcher::new(WatcherBehaviour::Eager),
        Watcher::new(WatcherBehaviour::Eager),
    ];

    Watcher::notify_coordinated(&mut group, &Some(Value::Integer(45)));

    assert_eq!(group[0].wait().unwrap().as_integer().unwrap(), 45);
    assert_eq!(group[1].wait().unwrap().as_integer().unwrap(), 45);
}

#[test]
pub fn check_watcher_notify_integrity() {
    let mut watcher = Watcher::new(WatcherBehaviour::Eager);
    watcher.wake_without_notify(Some(Value::Integer(2)));
    assert_eq!(watcher.wait().unwrap().as_integer().unwrap(), 2);

    watcher.wake(Some(Value::Integer(4)));
    assert_eq!(watcher.wait().unwrap().as_integer().unwrap(), 4);
}

#[test]
pub fn store_insert_get_delete() {
    // The store holds no tombstones: its length always counts the bound
    // keys exactly.
    let mut db = MemoryDatabase::new();
    let key = Key::from_str("hello");
    db.insert(key.duplicate(), Value::Integer(12));
    assert_eq!(db.len(), 1);
    assert_eq!(db.get(&key).unwrap().as_integer().unwrap(), 12);
    assert!(db.delete(&key));
    assert!(db.get(&key).is_none());
    assert_eq!(db.len(), 0);
    assert!(!db.delete(&key));

    db.insert(key.duplicate(), Value::Integer(29));
    assert_eq!(db.len(), 1);
    db.insert(key.duplicate(), Value::Integer(30));
    assert_eq!(db.len(), 1);
    assert_eq!(db.get(&key).unwrap().as_integer().unwrap(), 30);

    db.insert(Key::from_str("h2"), Value::Integer(13));
    assert_eq!(db.len(), 2);
    assert!(db.delete(&Key::from_str("h2")));
    assert_eq!(db.len(), 1);
}

#[test]
pub fn ordered_subscriber_sees_every_mutation_in_order() {
    // An ordered subscriber observes exactly the mutation sequence:
    // value, value, deletion — no omissions, no reorderings.
    let mut db = MemoryDatabase::new();
    let key = Key::from_str("brokers");
    let client = ClientId::from_id(7);
    db.subscribe(&key, client, WatcherBehaviour::Ordered, WatcherActivity::Lazy).unwrap();

    db.insert(key.duplicate(), Value::Integer(145));
    db.insert(key.duplicate(), Value::Integer(28));
    db.delete(&key);

    assert_eq!(
        db.watcher_poll(&key, client).unwrap(),
        Some(Value::Integer(145))
    );
    assert_eq!(
        db.watcher_poll(&key, client).unwrap(),
        Some(Value::Integer(28))
    );
    assert_eq!(db.watcher_poll(&key, client).unwrap(), None);
}

#[test]
pub fn many_ordered_watchers_agree() {
    // Every ordered subscriber of the key sees the same sequence.
    let mut db = MemoryDatabase::new();
    let key = Key::from_str("k");
    for i in 0..100u64 {
        db.subscribe(
            &key,
            ClientId::from_id(i),
            WatcherBehaviour::Ordered,
            WatcherActivity::Lazy,
        )
        .unwrap();
    }
    db.insert(key.duplicate(), Value::Integer(12));
    db.insert(key.duplicate(), Value::Integer(6));

    for i in 0..100u64 {
        let client = ClientId::from_id(i);
        assert_eq!(
            db.watcher_poll(&key, client).unwrap(),
            Some(Value::Integer(12))
        );
        assert_eq!(
            db.watcher_poll(&key, client).unwrap(),
            Some(Value::Integer(6))
        );
    }
}

#[test]
pub fn eager_watchers_coalesce_to_latest() {
    // Eager subscribers may miss intermediate values but all end on the
    // most recent one.
    let mut db = MemoryDatabase::new();
    let key = Key::from_str("k");
    for i in 0..3u64 {
        db.subscribe(
            &key,
            ClientId::from_id(i),
            WatcherBehaviour::Eager,
            WatcherActivity::Lazy,
        )
        .unwrap();
    }
    db.insert(key.duplicate(), Value::Integer(12));
    db.insert(key.duplicate(), Value::Integer(6));

    for i in 0..3u64 {
        assert_eq!(
            db.watcher_poll(&key, ClientId::from_id(i)).unwrap(),
            Some(Value::Integer(6))
        );
    }
}

#[test]
pub fn kickback_subscription_delivers_current_value() {
    let mut db = MemoryDatabase::new();
    let key = Key::from_str("brokers");
    db.insert(key.duplicate(), Value::Integer(0));

    let client = ClientId::from_id(1);
    db.subscribe(&key, client, WatcherBehaviour::Eager, WatcherActivity::Kickback).unwrap();

    assert_eq!(
        db.watcher_poll(&key, client).unwrap(),
        Some(Value::Integer(0))
    );
}

#[test]
pub fn subscription_is_unique_per_key_and_client() {
    let mut db = MemoryDatabase::new();
    let key = Key::from_str("k");
    let client = ClientId::from_id(3);
    db.subscribe(&key, client, WatcherBehaviour::Ordered, WatcherActivity::Lazy).unwrap();
    assert_eq!(
        db.subscribe(&key, client, WatcherBehaviour::Ordered, WatcherActivity::Lazy)
            .unwrap_err(),
        NetworkError::SubscriptionExists
    );

    // Another client, and the same client on another key, are both fine.
    db.subscribe(&key, ClientId::from_id(4), WatcherBehaviour::Ordered, WatcherActivity::Lazy)
        .unwrap();
    db.subscribe(&Key::from_str("k2"), client, WatcherBehaviour::Ordered, WatcherActivity::Lazy)
        .unwrap();
}

#[test]
pub fn release_kills_the_subscription() {
    let mut db = MemoryDatabase::new();
    let key = Key::from_str("brokers");
    let client = ClientId::from_id(9);
    db.subscribe(&key, client, WatcherBehaviour::Ordered, WatcherActivity::Lazy).unwrap();
    assert!(!db.watcher_is_killed(&key, client));

    assert!(db.release(&key, client));
    assert!(db.watcher_is_killed(&key, client));
    assert!(!db.release(&key, client));

    // Later inserts reach nobody.
    db.insert(key.duplicate(), Value::Integer(5));
    assert_eq!(db.watcher_poll(&key, client), Some(None));
}

#[test]
pub fn facade_write_update_delete_records() {
    let mut da = DatabaseStorage::new();
    da.write(&Key::from_str("hello"), &Value::Integer(21)).unwrap();

    let records = da.records();
    assert_eq!(records.len(), 1);
    assert_eq!(records.first().unwrap().value, Value::Integer(21));

    da.update(&Key::from_str("hello"), Value::Integer(23)).unwrap();
    let records = da.records();
    assert_eq!(records.len(), 1);
    assert_eq!(records.first().unwrap().value, Value::Integer(23));

    da.delete(&Key::from_str("hello")).unwrap();
    assert_eq!(da.records().len(), 0);
}

#[test]
pub fn facade_image_roundtrip() {
    // The persisted image reopens to the same records.
    let mut da = DatabaseStorage::new();
    da.write(&Key::from_str("hello"), &Value::Integer(21)).unwrap();
    da.write(&Key::from_str("text"), &Value::String("sixty".to_string())).unwrap();

    let reopened = DatabaseStorage::from_bytes(da.image_bytes()).unwrap();
    assert_eq!(reopened.len(), 2);
    let records = reopened.records();
    assert_eq!(records[0].key, Key::from_str("hello"));
    assert_eq!(records[0].value, Value::Integer(21));
    assert_eq!(records[1].key, Key::from_str("text"));
    assert_eq!(records[1].value, Value::String("sixty".to_string()));
}

#[test]
pub fn database_warm_start() {
    let mut da = DatabaseStorage::new();
    da.write(&Key::from_str("hello"), &Value::Integer(21)).unwrap();

    let db = Database::new(da);
    assert_eq!(
        db.get(&Key::from_str("hello")).unwrap(),
        Value::Integer(21)
    );
    assert!(db.get(&Key::from_str("other")).is_none());
}

fn request(id: u32, payload: PacketPayload) -> Packet {
    Packet::new(PacketId::new(id, 0), payload)
}

#[test]
pub fn basic_crud_over_dispatch() {
    // Insert, get, delete, get again: the responses the wire would carry.
    let mut db = Database::new(DatabaseStorage::new());
    let client = ClientId::from_id(0);
    let key = || Key::from_str("hello");

    let (reply, _) = handle_request(
        &mut db,
        client,
        request(1, PacketPayload::insert(key(), Value::Integer(62))),
    )
    .unwrap();
    assert_eq!(reply.id(), PacketId::new(1, 0));
    if let PacketPayload::Return { key, value } = reply.payload() {
        assert_eq!(key.as_str(), "hello");
        assert_eq!(*value, Some(Value::Integer(62)));
    } else {
        panic!("Expected a return packet.");
    }

    let (reply, _) =
        handle_request(&mut db, client, request(2, PacketPayload::get(key()))).unwrap();
    if let PacketPayload::Return { value, .. } = reply.payload() {
        assert_eq!(*value, Some(Value::Integer(62)));
    } else {
        panic!("Expected a return packet.");
    }

    let (reply, _) =
        handle_request(&mut db, client, request(3, PacketPayload::delete(key()))).unwrap();
    assert!(matches!(reply.payload(), PacketPayload::Get { .. }));

    let (reply, _) =
        handle_request(&mut db, client, request(4, PacketPayload::get(key()))).unwrap();
    if let PacketPayload::Return { value, .. } = reply.payload() {
        assert_eq!(*value, None);
    } else {
        panic!("Expected a return packet.");
    }
}

#[test]
pub fn watch_release_over_dispatch() {
    let mut db = Database::new(DatabaseStorage::new());
    let watcher_client = ClientId::from_id(1);
    let writer_client = ClientId::from_id(2);
    let key = || Key::from_str("brokers");

    let (reply, action) = handle_request(
        &mut db,
        watcher_client,
        request(
            1,
            PacketPayload::watch(key(), WatcherActivity::Lazy, WatcherBehaviour::Ordered),
        ),
    )
    .unwrap();
    assert!(matches!(reply.payload(), PacketPayload::Get { .. }));
    let task_key = match action {
        ServerAction::StartSubscriber { key } => key,
        _ => panic!("Expected a subscriber task."),
    };
    assert_eq!(task_key.as_str(), "brokers");

    // A second watch for the same pair tears the connection down.
    assert_eq!(
        handle_request(
            &mut db,
            watcher_client,
            request(
                2,
                PacketPayload::watch(key(), WatcherActivity::Lazy, WatcherBehaviour::Ordered),
            ),
        )
        .unwrap_err(),
        NetworkError::SubscriptionExists
    );

    // Mutations by another client reach the subscriber, in order.
    handle_request(
        &mut db,
        writer_client,
        request(1, PacketPayload::insert(key(), Value::Integer(145))),
    )
    .unwrap();
    handle_request(
        &mut db,
        writer_client,
        request(2, PacketPayload::insert(key(), Value::Integer(28))),
    )
    .unwrap();
    handle_request(&mut db, writer_client, request(3, PacketPayload::delete(key()))).unwrap();

    for expected in [Some(Value::Integer(145)), Some(Value::Integer(28)), None] {
        match subscriber_turn(&mut db, &task_key, watcher_client) {
            SubscriberTurn::Send { packet } => {
                assert_eq!(packet.id(), PacketId::zero());
                if let PacketPayload::Notify { key, value, more } = packet.into_payload() {
                    assert_eq!(key.as_str(), "brokers");
                    assert_eq!(value, expected);
                    assert!(!more);
                } else {
                    panic!("Expected a notify packet.");
                }
            },
            _ => panic!("Expected a delivery."),
        }
    }
    // The wake signal outlives the drained queue: one residual empty
    // delivery follows before the task would suspend.
    assert!(matches!(
        subscriber_turn(&mut db, &task_key, watcher_client),
        SubscriberTurn::Send { .. }
    ));
    assert!(matches!(
        subscriber_turn(&mut db, &task_key, watcher_client),
        SubscriberTurn::Pending
    ));

    // Release; the task stops and later inserts reach nobody.
    let (reply, _) =
        handle_request(&mut db, watcher_client, request(3, PacketPayload::release(key())))
            .unwrap();
    assert!(matches!(reply.payload(), PacketPayload::Get { .. }));
    assert!(matches!(
        subscriber_turn(&mut db, &task_key, watcher_client),
        SubscriberTurn::Stop
    ));
}

#[test]
pub fn inbound_routing() {
    let push = Packet::notify(
        PacketId::zero(),
        Key::from_str("k"),
        Some(Value::Integer(3)),
        false,
    );
    match route_inbound(push) {
        InboundRoute::Push { key, value } => {
            assert_eq!(key.as_str(), "k");
            assert_eq!(value, Some(Value::Integer(3)));
        },
        _ => panic!("Expected a push."),
    }

    let response = Packet::get(PacketId::new(7, 0), Key::from_str("k"));
    assert!(matches!(
        route_inbound(response),
        InboundRoute::Response { .. }
    ));

    let stray = Packet::get(PacketId::zero(), Key::from_str("k"));
    assert!(matches!(route_inbound(stray), InboundRoute::Dropped));

    let ret = Packet::vreturn(PacketId::new(1, 0), Key::from_str("k"), Some(Value::Integer(9)));
    assert_eq!(
        parse_return_response(ret).unwrap(),
        Some(Value::Integer(9))
    );
    let ack = Packet::get(PacketId::new(1, 0), Key::from_str("k"));
    parse_ack_response(ack).unwrap();
    let wrong = Packet::delete(PacketId::new(1, 0), Key::from_str("k"));
    assert_eq!(
        parse_ack_response(wrong).unwrap_err(),
        NetworkError::WrongResponseFromServer
    );
}

#[test]
pub fn facade_image_is_a_paged_file() {
    // The persisted state is the paged layout: a header page starting with
    // the magic byte, then whole data pages.
    let mut da = DatabaseStorage::new();
    da.write(&Key::from_str("hello"), &Value::Integer(21)).unwrap();

    let image = da.image_bytes();
    assert_eq!(image[0], 0x83);
    assert_eq!(image.len(), 4096 + 4096);
    assert_eq!(image.len() % 4096, 0);
}

#[test]
pub fn facade_spills_across_pages() {
    // Enough records to overflow one leaf page chain onto a second, and the
    // whole set survives the round trip through the image.
    let mut da = DatabaseStorage::new();
    let blob = "x".repeat(500);
    for i in 0..12u32 {
        let key = Key::from_str(&format!("key-{i}"));
        da.write(&key, &Value::String(blob.clone())).unwrap();
    }
    let image = da.image_bytes();
    assert!(image.len() >= 4096 + 2 * 4096);

    let reopened = DatabaseStorage::from_bytes(image).unwrap();
    assert_eq!(reopened.len(), 12);
    let records = reopened.records();
    for i in 0..12usize {
        assert_eq!(records[i].key, Key::from_str(&format!("key-{i}")));
        assert_eq!(records[i].value, Value::String(blob.clone()));
    }
}

#[test]
pub fn oversized_records_are_refused_untouched() {
    // A record that cannot fit one leaf page is refused and the store is
    // left alone.
    let mut da = DatabaseStorage::new();
    da.write(&Key::from_str("ok"), &Value::Integer(1)).unwrap();
    let huge = "y".repeat(5000);
    assert_eq!(
        da.write(&Key::from_str("big"), &Value::String(huge)).unwrap_err(),
        NetworkError::StorageError
    );
    assert_eq!(da.len(), 1);
    assert!(DatabaseStorage::from_bytes(da.image_bytes()).unwrap().len() == 1);
}

use mailcrab_backend::message::CapturedMessage;
use mailcrab_backend::storage_task::StorageEvent;
use mailcrab_backend::storage_task::StorageStatus;
use mailcrab_backend::sync_store::SharedStore;

fn msg(id: u64, timestamp: u64) -> CapturedMessage {
    CapturedMessage::new(
        id,
        format!("sender-{id}@example.test"),
        String::from("inbox@example.test"),
        format!("locked mail {id}"),
        timestamp,
    )
}

#[test]
fn writes_through_the_lock_are_visible_to_readers() {
    let shared = SharedStore::new();
    for id in 0..4u64 {
        let (status, applied) = shared.step(0, StorageEvent::Received(msg(id, id)));
        assert_eq!(status, StorageStatus::Continue);
        assert!(applied);
    }
    assert_eq!(shared.len(), 4);
    let got = shared.get(2).expect("entry must be present");
    assert_eq!(got.id, 2);
    assert_eq!(got.body, "locked mail 2");
    assert!(shared.get(9).is_none());
}

#[test]
fn snapshot_is_one_consistent_store_value() {
    let shared = SharedStore::new();
    for id in 0..5u64 {
        shared.step(0, StorageEvent::Received(msg(id, 10 + id)));
    }
    let listing = shared.snapshot();
    assert_eq!(listing.len(), 5);
    // insertion order, complete entries, unique ids
    for (i, m) in listing.iter().enumerate() {
        assert_eq!(m.id, i as u64);
        assert_eq!(m.timestamp, 10 + i as u64);
    }
}

#[test]
fn eviction_under_the_lock_completes_before_readers_continue() {
    let shared = SharedStore::new();
    shared.step(1, StorageEvent::Received(msg(1, 0)));
    shared.step(1, StorageEvent::Received(msg(2, 3)));
    let (status, applied) = shared.step(1, StorageEvent::EvictionTick(3));
    assert_eq!(status, StorageStatus::Continue);
    assert!(applied);
    assert_eq!(shared.len(), 1);
    assert!(shared.get(1).is_none());
    assert_eq!(shared.get(2).unwrap().timestamp, 3);
}

#[test]
fn cancellation_through_the_lock_stops_the_loop() {
    let shared = SharedStore::new();
    shared.step(0, StorageEvent::Received(msg(1, 1)));
    let (status, applied) = shared.step(0, StorageEvent::CancelRequested);
    assert_eq!(status, StorageStatus::Stopped);
    assert!(applied);
    assert_eq!(shared.len(), 1);
}

use mailcrab_backend::message::CapturedMessage;
use mailcrab_backend::store::MessageStore;

fn msg(id: u64, timestamp: u64) -> CapturedMessage {
    CapturedMessage::new(
        id,
        format!("sender-{id}@example.test"),
        format!("rcpt-{id}@example.test"),
        format!("body of message {id}"),
        timestamp,
    )
}

#[test]
fn unique_inserts_keep_every_message() {
    let mut store = MessageStore::new();
    for id in 0..10u64 {
        let fresh = store.insert(msg(id, 100 + id));
        assert!(fresh);
    }
    assert_eq!(store.len(), 10);
    for id in 0..10u64 {
        let got = store.get(id).expect("message must be present");
        assert_eq!(got.id, id);
        assert_eq!(got.timestamp, 100 + id);
        assert_eq!(got.sender, format!("sender-{id}@example.test"));
    }
    assert!(store.get(10).is_none());
}

#[test]
fn insert_all_counts_no_collisions_for_unique_ids() {
    let mut store = MessageStore::new();
    let batch: Vec<CapturedMessage> = (0..5u64).map(|id| msg(id, id)).collect();
    let collisions = store.insert_all(batch);
    assert_eq!(collisions, 0);
    assert_eq!(store.len(), 5);
}

#[test]
fn insert_all_reports_colliding_ids() {
    let mut store = MessageStore::new();
    let batch = vec![msg(1, 1), msg(2, 2), msg(1, 3)];
    let collisions = store.insert_all(batch);
    assert_eq!(collisions, 1);
    assert_eq!(store.len(), 2);
    // the collision overwrote the earlier entry of the same id
    assert_eq!(store.get(1).unwrap().timestamp, 3);
}

#[test]
fn colliding_insert_overwrites_and_reports() {
    let mut store = MessageStore::new();
    assert!(store.insert(msg(7, 1)));
    let mut replacement = msg(7, 2);
    replacement.body = String::from("replacement body");
    let fresh = store.insert(replacement);
    assert!(!fresh);
    assert_eq!(store.len(), 1);
    let got = store.get(7).unwrap();
    assert_eq!(got.timestamp, 2);
    assert_eq!(got.body, "replacement body");
}

#[test]
fn eviction_removes_only_entries_older_than_window() {
    let mut store = MessageStore::new();
    store.insert(msg(1, 10));
    store.insert(msg(2, 94));
    store.insert(msg(3, 95));
    store.insert(msg(4, 100));
    // window of 5 seconds, anchored at time 100: an entry of timestamp 95
    // is exactly at the edge and survives; older ones go
    store.evict(100, 5);
    assert_eq!(store.len(), 2);
    assert!(store.get(1).is_none());
    assert!(store.get(2).is_none());
    assert_eq!(store.get(3).unwrap().timestamp, 95);
    assert_eq!(store.get(4).unwrap().timestamp, 100);
}

#[test]
fn eviction_with_window_longer_than_clock_keeps_everything() {
    let mut store = MessageStore::new();
    store.insert(msg(1, 0));
    store.insert(msg(2, 3));
    store.evict(4, 1000);
    assert_eq!(store.len(), 2);
}

#[test]
fn eviction_keeps_insertion_order_of_survivors() {
    let mut store = MessageStore::new();
    store.insert(msg(1, 50));
    store.insert(msg(2, 1));
    store.insert(msg(3, 60));
    store.evict(61, 20);
    assert_eq!(store.len(), 2);
    assert_eq!(store.get(1).unwrap().timestamp, 50);
    assert_eq!(store.get(3).unwrap().timestamp, 60);
    assert!(store.get(2).is_none());
}

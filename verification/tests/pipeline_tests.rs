//! End-to-end runs of the ingestion-to-storage pipeline: broadcast queue,
//! storage step and store together, driven synchronously.
use mailcrab_backend::message::CapturedMessage;
use mailcrab_backend::queue::BroadcastQueue;
use mailcrab_backend::queue::RecvOutcome;
use mailcrab_backend::state::AppState;
use mailcrab_backend::state::RuntimeConfig;
use mailcrab_backend::state::DEFAULT_QUEUE_CAPACITY;
use mailcrab_backend::storage_task::eviction_interval;
use mailcrab_backend::storage_task::storage_step;
use mailcrab_backend::storage_task::StorageEvent;
use mailcrab_backend::storage_task::StorageStatus;
use mailcrab_backend::store::MessageStore;

fn msg(id: u64, timestamp: u64) -> CapturedMessage {
    CapturedMessage::new(
        id,
        format!("sender-{id}@example.test"),
        String::from("inbox@example.test"),
        format!("captured mail {id}"),
        timestamp,
    )
}

/// Map one receive outcome onto the storage loop's event, as the
/// application edge does.
fn to_event(outcome: RecvOutcome) -> StorageEvent {
    match outcome {
        RecvOutcome::Delivered(m) => StorageEvent::Received(m),
        RecvOutcome::Lagged(n) => StorageEvent::Lagged(n),
        RecvOutcome::Closed => StorageEvent::QueueClosed,
        RecvOutcome::Pending => StorageEvent::CancelRequested,
    }
}

#[test]
fn ten_messages_flow_into_the_store_and_back_out() {
    // retention disabled, queue capacity 32
    let config = RuntimeConfig::default();
    assert_eq!(config.queue_capacity, 32);
    assert_eq!(config.retention_period, 0);

    let mut queue = BroadcastQueue::new(config.queue_capacity);
    let mut storage_sub = queue.subscribe();
    let mut state = AppState::new(config.prefix, None, config.retention_period);

    // the protocol engine sends ten captured messages
    for id in 0..10u64 {
        queue.send(msg(id, id)).unwrap();
    }

    // the storage component drains its subscription
    loop {
        let outcome = queue.recv(&mut storage_sub);
        if outcome == RecvOutcome::Pending {
            break;
        }
        let status = storage_step(&mut state.storage, state.retention_period, to_event(outcome));
        assert_eq!(status, StorageStatus::Continue);
    }

    // the presentation layer finds every message by id
    assert_eq!(state.storage.len(), 10);
    for id in 0..10u64 {
        let got = state.storage.get(id).expect("stored message must be retrievable");
        assert_eq!(got.id, id);
        assert_eq!(got.body, format!("captured mail {id}"));
    }
}

#[test]
fn retention_of_one_unit_evicts_after_two_units() {
    let retention = 1u64;
    let mut store = MessageStore::new();

    // a message captured at time 0
    let status = storage_step(&mut store, retention, StorageEvent::Received(msg(1, 0)));
    assert_eq!(status, StorageStatus::Continue);
    assert_eq!(store.len(), 1);

    // time advances by two units, then the eviction tick fires
    let status = storage_step(&mut store, retention, StorageEvent::EvictionTick(2));
    assert_eq!(status, StorageStatus::Continue);
    assert_eq!(store.len(), 0);
}

#[test]
fn lag_notification_is_skipped_not_fatal() {
    let mut store = MessageStore::new();
    let status = storage_step(&mut store, 0, StorageEvent::Lagged(17));
    assert_eq!(status, StorageStatus::Continue);
    assert_eq!(store.len(), 0);
    // the component keeps consuming afterwards
    let status = storage_step(&mut store, 0, StorageEvent::Received(msg(5, 3)));
    assert_eq!(status, StorageStatus::Continue);
    assert_eq!(store.len(), 1);
}

#[test]
fn queue_closure_and_cancellation_stop_the_loop_cleanly() {
    let mut store = MessageStore::new();
    store.insert(msg(1, 1));
    assert_eq!(storage_step(&mut store, 0, StorageEvent::QueueClosed), StorageStatus::Stopped);
    assert_eq!(store.len(), 1);
    assert_eq!(
        storage_step(&mut store, 0, StorageEvent::CancelRequested),
        StorageStatus::Stopped
    );
    assert_eq!(store.len(), 1);
}

#[test]
fn eviction_ticks_are_a_fraction_of_the_window() {
    assert_eq!(eviction_interval(0), None);
    assert_eq!(eviction_interval(1), Some(1));
    assert_eq!(eviction_interval(10), Some(5));
    assert_eq!(eviction_interval(300), Some(150));
}

#[test]
fn configuration_defaults_match_the_documented_values() {
    let config = RuntimeConfig::default();
    assert_eq!(config.smtp_host, "0.0.0.0");
    assert_eq!(config.smtp_port, 1025);
    assert_eq!(config.http_host, "127.0.0.1");
    assert_eq!(config.http_port, 1080);
    assert_eq!(config.queue_capacity, DEFAULT_QUEUE_CAPACITY);
    assert!(!config.enable_tls_auth);
    assert_eq!(config.prefix, b"/".to_vec());
    assert_eq!(config.retention_period, 0);
}

#[test]
fn zero_queue_capacity_falls_back_to_the_default() {
    let config = RuntimeConfig::new(
        String::from("0.0.0.0"),
        1025,
        String::from("127.0.0.1"),
        1080,
        0,
        false,
        b"/".to_vec(),
        0,
    );
    assert_eq!(config.queue_capacity, DEFAULT_QUEUE_CAPACITY);
}

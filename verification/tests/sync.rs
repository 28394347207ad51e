use std::collections::HashMap;

use query_gateway::change::{feed_event, read_change, ChangeEvent, OperationType, RawChange};
use query_gateway::document::{Document, Value};
use query_gateway::error::SyncError;
use query_gateway::retry::{batch_report, ReplayDecision, RetryPolicy};
use query_gateway::sync::{replay_action, sync_batch, ReplayAction, SynchronizationModule};

fn event(kind: OperationType, id: &str, n: i64) -> ChangeEvent {
    ChangeEvent {
        collection: "orders".to_string(),
        operation_type: kind,
        document_id: id.to_string(),
        timestamp: 5,
        data: Document::new().with("n", Value::Int(n)),
    }
}

fn raw(operation: &str) -> RawChange {
    RawChange {
        operation_type: operation.to_string(),
        collection: Some("orders".to_string()),
        document_key: Some(
            Document::new().with("_id", Value::ObjectId("65f0a1b2c3d4e5f601234567".to_string())),
        ),
        cluster_time: Some(1_700_000_000_000),
        full_document: Some(Document::new().with("total", Value::Int(9))),
        updated_fields: Some(Document::new().with("total", Value::Int(8))),
    }
}

fn apply(target: &mut HashMap<(String, String), String>, action: &ReplayAction) {
    match action {
        ReplayAction::Upsert { collection, document_id, document } => {
            target.insert((collection.clone(), document_id.clone()), format!("{:?}", document));
        }
        ReplayAction::DeleteIfPresent { collection, document_id } => {
            target.remove(&(collection.clone(), document_id.clone()));
        }
    }
}

#[test]
fn test_sync_module() {
    let sync_module = SynchronizationModule::new(10, 1_000);
    assert_eq!(sync_module.batch_size, 10);
    let test_changes = vec![ChangeEvent {
        collection: "test_collection".to_string(),
        operation_type: OperationType::Insert,
        document_id: "test_id".to_string(),
        timestamp: 0,
        data: Document::new().with("test", Value::Text("data".to_string())),
    }];
    let actions = sync_batch(&test_changes);
    assert_eq!(actions.len(), 1);
    match &actions[0] {
        ReplayAction::Upsert { collection, document_id, document } => {
            assert_eq!(collection, "test_collection");
            assert_eq!(document_id, "test_id");
            assert!(matches!(document.get("test"), Some(Value::Text(t)) if t == "data"));
        }
        other => panic!("unexpected action: {:?}", other),
    }
}

#[test]
fn insert_and_update_become_upserts_and_delete_a_delete() {
    assert!(matches!(
        replay_action(&event(OperationType::Insert, "a", 1)),
        ReplayAction::Upsert { .. }
    ));
    assert!(matches!(
        replay_action(&event(OperationType::Update, "a", 1)),
        ReplayAction::Upsert { .. }
    ));
    match replay_action(&event(OperationType::Delete, "a", 1)) {
        ReplayAction::DeleteIfPresent { collection, document_id } => {
            assert_eq!(collection, "orders");
            assert_eq!(document_id, "a");
        }
        other => panic!("unexpected action: {:?}", other),
    }
}

#[test]
fn batch_is_replayed_in_arrival_order() {
    let batch = vec![
        event(OperationType::Insert, "a", 1),
        event(OperationType::Delete, "b", 0),
        event(OperationType::Update, "a", 2),
    ];
    let actions = sync_batch(&batch);
    let ids: Vec<String> = actions
        .iter()
        .map(|a| match a {
            ReplayAction::Upsert { document_id, .. } => format!("upsert {}", document_id),
            ReplayAction::DeleteIfPresent { document_id, .. } => format!("delete {}", document_id),
        })
        .collect();
    assert_eq!(ids, vec!["upsert a", "delete b", "upsert a"]);
}

#[test]
fn replaying_twice_is_replaying_once() {
    for kind in [OperationType::Insert, OperationType::Update, OperationType::Delete] {
        let mut once: HashMap<(String, String), String> = HashMap::new();
        once.insert(("orders".to_string(), "a".to_string()), "old".to_string());
        once.insert(("orders".to_string(), "z".to_string()), "other".to_string());
        let mut twice = once.clone();
        let action = replay_action(&event(kind, "a", 7));
        apply(&mut once, &action);
        apply(&mut twice, &action);
        apply(&mut twice, &action);
        assert_eq!(once, twice);
        assert!(once.len() <= 2);
    }
}

#[test]
fn replaying_a_batch_twice_is_replaying_it_once() {
    let batch = vec![
        event(OperationType::Insert, "a", 1),
        event(OperationType::Insert, "b", 2),
        event(OperationType::Delete, "a", 0),
        event(OperationType::Update, "b", 3),
        event(OperationType::Insert, "c", 4),
    ];
    let actions = sync_batch(&batch);
    let mut once: HashMap<(String, String), String> = HashMap::new();
    once.insert(("orders".to_string(), "a".to_string()), "old".to_string());
    let mut twice = once.clone();
    for a in &actions {
        apply(&mut once, a);
        apply(&mut twice, a);
    }
    for a in &actions {
        apply(&mut twice, a);
    }
    assert_eq!(once, twice);
    assert_eq!(once.len(), 2);
}

#[test]
fn seven_events_in_batches_of_three() {
    let mut batcher = SynchronizationModule::new(3, 1_000_000);
    let mut sizes = Vec::new();
    let mut seen = Vec::new();
    for k in 0..7 {
        if let Some(batch) = batcher.process_change(event(OperationType::Insert, &k.to_string(), k), 10) {
            sizes.push(batch.len());
            seen.extend(batch.into_iter().map(|e| e.document_id));
        }
    }
    if let Some(batch) = batcher.close() {
        sizes.push(batch.len());
        seen.extend(batch.into_iter().map(|e| e.document_id));
    }
    assert_eq!(sizes, vec![3, 3, 1]);
    assert_eq!(seen, vec!["0", "1", "2", "3", "4", "5", "6"]);
    assert!(batcher.close().is_none());
}

#[test]
fn no_event_is_lost_or_reordered() {
    let mut batcher = SynchronizationModule::new(4, 30);
    let times = [0u64, 5, 40, 41, 42, 43, 44, 100, 131, 140];
    let mut seen = Vec::new();
    let mut sizes = Vec::new();
    for (k, now) in times.iter().enumerate() {
        let change = event(OperationType::Update, &k.to_string(), 0);
        if let Some(batch) = batcher.process_change(change, *now) {
            sizes.push(batch.len());
            seen.extend(batch.into_iter().map(|e| e.document_id));
        }
    }
    if let Some(batch) = batcher.close() {
        sizes.push(batch.len());
        seen.extend(batch.into_iter().map(|e| e.document_id));
    }
    let expected: Vec<String> = (0..times.len()).map(|k| k.to_string()).collect();
    assert_eq!(seen, expected);
    assert_eq!(sizes, vec![3, 4, 2, 1]);
}

#[test]
fn a_batch_size_of_zero_closes_every_event() {
    let mut batcher = SynchronizationModule::new(0, 1_000);
    for k in 0..3 {
        let batch = batcher.process_change(event(OperationType::Insert, "a", k), 0).unwrap();
        assert_eq!(batch.len(), 1);
    }
    assert!(batcher.close().is_none());
}

#[test]
fn waiting_long_enough_closes_a_batch() {
    let mut batcher = SynchronizationModule::new(100, 50);
    assert!(batcher.process_change(event(OperationType::Insert, "a", 1), 1_000).is_none());
    assert!(batcher.process_change(event(OperationType::Insert, "b", 2), 1_020).is_none());
    assert!(batcher.tick(1_049).is_none());
    let batch = batcher.tick(1_050).unwrap();
    assert_eq!(batch.len(), 2);
    assert!(batcher.tick(2_000).is_none());
    assert!(batcher.process_change(event(OperationType::Insert, "c", 3), 3_000).is_none());
    let batch = batcher.process_change(event(OperationType::Insert, "d", 4), 3_050).unwrap();
    assert_eq!(batch.len(), 2);
    assert_eq!(batch[0].document_id, "c");
    assert_eq!(batch[1].document_id, "d");
    assert!(batcher.pending.is_empty());
}

#[test]
fn a_clock_that_goes_back_closes_nothing() {
    let mut batcher = SynchronizationModule::new(100, 50);
    assert!(batcher.process_change(event(OperationType::Insert, "a", 1), 1_000).is_none());
    assert!(batcher.tick(10).is_none());
    assert_eq!(batcher.pending.len(), 1);
}

#[test]
fn backoff_doubles_up_to_the_ceiling() {
    let policy = RetryPolicy { max_attempts: 6, base_delay: 100, max_delay: 1_000 };
    let delays: Vec<u64> = (1..=6).map(|k| policy.backoff_delay(k)).collect();
    assert_eq!(delays, vec![100, 200, 400, 800, 1_000, 1_000]);
    assert_eq!(policy.backoff_delay(0), 100);
    assert_eq!(policy.backoff_delay(u32::MAX), 1_000);
    let flat = RetryPolicy { max_attempts: 3, base_delay: 5_000, max_delay: 1_000 };
    assert_eq!(flat.backoff_delay(1), 1_000);
    let none = RetryPolicy { max_attempts: 3, base_delay: 0, max_delay: 1_000 };
    assert_eq!(none.backoff_delay(9), 0);
    let huge = RetryPolicy { max_attempts: 3, base_delay: u64::MAX / 2 + 1, max_delay: u64::MAX };
    assert_eq!(huge.backoff_delay(2), u64::MAX);
}

#[test]
fn attempts_are_bounded() {
    let policy = RetryPolicy { max_attempts: 3, base_delay: 10, max_delay: 1_000 };
    assert_eq!(policy.after_attempt(1, true), Ok(ReplayDecision::Completed));
    assert_eq!(policy.after_attempt(1, false), Ok(ReplayDecision::Retry { delay: 10 }));
    assert_eq!(policy.after_attempt(2, false), Ok(ReplayDecision::Retry { delay: 20 }));
    assert_eq!(
        policy.after_attempt(3, false),
        Err(SyncError::BatchReplayFailed { attempts: 3 })
    );
    assert_eq!(policy.after_attempt(3, true), Ok(ReplayDecision::Completed));
    let mut attempts = 0;
    loop {
        attempts += 1;
        match policy.after_attempt(attempts, false) {
            Ok(ReplayDecision::Retry { .. }) => continue,
            _ => break,
        }
    }
    assert_eq!(attempts, 3);
}

#[test]
fn report_describes_the_batch() {
    let batch = vec![event(OperationType::Insert, "a", 1), event(OperationType::Insert, "b", 2)];
    let report = batch_report(&batch, false);
    assert_eq!(report.collection, "orders");
    assert_eq!(report.size, 2);
    assert!(!report.succeeded);
    let report = batch_report(&vec![], true);
    assert_eq!(report.collection, "");
    assert_eq!(report.size, 0);
    assert!(report.succeeded);
}

#[test]
fn notification_becomes_an_event() {
    let e = read_change(raw("insert"), 42);
    assert_eq!(e.collection, "orders");
    assert_eq!(e.operation_type, OperationType::Insert);
    assert_eq!(e.document_id, "65f0a1b2c3d4e5f601234567");
    assert_eq!(e.timestamp, 1_700_000_000_000);
    assert!(matches!(e.data.get("total"), Some(Value::Int(9))));

    let e = read_change(raw("update"), 42);
    assert_eq!(e.operation_type, OperationType::Update);
    assert!(matches!(e.data.get("total"), Some(Value::Int(9))));

    let mut partial = raw("update");
    partial.full_document = None;
    let e = read_change(partial, 42);
    assert!(matches!(e.data.get("total"), Some(Value::Int(8))));

    let e = read_change(raw("delete"), 42);
    assert_eq!(e.operation_type, OperationType::Delete);
    assert!(matches!(e.data.get("_id"), Some(Value::ObjectId(_))));
    assert!(e.data.get("total").is_none());
}

#[test]
fn missing_parts_get_their_defaults() {
    let bare = RawChange {
        operation_type: "replace".to_string(),
        collection: None,
        document_key: None,
        cluster_time: None,
        full_document: None,
        updated_fields: None,
    };
    let e = read_change(bare, 42);
    assert_eq!(e.collection, "unknown");
    assert_eq!(e.operation_type, OperationType::Insert);
    assert_eq!(e.document_id, "unknown");
    assert_eq!(e.timestamp, 42);
    assert_eq!(e.data.len(), 0);

    let mut keyed = raw("delete");
    keyed.document_key = Some(Document::new().with("_id", Value::Int(7)));
    assert_eq!(read_change(keyed, 1).document_id, "unknown");
}

#[test]
fn unreadable_item_becomes_a_marker() {
    let e = feed_event(None, 99);
    assert_eq!(e.collection, "error");
    assert_eq!(e.document_id, "error");
    assert_eq!(e.operation_type, OperationType::Insert);
    assert_eq!(e.timestamp, 99);
    assert_eq!(e.data.len(), 0);
    let e = feed_event(Some(raw("delete")), 99);
    assert_eq!(e.operation_type, OperationType::Delete);
}

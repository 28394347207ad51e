use query_gateway::change::OperationType;
use query_gateway::document::{Document, Value};
use query_gateway::error::TransactionError;
use query_gateway::coordinator::TransactionManager;
use query_gateway::transaction::{
    Move, Pass, Step, TransactionOperation, TransactionProgress, TransactionStatus,
};

fn operation(database: &str, collection: &str, kind: OperationType) -> TransactionOperation {
    TransactionOperation {
        database: database.to_string(),
        collection: collection.to_string(),
        operation_type: kind,
        document: Document::new().with("n", Value::Int(1)),
    }
}

fn started_with(tm: &mut TransactionManager, operations: usize) -> String {
    let id = tm.begin_transaction(1_000).unwrap();
    for k in 0..operations {
        let database = if k % 2 == 0 { "documents" } else { "relational" };
        tm.enlist(&id, operation(database, "orders", OperationType::Insert)).unwrap();
    }
    id
}

fn drive(tm: &mut TransactionManager, id: &str, first: Step, answer: impl Fn(Step) -> bool) -> Vec<Step> {
    let mut calls = Vec::new();
    let mut step = first;
    while step != Step::Done {
        calls.push(step);
        step = tm.record_outcome(id, answer(step)).unwrap();
    }
    calls
}

#[test]
fn test_transaction_manager() {
    let mut tm = TransactionManager::new();
    let tx_id = tm.begin_transaction(0).unwrap();
    assert_eq!(tm.commit_transaction(&tx_id), Ok(Step::Done));
    assert_eq!(tm.status(&tx_id), Some(TransactionStatus::Committed));
}

#[test]
fn begin_yields_started() {
    let mut tm = TransactionManager::new();
    let id = tm.begin_transaction(77).unwrap();
    assert_eq!(tm.len(), 1);
    let record = tm.get(&id).unwrap();
    assert_eq!(record.id, id);
    assert_eq!(record.status, TransactionStatus::Started);
    assert_eq!(record.pass, Pass::Idle);
    assert!(record.operations.is_empty());
    assert!(record.participants.is_empty());
    assert_eq!(record.start_time, 77);
    assert_eq!(tm.outcome(&id), Ok(TransactionStatus::Started));
    assert_eq!(tm.next_step(&id), Ok(Step::Done));
}

#[test]
fn begin_always_yields_a_started_record() {
    let mut tm = TransactionManager::new();
    tm.begin_with("tx-1".to_string(), 10);
    tm.enlist("tx-1", operation("documents", "orders", OperationType::Insert)).unwrap();
    tm.begin_with("tx-2".to_string(), 20);
    assert_eq!(tm.len(), 2);
    assert_eq!(tm.status("tx-2"), Some(TransactionStatus::Started));
    assert_eq!(tm.get("tx-1").unwrap().operations.len(), 1);
    tm.begin_with("tx-1".to_string(), 30);
    assert_eq!(tm.len(), 2);
    let record = tm.get("tx-1").unwrap();
    assert_eq!(record.status, TransactionStatus::Started);
    assert_eq!(record.start_time, 30);
    assert!(record.operations.is_empty());
    assert!(record.participants.is_empty());
    assert_eq!(tm.get("tx-2").unwrap().start_time, 20);
    for _ in 0..20 {
        let id = tm.begin_transaction(40).unwrap();
        assert_eq!(tm.status(&id), Some(TransactionStatus::Started));
        assert!(tm.get(&id).unwrap().operations.is_empty());
    }
    assert_eq!(tm.len(), 22);
}

#[test]
fn identifiers_are_hyphenated_and_fresh() {
    let mut tm = TransactionManager::new();
    let a = tm.begin_transaction(0).unwrap();
    let b = tm.begin_transaction(0).unwrap();
    assert_ne!(a, b);
    assert_eq!(tm.len(), 2);
    for id in [a, b] {
        assert_eq!(id.len(), 36);
        for (i, c) in id.chars().enumerate() {
            if i == 8 || i == 13 || i == 18 || i == 23 {
                assert_eq!(c, '-');
            } else {
                assert!(c.is_ascii_digit() || ('a'..='f').contains(&c));
            }
        }
        assert_eq!(id.chars().nth(14), Some('4'));
    }
}

#[test]
fn enlist_records_operations_and_participants() {
    let mut tm = TransactionManager::new();
    let id = tm.begin_transaction(0).unwrap();
    tm.enlist(&id, operation("documents", "orders", OperationType::Insert)).unwrap();
    tm.enlist(&id, operation("relational", "orders", OperationType::Update)).unwrap();
    tm.enlist(&id, operation("documents", "stock", OperationType::Delete)).unwrap();
    let record = tm.get(&id).unwrap();
    assert_eq!(record.operations.len(), 3);
    assert_eq!(record.operations[1].operation_type, OperationType::Update);
    assert_eq!(record.operations[2].collection, "stock");
    assert_eq!(record.participants, vec!["documents", "relational"]);
    assert_eq!(record.status, TransactionStatus::Started);
}

#[test]
fn enlist_is_refused_outside_started() {
    let mut tm = TransactionManager::new();
    assert_eq!(
        tm.enlist("nobody", operation("documents", "orders", OperationType::Insert)),
        Err(TransactionError::InvalidTransactionState)
    );
    let id = started_with(&mut tm, 1);
    tm.commit_transaction(&id).unwrap();
    assert_eq!(
        tm.enlist(&id, operation("documents", "orders", OperationType::Insert)),
        Err(TransactionError::InvalidTransactionState)
    );
    assert_eq!(tm.get(&id).unwrap().operations.len(), 1);
    tm.record_outcome(&id, true).unwrap();
    tm.record_outcome(&id, true).unwrap();
    assert_eq!(tm.status(&id), Some(TransactionStatus::Committed));
    assert_eq!(
        tm.enlist(&id, operation("documents", "orders", OperationType::Insert)),
        Err(TransactionError::InvalidTransactionState)
    );
}

#[test]
fn commit_with_all_calls_succeeding_is_committed() {
    let mut tm = TransactionManager::new();
    let id = started_with(&mut tm, 3);
    let first = tm.commit_transaction(&id).unwrap();
    assert_eq!(first, Step::Prepare(0));
    let calls = drive(&mut tm, &id, first, |_| true);
    assert_eq!(
        calls,
        vec![
            Step::Prepare(0),
            Step::Prepare(1),
            Step::Prepare(2),
            Step::Apply(0),
            Step::Apply(1),
            Step::Apply(2),
        ]
    );
    let record = tm.get(&id).unwrap();
    assert_eq!(record.status, TransactionStatus::Committed);
    assert_eq!(record.prepares, 3);
    assert_eq!(record.applied, 3);
    assert_eq!(record.aborts, 0);
    assert_eq!(tm.outcome(&id), Ok(TransactionStatus::Committed));
}

#[test]
fn status_is_prepared_between_the_passes() {
    let mut tm = TransactionManager::new();
    let id = started_with(&mut tm, 2);
    tm.commit_transaction(&id).unwrap();
    assert_eq!(tm.status(&id), Some(TransactionStatus::Started));
    assert_eq!(tm.record_outcome(&id, true), Ok(Step::Prepare(1)));
    assert_eq!(tm.status(&id), Some(TransactionStatus::Started));
    assert_eq!(tm.record_outcome(&id, true), Ok(Step::Apply(0)));
    assert_eq!(tm.status(&id), Some(TransactionStatus::Prepared));
    assert_eq!(tm.record_outcome(&id, true), Ok(Step::Apply(1)));
    assert_eq!(tm.status(&id), Some(TransactionStatus::Prepared));
    assert_eq!(tm.record_outcome(&id, true), Ok(Step::Done));
    assert_eq!(tm.status(&id), Some(TransactionStatus::Committed));
}

#[test]
fn failed_prepare_undoes_what_was_prepared() {
    for failing in 0..4usize {
        let mut tm = TransactionManager::new();
        let id = started_with(&mut tm, 4);
        let first = tm.commit_transaction(&id).unwrap();
        let calls = drive(&mut tm, &id, first, |step| step != Step::Prepare(failing));
        let prepared: Vec<usize> = calls
            .iter()
            .filter_map(|s| match s {
                Step::Prepare(i) if *i != failing => Some(*i),
                _ => None,
            })
            .collect();
        let aborted: Vec<usize> = calls
            .iter()
            .filter_map(|s| match s {
                Step::Abort(i) => Some(*i),
                _ => None,
            })
            .collect();
        assert_eq!(prepared.len(), failing);
        assert_eq!(aborted.len(), prepared.len());
        let mut reversed = prepared.clone();
        reversed.reverse();
        assert_eq!(aborted, reversed);
        assert!(calls.iter().all(|s| !matches!(s, Step::Apply(_))));
        let record = tm.get(&id).unwrap();
        assert_eq!(record.status, TransactionStatus::RolledBack);
        assert_eq!(record.prepares, failing);
        assert_eq!(record.aborts, failing);
        assert_eq!(record.applied, 0);
        assert_eq!(tm.outcome(&id), Err(TransactionError::PrepareFailed));
    }
}

#[test]
fn failed_prepare_passes_through_failed() {
    let mut tm = TransactionManager::new();
    let id = started_with(&mut tm, 2);
    tm.commit_transaction(&id).unwrap();
    tm.record_outcome(&id, true).unwrap();
    assert_eq!(tm.record_outcome(&id, false), Ok(Step::Abort(0)));
    assert_eq!(tm.status(&id), Some(TransactionStatus::Failed));
    assert_eq!(tm.record_outcome(&id, true), Ok(Step::Done));
    assert_eq!(tm.status(&id), Some(TransactionStatus::RolledBack));
}

#[test]
fn failed_undo_is_counted_and_the_first_failure_is_reported() {
    let mut tm = TransactionManager::new();
    let id = started_with(&mut tm, 3);
    let first = tm.commit_transaction(&id).unwrap();
    let calls = drive(&mut tm, &id, first, |step| matches!(step, Step::Prepare(0) | Step::Prepare(1)));
    assert_eq!(
        calls,
        vec![Step::Prepare(0), Step::Prepare(1), Step::Prepare(2), Step::Abort(1), Step::Abort(0)]
    );
    let record = tm.get(&id).unwrap();
    assert_eq!(record.status, TransactionStatus::RolledBack);
    assert_eq!(record.prepares, record.aborts);
    assert_eq!(tm.outcome(&id), Err(TransactionError::PrepareFailed));
}

#[test]
fn failed_apply_fails_the_transaction_and_rollback_undoes_it() {
    let mut tm = TransactionManager::new();
    let id = started_with(&mut tm, 2);
    let first = tm.commit_transaction(&id).unwrap();
    let calls = drive(&mut tm, &id, first, |step| step != Step::Apply(1));
    assert_eq!(calls, vec![Step::Prepare(0), Step::Prepare(1), Step::Apply(0), Step::Apply(1)]);
    assert_eq!(tm.status(&id), Some(TransactionStatus::Failed));
    assert_eq!(tm.outcome(&id), Err(TransactionError::StoreUnavailable));
    assert_eq!(tm.commit_transaction(&id), Err(TransactionError::InvalidTransactionState));
    let first = tm.rollback_transaction(&id).unwrap();
    assert_eq!(first, Step::Abort(1));
    let calls = drive(&mut tm, &id, first, |_| true);
    assert_eq!(calls, vec![Step::Abort(1), Step::Abort(0)]);
    assert_eq!(tm.status(&id), Some(TransactionStatus::RolledBack));
}

#[test]
fn rollback_from_started_and_prepared() {
    let mut tm = TransactionManager::new();
    let id = started_with(&mut tm, 2);
    assert_eq!(tm.rollback_transaction(&id), Ok(Step::Done));
    assert_eq!(tm.status(&id), Some(TransactionStatus::RolledBack));
    assert_eq!(tm.outcome(&id), Ok(TransactionStatus::RolledBack));

    let id = started_with(&mut tm, 2);
    tm.commit_transaction(&id).unwrap();
    tm.record_outcome(&id, true).unwrap();
    tm.record_outcome(&id, true).unwrap();
    assert_eq!(tm.status(&id), Some(TransactionStatus::Prepared));
    let first = tm.rollback_transaction(&id).unwrap();
    let calls = drive(&mut tm, &id, first, |_| false);
    assert_eq!(calls, vec![Step::Abort(1), Step::Abort(0)]);
    assert_eq!(tm.status(&id), Some(TransactionStatus::RolledBack));
    assert_eq!(tm.outcome(&id), Err(TransactionError::StoreUnavailable));
}

#[test]
fn final_statuses_stay() {
    let mut tm = TransactionManager::new();
    let id = started_with(&mut tm, 1);
    let first = tm.commit_transaction(&id).unwrap();
    drive(&mut tm, &id, first, |_| true);
    assert_eq!(tm.commit_transaction(&id), Err(TransactionError::InvalidTransactionState));
    assert_eq!(tm.rollback_transaction(&id), Err(TransactionError::InvalidTransactionState));
    assert_eq!(tm.record_outcome(&id, true), Err(TransactionError::InvalidTransactionState));
    assert_eq!(tm.status(&id), Some(TransactionStatus::Committed));

    let id = started_with(&mut tm, 0);
    tm.rollback_transaction(&id).unwrap();
    assert_eq!(tm.commit_transaction(&id), Err(TransactionError::InvalidTransactionState));
    assert_eq!(tm.rollback_transaction(&id), Err(TransactionError::InvalidTransactionState));
    assert_eq!(tm.status(&id), Some(TransactionStatus::RolledBack));
}

#[test]
fn conclusion_follows_the_outcome() {
    let mut tm = TransactionManager::new();
    let id = started_with(&mut tm, 1);
    assert_eq!(
        tm.concluded(&id, TransactionStatus::Committed),
        Err(TransactionError::InvalidTransactionState)
    );
    let first = tm.commit_transaction(&id).unwrap();
    drive(&mut tm, &id, first, |_| true);
    assert_eq!(tm.concluded(&id, TransactionStatus::Committed), Ok(()));
    assert_eq!(
        tm.concluded(&id, TransactionStatus::RolledBack),
        Err(TransactionError::InvalidTransactionState)
    );
    let id = started_with(&mut tm, 1);
    let first = tm.commit_transaction(&id).unwrap();
    drive(&mut tm, &id, first, |_| false);
    assert_eq!(
        tm.concluded(&id, TransactionStatus::Committed),
        Err(TransactionError::PrepareFailed)
    );
    assert_eq!(tm.concluded("nobody", TransactionStatus::Committed).is_err(), true);
}

#[test]
fn progress_moves_by_the_rules() {
    let start = TransactionProgress {
        status: TransactionStatus::Started,
        pass: Pass::Idle,
        operations: 2,
        prepares: 0,
        applied: 0,
        aborts: 0,
        failure: None,
    };
    assert!(start.well_formed());
    assert_eq!(start.next_step(), Step::Done);
    let preparing = start.after(&Move::Commit).unwrap();
    assert!(preparing.well_formed());
    assert_eq!(preparing.pass, Pass::Preparing);
    assert_eq!(preparing.next_step(), Step::Prepare(0));
    let one = preparing.after(&Move::Answer(true)).unwrap();
    assert_eq!(one.next_step(), Step::Prepare(1));
    let failed = one.after(&Move::Answer(false)).unwrap();
    assert!(failed.well_formed());
    assert_eq!(failed.status, TransactionStatus::Failed);
    assert_eq!(failed.failure, Some(TransactionError::PrepareFailed));
    assert_eq!(failed.next_step(), Step::Abort(0));
    let undone = failed.after(&Move::Answer(true)).unwrap();
    assert_eq!(undone.status, TransactionStatus::RolledBack);
    assert_eq!(undone.aborts, undone.prepares);
    assert!(undone.after(&Move::Rollback).is_err());
    assert!(start.after(&Move::Answer(true)).is_err());
    let rolled = start.after(&Move::Rollback).unwrap();
    assert_eq!(rolled.status, TransactionStatus::RolledBack);
    let broken = TransactionProgress { prepares: 5, ..start };
    assert!(!broken.well_formed());
    let broken = TransactionProgress { pass: Pass::Undoing, ..start };
    assert!(!broken.well_formed());
}

#[test]
fn unknown_transactions_are_refused() {
    let mut tm = TransactionManager::new();
    assert_eq!(tm.commit_transaction("x"), Err(TransactionError::InvalidTransactionState));
    assert_eq!(tm.rollback_transaction("x"), Err(TransactionError::InvalidTransactionState));
    assert_eq!(tm.record_outcome("x", true), Err(TransactionError::InvalidTransactionState));
    assert_eq!(tm.next_step("x"), Err(TransactionError::InvalidTransactionState));
    assert_eq!(tm.outcome("x"), Err(TransactionError::InvalidTransactionState));
    assert_eq!(tm.status("x"), None);
    assert!(tm.get("x").is_none());
    assert!(tm.archive("x").is_err());
}

#[test]
fn transactions_are_independent() {
    let mut tm = TransactionManager::new();
    let a = started_with(&mut tm, 2);
    let b = started_with(&mut tm, 1);
    tm.commit_transaction(&a).unwrap();
    tm.commit_transaction(&b).unwrap();
    tm.record_outcome(&a, true).unwrap();
    tm.record_outcome(&b, false).unwrap();
    assert_eq!(tm.status(&b), Some(TransactionStatus::RolledBack));
    assert_eq!(tm.status(&a), Some(TransactionStatus::Started));
    assert_eq!(tm.next_step(&a), Ok(Step::Prepare(1)));
}

#[test]
fn archive_takes_only_finished_transactions() {
    let mut tm = TransactionManager::new();
    let a = started_with(&mut tm, 1);
    let b = started_with(&mut tm, 0);
    assert_eq!(tm.archive(&a).err(), Some(TransactionError::InvalidTransactionState));
    tm.commit_transaction(&b).unwrap();
    let record = tm.archive(&b).unwrap();
    assert_eq!(record.id, b);
    assert_eq!(record.status, TransactionStatus::Committed);
    assert_eq!(tm.len(), 1);
    assert_eq!(tm.status(&b), None);
    assert_eq!(tm.status(&a), Some(TransactionStatus::Started));
}

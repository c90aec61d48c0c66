use anon_targets::error::AnonTargetsError;
use anon_targets::key::AttrValue;
use anon_targets::registry::{AggregateStatus, AnonTargetsRegistry, PromiseArtifact, PromiseStatus};

fn attrs(n: i64) -> Vec<(String, AttrValue)> {
    vec![("n".to_string(), AttrValue::Int(n))]
}

#[test]
fn registering_twice_schedules_once() {
    let mut reg = AnonTargetsRegistry::new();
    let first = reg.register_one(1, &attrs(5)).unwrap();
    let second = reg.register_one(1, &attrs(5)).unwrap();
    assert_ne!(first, second);
    assert_eq!(reg.scheduled_targets(), &vec![0]);
    assert_eq!(reg.target_count(), 1);
    assert_eq!(reg.target_of(first), reg.target_of(second));
    assert_eq!(reg.promise_status(first), PromiseStatus::Unresolved);
    reg.resolve(0, 42, vec![]).unwrap();
    assert_eq!(reg.promise_status(first), PromiseStatus::Resolved(42));
    assert_eq!(reg.promise_status(second), PromiseStatus::Resolved(42));
}

#[test]
fn registering_after_resolution_does_not_reschedule() {
    let mut reg = AnonTargetsRegistry::new();
    let first = reg.register_one(1, &attrs(5)).unwrap();
    reg.resolve(reg.target_of(first), 3, vec![]).unwrap();
    let second = reg.register_one(1, &attrs(5)).unwrap();
    assert_eq!(reg.scheduled_targets(), &vec![0]);
    assert_eq!(reg.promise_status(second), PromiseStatus::Resolved(3));
}

#[test]
fn distinct_targets_are_scheduled_separately() {
    let mut reg = AnonTargetsRegistry::new();
    let first = reg.register_one(1, &attrs(5)).unwrap();
    let second = reg.register_one(1, &attrs(6)).unwrap();
    let third = reg.register_one(2, &attrs(5)).unwrap();
    assert_eq!(reg.scheduled_targets(), &vec![0, 1, 2]);
    assert_eq!(reg.target_of(first), 0);
    assert_eq!(reg.target_of(second), 1);
    assert_eq!(reg.target_of(third), 2);
    assert_eq!(reg.target_key(1).rule(), 1);
    assert_eq!(reg.target_key(2).rule(), 2);
}

#[test]
fn failure_reaches_every_promise() {
    let mut reg = AnonTargetsRegistry::new();
    let first = reg.register_one(1, &attrs(5)).unwrap();
    let second = reg.register_one(1, &attrs(5)).unwrap();
    reg.fail(0, "boom".to_string()).unwrap();
    assert_eq!(reg.promise_status(first), PromiseStatus::Rejected("boom".to_string()));
    assert_eq!(reg.promise_status(second), PromiseStatus::Rejected("boom".to_string()));
}

#[test]
fn settling_twice_is_refused() {
    let mut reg = AnonTargetsRegistry::new();
    reg.register_one(1, &attrs(5)).unwrap();
    reg.resolve(0, 1, vec![]).unwrap();
    assert_eq!(reg.resolve(0, 2, vec![]), Err(AnonTargetsError::DuplicateResolution));
    assert_eq!(reg.fail(0, "x".to_string()), Err(AnonTargetsError::DuplicateResolution));
    assert_eq!(reg.promise_status(0), PromiseStatus::Resolved(1));
}

#[test]
fn invalid_registration_changes_nothing() {
    let mut reg = AnonTargetsRegistry::new();
    let bad = vec![("d".to_string(), AttrValue::Promise(1))];
    assert_eq!(
        reg.register_one(1, &bad),
        Err(AnonTargetsError::InvalidAttribute("d".to_string()))
    );
    assert_eq!(reg.target_count(), 0);
    let batch = vec![(1, attrs(1)), (1, bad)];
    assert_eq!(
        reg.register_many(&batch),
        Err(AnonTargetsError::InvalidAttribute("d".to_string()))
    );
    assert_eq!(reg.target_count(), 0);
    assert!(reg.scheduled_targets().is_empty());
}

#[test]
fn batch_rejects_with_lowest_failed_member() {
    let mut reg = AnonTargetsRegistry::new();
    let batch = vec![(1, attrs(1)), (1, attrs(2)), (1, attrs(3))];
    let a = reg.register_many(&batch).unwrap();
    assert_eq!(reg.scheduled_targets(), &vec![0, 1, 2]);
    reg.fail(2, "third".to_string()).unwrap();
    reg.fail(1, "second".to_string()).unwrap();
    assert_eq!(reg.aggregate_status(a), AggregateStatus::Pending);
    reg.resolve(0, 10, vec![]).unwrap();
    assert_eq!(reg.aggregate_status(a), AggregateStatus::Rejected("second".to_string()));
    assert_eq!(reg.promise_status(0), PromiseStatus::Resolved(10));
    assert_eq!(reg.promise_status(1), PromiseStatus::Rejected("second".to_string()));
    assert_eq!(reg.promise_status(2), PromiseStatus::Rejected("third".to_string()));
}

#[test]
fn batch_resolves_in_request_order() {
    let mut reg = AnonTargetsRegistry::new();
    let first = reg.register_one(1, &attrs(2)).unwrap();
    let batch = vec![(1, attrs(1)), (1, attrs(2)), (1, attrs(1))];
    let a = reg.register_many(&batch).unwrap();
    assert_eq!(reg.scheduled_targets(), &vec![0, 1]);
    reg.resolve(1, 100, vec![]).unwrap();
    assert_eq!(reg.aggregate_status(a), AggregateStatus::Pending);
    reg.resolve(0, 200, vec![]).unwrap();
    assert_eq!(reg.aggregate_status(a), AggregateStatus::Resolved(vec![100, 200, 100]));
    assert_eq!(reg.promise_status(first), PromiseStatus::Resolved(200));
}

#[test]
fn empty_batch_resolves_at_once() {
    let mut reg = AnonTargetsRegistry::new();
    let a = reg.register_many(&vec![]).unwrap();
    assert_eq!(reg.aggregate_status(a), AggregateStatus::Resolved(vec![]));
}

#[test]
fn artifact_lookup_after_resolution() {
    let mut reg = AnonTargetsRegistry::new();
    reg.register_one(1, &attrs(1)).unwrap();
    assert_eq!(reg.lookup_artifact(0, "out"), Err(AnonTargetsError::NotYetResolved));
    assert_eq!(reg.artifacts(0), Err(AnonTargetsError::NotYetResolved));
    reg.resolve(0, 1, vec![("out".to_string(), 77), ("log".to_string(), 78)]).unwrap();
    assert_eq!(
        reg.lookup_artifact(0, "out"),
        Ok(PromiseArtifact { target: 0, name: "out".to_string(), artifact: 77 })
    );
    assert_eq!(
        reg.lookup_artifact(0, "missing"),
        Err(AnonTargetsError::ArtifactNotFound("missing".to_string()))
    );
    assert_eq!(
        reg.artifacts(0),
        Ok(vec![
            PromiseArtifact { target: 0, name: "out".to_string(), artifact: 77 },
            PromiseArtifact { target: 0, name: "log".to_string(), artifact: 78 },
        ])
    );
}

#[test]
fn artifact_lookup_after_failure() {
    let mut reg = AnonTargetsRegistry::new();
    reg.register_one(1, &attrs(1)).unwrap();
    reg.fail(0, "bad".to_string()).unwrap();
    assert_eq!(
        reg.lookup_artifact(0, "out"),
        Err(AnonTargetsError::EvaluationFailed("bad".to_string()))
    );
}

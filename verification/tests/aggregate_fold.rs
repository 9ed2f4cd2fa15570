//! The aggregate state machine: target versions, the validation gate,
//! folding one event, and replaying whole histories.

use todo_events::{Aggregate, AggregateErr, Guid, Status, Todo, TodoAggregate, TodoEvent};

fn create(name: &str, id: Guid) -> TodoEvent {
    TodoEvent::Create { name: name.to_string(), id }
}

#[test]
fn every_variant_reports_its_target_version() {
    let id = Guid::new();
    assert_eq!(create("a", id).version(), 0);
    assert_eq!(TodoEvent::ChangeName { new_name: "b".to_string(), version: 4 }.version(), 4);
    assert_eq!(TodoEvent::ChangeStatus { status: Status::Complete, version: 2 }.version(), 2);
    assert_eq!(TodoEvent::Delete { version: 9 }.version(), 9);
}

#[test]
fn fresh_aggregate_reports_version_zero() {
    let agg = TodoAggregate::new();
    assert_eq!(agg.version(), 0);
    assert_eq!(agg.status, Status::Incomplete);
    assert_eq!(agg.name, "");
    assert!(!agg.is_deleted);
    assert_eq!(agg.version, None);
}

#[test]
fn gate_accepts_create_on_empty_state_only() {
    let agg = TodoAggregate::new();
    let id = Guid::new();
    let valid = agg.try_apply(create("Buy milk", id)).unwrap();
    let agg = agg.apply(&valid);
    assert_eq!(agg.version, Some(0));
    assert_eq!(agg.name, "Buy milk");
    assert_eq!(agg.id, id);
    let again = agg.try_apply(create("Buy milk", id));
    assert_eq!(
        again.map(|v| v.event().version()),
        Err(AggregateErr::VersionMismatch { expected: 1, actual: 0 })
    );
}

#[test]
fn gate_rejects_any_version_but_the_next() {
    let agg = TodoAggregate::new();
    let valid = agg.try_apply(create("Buy milk", Guid::new())).unwrap();
    let agg = agg.apply(&valid);
    for v in [0u32, 2, 5, 100] {
        let r = agg.try_apply(TodoEvent::ChangeStatus { status: Status::Complete, version: v });
        assert_eq!(
            r.map(|v| v.event().version()),
            Err(AggregateErr::VersionMismatch { expected: 1, actual: v as u64 })
        );
    }
    assert!(agg.try_apply(TodoEvent::Delete { version: 1 }).is_ok());
}

#[test]
fn gate_rejects_everything_after_delete() {
    let agg = TodoAggregate::new();
    let valid = agg.try_apply(create("Buy milk", Guid::new())).unwrap();
    let agg = agg.apply(&valid);
    let valid = agg.try_apply(TodoEvent::Delete { version: 1 }).unwrap();
    let agg = agg.apply(&valid);
    assert!(agg.is_deleted);
    for v in [0u32, 1, 2, 3] {
        let r = agg.try_apply(TodoEvent::ChangeName { new_name: "x".to_string(), version: v });
        assert_eq!(r.map(|v| v.event().version()), Err(AggregateErr::AlreadyDeleted));
    }
}

#[test]
fn validated_event_hands_the_event_back() {
    let agg = TodoAggregate::new();
    let id = Guid::new();
    let valid = agg.try_apply(create("Buy milk", id)).unwrap();
    match valid.event() {
        TodoEvent::Create { name, id: got } => {
            assert_eq!(name, "Buy milk");
            assert_eq!(got, id);
        },
        other => panic!("wrong event came back: {other:?}"),
    }
}

#[test]
fn replay_of_contiguous_history_ends_at_last_target_version() {
    let id = Guid::new();
    let events = vec![
        create("Buy milk", id),
        TodoEvent::ChangeName { new_name: "Buy oat milk".to_string(), version: 1 },
        TodoEvent::ChangeStatus { status: Status::Complete, version: 2 },
    ];
    let last = events.last().unwrap().version();
    let agg = TodoAggregate::from_events(events).unwrap();
    assert_eq!(agg.version(), last);
    assert_eq!(agg.version, Some(2));
    assert_eq!(agg.name, "Buy oat milk");
    assert_eq!(agg.status, Status::Complete);
    assert_eq!(agg.id, id);
    assert!(!agg.is_deleted);
}

#[test]
fn replay_of_empty_history_is_the_fresh_aggregate() {
    let agg = TodoAggregate::from_events(Vec::new()).unwrap();
    assert_eq!(agg.version, None);
    assert_eq!(agg.name, "");
    assert!(!agg.is_deleted);
}

#[test]
fn replay_rejects_a_version_gap() {
    let events = vec![
        create("Buy milk", Guid::new()),
        TodoEvent::ChangeStatus { status: Status::Complete, version: 2 },
    ];
    let r = TodoAggregate::from_events(events).map(|a| a.version());
    assert_eq!(r, Err(AggregateErr::CorruptHistory));
}

#[test]
fn replay_rejects_history_that_does_not_start_at_zero() {
    let events = vec![TodoEvent::ChangeName { new_name: "x".to_string(), version: 1 }];
    let r = TodoAggregate::from_events(events).map(|a| a.version());
    assert_eq!(r, Err(AggregateErr::CorruptHistory));
}

#[test]
fn replay_rejects_events_after_a_delete() {
    let events = vec![
        create("Buy milk", Guid::new()),
        TodoEvent::Delete { version: 1 },
        TodoEvent::ChangeStatus { status: Status::Complete, version: 2 },
    ];
    let r = TodoAggregate::from_events(events).map(|a| a.version());
    assert_eq!(r, Err(AggregateErr::CorruptHistory));
}

#[test]
fn replay_of_deleted_history_keeps_the_tombstone() {
    let events = vec![create("Buy milk", Guid::new()), TodoEvent::Delete { version: 1 }];
    let agg = TodoAggregate::from_events(events).unwrap();
    assert!(agg.is_deleted);
    assert_eq!(agg.version, Some(1));
    assert_eq!(agg.name, "Buy milk");
}

#[test]
fn snapshot_of_aggregate_copies_its_fields() {
    let id = Guid::new();
    let events = vec![create("Buy milk", id)];
    let agg = TodoAggregate::from_events(events).unwrap();
    let todo = Todo::from_agg(agg);
    assert_eq!(todo.id, id);
    assert_eq!(todo.name, "Buy milk");
    assert_eq!(todo.status, Status::Incomplete);
    assert_eq!(todo.version, 0);
}

#[test]
fn trait_surface_forwards_to_the_state_machine() {
    let id = Guid::new();
    let events = vec![create("Buy milk", id)];
    let agg = <TodoAggregate as Aggregate>::from_events(events).unwrap();
    assert_eq!(Aggregate::version(&agg), 0);
    let valid = Aggregate::try_apply(&agg, TodoEvent::Delete { version: 1 }).unwrap();
    let agg = Aggregate::apply(agg, &valid);
    assert!(agg.is_deleted);
}

#[test]
fn fresh_snapshot_defaults() {
    let todo = todo_events::Todo::new("Buy milk".to_string());
    assert_eq!(todo.name, "Buy milk");
    assert_eq!(todo.status, Status::Incomplete);
    assert_eq!(todo.version, 0);
    let req = todo_events::CreateTodoRequest { name: todo.name.clone() };
    assert_eq!(req.name, "Buy milk");
}

#[test]
fn aggregate_error_texts() {
    assert_eq!(
        AggregateErr::VersionMismatch { expected: 1, actual: 5 }.message(),
        "Attempted to apply an update of the wrong version"
    );
    assert_eq!(AggregateErr::AlreadyDeleted.message(), "Attempted to update a deleted task");
    assert_eq!(
        AggregateErr::CorruptHistory.message(),
        "Stored events are not a contiguous history"
    );
}

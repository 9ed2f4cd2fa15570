//! The event-collection repository: one history per identifier,
//! append-only replacement, and conflict detection.

use todo_events::{Guid, RepoErr, Status, TodoAggregate, TodoEvent, TodoEventColl, TodoEventCollRepo};

fn one_event_coll(name: &str, id: Guid) -> TodoEventColl {
    let agg = TodoAggregate::new();
    let valid = agg.try_apply(TodoEvent::Create { name: name.to_string(), id }).unwrap();
    TodoEventColl::new(id).add_event(valid)
}

fn extended(coll: &TodoEventColl, event: TodoEvent) -> TodoEventColl {
    let agg = coll.to_agg().unwrap();
    let valid = agg.try_apply(event).unwrap();
    coll.clone().add_event(valid)
}

#[test]
fn empty_collection_has_version_zero() {
    let coll = TodoEventColl::new(Guid::new());
    assert_eq!(coll.version(), 0);
    assert_eq!(coll.next_version(), 0);
    assert!(coll.events().is_empty());
}

#[test]
fn appended_event_shows_up_in_order() {
    let id = Guid::new();
    let coll = one_event_coll("Buy milk", id);
    assert_eq!(coll.version(), 0);
    assert_eq!(coll.next_version(), 1);
    let events = coll.events();
    assert_eq!(events.len(), 1);
    match &events[0] {
        TodoEvent::Create { name, id: got } => {
            assert_eq!(name, "Buy milk");
            assert_eq!(*got, id);
        },
        other => panic!("wrong stored event: {other:?}"),
    }
}

#[test]
fn collection_folds_to_its_aggregate() {
    let id = Guid::new();
    let coll = one_event_coll("Buy milk", id);
    let agg = coll.to_agg().unwrap();
    assert_eq!(agg.name, "Buy milk");
    assert_eq!(agg.version, Some(0));
    assert_eq!(agg.id, id);
}

#[test]
fn insert_then_get_returns_the_history() {
    let mut repo = TodoEventCollRepo::new();
    let id = Guid::new();
    repo.insert(&one_event_coll("Buy milk", id)).unwrap();
    let got = repo.get(id).unwrap();
    assert_eq!(got.id, id);
    assert_eq!(got.events().len(), 1);
}

#[test]
fn insert_refuses_a_stored_identifier() {
    let mut repo = TodoEventCollRepo::new();
    let id = Guid::new();
    repo.insert(&one_event_coll("Buy milk", id)).unwrap();
    assert_eq!(repo.insert(&one_event_coll("Buy bread", id)), Err(RepoErr::AlreadyExists));
}

#[test]
fn get_of_unknown_identifier_is_not_found() {
    let repo = TodoEventCollRepo::new();
    assert_eq!(repo.get(Guid::new()).map(|c| c.version()), Err(RepoErr::NotFound));
}

#[test]
fn update_of_unknown_identifier_is_not_found() {
    let mut repo = TodoEventCollRepo::new();
    let coll = one_event_coll("Buy milk", Guid::new());
    assert_eq!(repo.update(&coll), Err(RepoErr::NotFound));
}

#[test]
fn update_lands_when_it_appends_exactly_one_version() {
    let mut repo = TodoEventCollRepo::new();
    let id = Guid::new();
    let coll = one_event_coll("Buy milk", id);
    repo.insert(&coll).unwrap();
    let next = extended(&coll, TodoEvent::ChangeStatus { status: Status::Complete, version: 1 });
    assert_eq!(repo.update(&next), Ok(()));
    let got = repo.get(id).unwrap();
    assert_eq!(got.version(), 1);
    assert_eq!(got.events().len(), 2);
}

#[test]
fn racing_writers_from_the_same_version_cannot_both_land() {
    let mut repo = TodoEventCollRepo::new();
    let id = Guid::new();
    let coll = one_event_coll("Buy milk", id);
    repo.insert(&coll).unwrap();
    let first = extended(&coll, TodoEvent::ChangeStatus { status: Status::Complete, version: 1 });
    let second =
        extended(&coll, TodoEvent::ChangeName { new_name: "Buy bread".to_string(), version: 1 });
    assert_eq!(repo.update(&first), Ok(()));
    assert_eq!(repo.update(&second), Err(RepoErr::VersionMismatch { expected: 3, actual: 2 }));
    let got = repo.get(id).unwrap();
    match &got.events()[1] {
        TodoEvent::ChangeStatus { status, version } => {
            assert_eq!(*status, Status::Complete);
            assert_eq!(*version, 1);
        },
        other => panic!("the first write was lost: {other:?}"),
    }
}

#[test]
fn update_refuses_a_replacement_that_rewrites_nothing() {
    let mut repo = TodoEventCollRepo::new();
    let id = Guid::new();
    let coll = one_event_coll("Buy milk", id);
    repo.insert(&coll).unwrap();
    assert_eq!(
        repo.update(&one_event_coll("Buy bread", id)),
        Err(RepoErr::VersionMismatch { expected: 2, actual: 1 })
    );
}

#[test]
fn list_returns_every_stored_history() {
    let mut repo = TodoEventCollRepo::new();
    let a = Guid::new();
    let b = Guid::new();
    repo.insert(&one_event_coll("Buy milk", a)).unwrap();
    repo.insert(&one_event_coll("Buy bread", b)).unwrap();
    let all = repo.list();
    assert_eq!(all.len(), 2);
    assert_eq!(all[0].id, a);
    assert_eq!(all[1].id, b);
}

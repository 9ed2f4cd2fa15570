//! The command service: orchestrates read-validate-append-write for
//! each use case over the event repository, and never masks an error of
//! the aggregate or of the store.

use vstd::prelude::*;
use vstd::string::StringExecFns;
use crate::aggregate::{
    can_apply, empty_agg, lemma_fold_next_version, next_version, next_version_of, spec_apply,
    spec_fold, spec_target, valid_history, AggView, AggregateErr, EventView, TodoAggregate,
    TodoEvent,
};
use crate::data::DataAccessErr;
use crate::event_store::{
    entry_for, has_id, ids_unique, idx_of, CollView, TodoEventColl, TodoEventCollRepo,
};
use crate::guid::Guid;
use crate::todo::Status;

verus! {

/// Why a command failed.
#[derive(Debug)]
#[allow(inconsistent_fields)]
pub enum TodoServiceErr {
    /// No history is stored for the identifier.
    NotFound,
    /// The aggregate rejected the event: a version conflict or a
    /// tombstoned task.
    Concurrency { err: AggregateErr },
    /// The stored history violates the contiguous-version invariant;
    /// fatal, a conformant store never produces it.
    CorruptHistory,
    /// The storage layer refused the write.
    Persistence { err: DataAccessErr },
}

impl TodoServiceErr {
    /// Wraps a storage layer's plain-text failure.
    pub fn new(message: String) -> (e: TodoServiceErr)
        ensures
            e matches TodoServiceErr::Persistence { err } && err.message@ == message@,
    {
        TodoServiceErr::Persistence { err: DataAccessErr { message } }
    }

    /// The error's text.
    pub fn message(&self) -> (m: String)
        ensures
            self is NotFound ==> m@ == "Could not find events"@,
            self is CorruptHistory ==> m@ == "Stored events are not a contiguous history"@,
            self matches TodoServiceErr::Persistence { err } ==> m@ == err.message@,
            self matches TodoServiceErr::Concurrency { err: e } ==> (e is VersionMismatch ==> m@
                == "Attempted to apply an update of the wrong version"@) && (e is AlreadyDeleted
                ==> m@ == "Attempted to update a deleted task"@) && (e is CorruptHistory ==> m@
                == "Stored events are not a contiguous history"@),
    {
        match self {
            TodoServiceErr::NotFound => String::from_str("Could not find events"),
            TodoServiceErr::CorruptHistory => String::from_str(
                "Stored events are not a contiguous history",
            ),
            TodoServiceErr::Concurrency { err } => err.message().to_owned(),
            TodoServiceErr::Persistence { err } => err.message.clone(),
        }
    }
}

/// The command service over one event repository.
pub struct TodoService {
    event_repo: TodoEventCollRepo,
}

impl View for TodoService {
    type V = Seq<CollView>;

    closed spec fn view(&self) -> Seq<CollView> {
        self.event_repo@
    }
}

impl TodoService {
    /// The service's invariant: its store holds no identifier twice.
    pub open spec fn wf(&self) -> bool {
        ids_unique(self@)
    }

    /// A service over the given repository.
    pub fn init(event_repo: TodoEventCollRepo) -> (s: TodoService)
        requires
            event_repo.wf(),
        ensures
            s@ == event_repo@,
            s.wf(),
    {
        TodoService { event_repo }
    }

    /// Creates a task: draws a fresh identifier and stores its
    /// one-event history. Fails only when the drawn identifier is
    /// already stored, which a unique identifier makes practically
    /// unreachable; on an empty store it always succeeds.
    pub fn create_task(&mut self, name: String) -> (r: Result<TodoAggregate, TodoServiceErr>)
        requires
            old(self).wf(),
        ensures
            final(self).wf(),
            r matches Ok(agg) ==> ({
                &&& !has_id(old(self)@, agg@.id)
                &&& agg@ == spec_apply(empty_agg(), (EventView::Create { name: name@, id: agg@.id }))
                &&& final(self)@ == old(self)@.push(
                    (CollView {
                        id: agg@.id,
                        events: seq![(EventView::Create { name: name@, id: agg@.id })],
                    }),
                )
            }),
            r is Err ==> final(self)@ == old(self)@ && (r matches Err(
                TodoServiceErr::Persistence { .. },
            )) && old(self)@.len() > 0,
    {
        self.create_task_with_id(name, Guid::new())
    }

    /// Creates a task under a given identifier: folds a `Create` event
    /// over the empty aggregate and inserts the one-event history.
    /// Succeeds exactly when no history is stored for the identifier.
    pub fn create_task_with_id(&mut self, name: String, id: Guid) -> (r: Result<
        TodoAggregate,
        TodoServiceErr,
    >)
        requires
            old(self).wf(),
        ensures
            final(self).wf(),
            !has_id(old(self)@, id@) ==> ({
                &&& r matches Ok(agg)
                &&& agg@ == spec_apply(empty_agg(), (EventView::Create { name: name@, id: id@ }))
                &&& final(self)@ == old(self)@.push(
                    (CollView {
                        id: id@,
                        events: seq![(EventView::Create { name: name@, id: id@ })],
                    }),
                )
            }),
            has_id(old(self)@, id@) ==> final(self)@ == old(self)@ && r matches Err(
                TodoServiceErr::Persistence { .. },
            ),
    {
        let event = TodoEvent::Create { name, id };
        let coll = TodoEventColl::new(id);
        let agg = TodoAggregate::new();
        let valid = match agg.try_apply(event) {
            Ok(v) => v,
            // a Create on the empty aggregate always validates
            Err(_) => {
                proof {
                    assert(false);
                }
                return Err(
                    TodoServiceErr::Persistence { err: DataAccessErr::new("Could not insert events") },
                );
            },
        };
        let agg = agg.apply(&valid);
        let coll = coll.add_event(valid);
        proof {
            assert(coll@ =~= (CollView {
                id: id@,
                events: seq![(EventView::Create { name: name@, id: id@ })],
            }));
        }
        match self.event_repo.insert(&coll) {
            Ok(_) => Ok(agg),
            Err(_) => Err(
                TodoServiceErr::Persistence { err: DataAccessErr::new("Could not insert events") },
            ),
        }
    }

    /// Reads one task by folding its stored history.
    pub fn get_task_by_id(&self, id: Guid) -> (r: Result<TodoAggregate, TodoServiceErr>)
        requires
            self.wf(),
        ensures
            !has_id(self@, id@) ==> r == Err::<TodoAggregate, TodoServiceErr>(
                TodoServiceErr::NotFound,
            ),
            has_id(self@, id@) ==> match spec_fold(entry_for(self@, id@).events) {
                Some(a) => r matches Ok(agg) && agg@ == a,
                None => r == Err::<TodoAggregate, TodoServiceErr>(TodoServiceErr::CorruptHistory),
            },
    {
        let coll = match self.event_repo.get(id) {
            Ok(c) => c,
            Err(_) => {
                return Err(TodoServiceErr::NotFound);
            },
        };
        match coll.to_agg() {
            Ok(agg) => Ok(agg),
            Err(_) => Err(TodoServiceErr::CorruptHistory),
        }
    }

    /// Reads every task, folding each stored history independently.
    pub fn list_tasks(&self) -> (r: Result<Vec<TodoAggregate>, TodoServiceErr>)
        requires
            self.wf(),
        ensures
            r is Ok <==> (forall|i: int|
                0 <= i < self@.len() ==> valid_history(#[trigger] self@[i].events)),
            r matches Ok(v) ==> v@.len() == self@.len() && (forall|i: int|
                0 <= i < self@.len() ==> (#[trigger] v@[i])@ == spec_fold(self@[i].events)->Some_0),
            r is Err ==> r == Err::<Vec<TodoAggregate>, TodoServiceErr>(
                TodoServiceErr::CorruptHistory,
            ),
    {
        let colls = self.event_repo.list();
        let mut out: Vec<TodoAggregate> = Vec::new();
        let mut i: usize = 0;
        while i < colls.len()
            invariant
                i <= colls@.len(),
                colls.deep_view() == self@,
                colls@.len() == self@.len(),
                out@.len() == i,
                forall|k: int| 0 <= k < i ==> valid_history(#[trigger] self@[k].events),
                forall|k: int|
                    0 <= k < i ==> (#[trigger] out@[k])@ == spec_fold(self@[k].events)->Some_0,
            decreases colls@.len() - i,
        {
            proof {
                assert(colls@[i as int]@ == colls.deep_view()[i as int]);
            }
            let agg = match colls[i].to_agg() {
                Ok(a) => a,
                Err(_) => {
                    proof {
                        assert(!valid_history(self@[i as int].events));
                    }
                    return Err(TodoServiceErr::CorruptHistory);
                },
            };
            out.push(agg);
            i = i + 1;
        }
        Ok(out)
    }

    /// Updates one task: folds the stored history, validates the
    /// caller's event against the current version, folds it, appends it
    /// to the history, and replaces the stored record.
    pub fn update_task(&mut self, id: Guid, event: TodoEvent) -> (r: Result<
        TodoAggregate,
        TodoServiceErr,
    >)
        requires
            old(self).wf(),
        ensures
            final(self).wf(),
            !has_id(old(self)@, id@) ==> r == Err::<TodoAggregate, TodoServiceErr>(
                TodoServiceErr::NotFound,
            ) && final(self)@ == old(self)@,
            has_id(old(self)@, id@) ==> ({
                let stored = entry_for(old(self)@, id@).events;
                match spec_fold(stored) {
                    None => r == Err::<TodoAggregate, TodoServiceErr>(
                        TodoServiceErr::CorruptHistory,
                    ) && final(self)@ == old(self)@,
                    Some(a) => ({
                        &&& can_apply(a, event@) ==> (r matches Ok(agg) && agg@ == spec_apply(
                            a,
                            event@,
                        ) && final(self)@ == old(self)@.update(
                            idx_of(old(self)@, id@),
                            (CollView { id: id@, events: stored.push(event@) }),
                        ))
                        &&& a.is_deleted ==> r == Err::<TodoAggregate, TodoServiceErr>(
                            (TodoServiceErr::Concurrency { err: AggregateErr::AlreadyDeleted }),
                        ) && final(self)@ == old(self)@
                        &&& (!a.is_deleted && spec_target(event@) as int != next_version(a)) ==> r
                            == Err::<TodoAggregate, TodoServiceErr>(
                            (TodoServiceErr::Concurrency {
                                err: (AggregateErr::VersionMismatch {
                                    expected: next_version(a) as u64,
                                    actual: spec_target(event@) as u64,
                                }),
                            }),
                        ) && final(self)@ == old(self)@
                    }),
                }
            }),
    {
        let coll = match self.event_repo.get(id) {
            Ok(c) => c,
            Err(_) => {
                return Err(TodoServiceErr::NotFound);
            },
        };
        let agg = match coll.to_agg() {
            Ok(a) => a,
            Err(_) => {
                return Err(TodoServiceErr::CorruptHistory);
            },
        };
        let valid = match agg.try_apply(event) {
            Ok(v) => v,
            Err(e) => {
                return Err(TodoServiceErr::Concurrency { err: e });
            },
        };
        let agg = agg.apply(&valid);
        let coll = coll.add_event(valid);
        proof {
            let stored = entry_for(old(self)@, id@).events;
            lemma_fold_next_version(stored);
            assert(coll@.events.last() == event@);
            assert(next_version_of(coll@.events) == next_version_of(stored) + 1);
            assert(coll@ =~= (CollView { id: id@, events: stored.push(event@) }));
        }
        match self.event_repo.update(&coll) {
            Ok(_) => Ok(agg),
            // the replacement extends the history just fetched by one
            // version, so the store's guard holds
            Err(_) => {
                proof {
                    assert(false);
                }
                Err(
                    TodoServiceErr::Persistence {
                        err: DataAccessErr::new("Could not update collection"),
                    },
                )
            },
        }
    }
}

/// Creating a task and immediately reading it back: once `create_task`
/// has stored the one-event history of a fresh identifier, that stored
/// history folds to an aggregate carrying the given name, status
/// `Incomplete` and version zero — which is what `get_task_by_id` then
/// hands back.
pub proof fn lemma_create_then_get(repo: Seq<CollView>, id: u128, name: Seq<char>)
    requires
        ids_unique(repo),
        !has_id(repo, id),
    ensures
        ({
            let ev = EventView::Create { name, id };
            let repo2 = repo.push((CollView { id, events: seq![ev] }));
            &&& ids_unique(repo2)
            &&& has_id(repo2, id)
            &&& spec_fold(entry_for(repo2, id).events) == Some(
                (AggView {
                    id,
                    status: Status::Incomplete,
                    name,
                    version: Some(0u32),
                    is_deleted: false,
                }),
            )
        }),
{
    let ev = EventView::Create { name, id };
    let one = seq![ev];
    let repo2 = repo.push((CollView { id, events: one }));
    let n = repo.len() as int;
    assert forall|p: int, q: int|
        0 <= p < q < repo2.len() implies (#[trigger] repo2[p]).id != (#[trigger] repo2[q]).id by {
        if q < n {
            assert(repo[p].id != repo[q].id);
        } else {
            assert(repo2[q].id == id);
            assert(repo2[p] == repo[p]);
            assert(repo[p].id != id);
        }
    }
    assert(repo2[n].id == id);
    assert(has_id(repo2, id));
    let j = idx_of(repo2, id);
    assert(0 <= j < repo2.len() && repo2[j].id == id);
    if j != n {
        assert(repo2[j] == repo[j]);
        assert(repo[j].id != id);
    }
    assert(entry_for(repo2, id).events == one);
    assert(one.drop_last() =~= Seq::<EventView>::empty());
    assert(spec_fold(one.drop_last()) == Some(empty_agg()));
    assert(can_apply(empty_agg(), ev));
    assert(spec_fold(one) == Some(spec_apply(empty_agg(), ev)));
    assert(spec_apply(empty_agg(), ev) =~= (AggView {
        id,
        status: Status::Incomplete,
        name,
        version: Some(0u32),
        is_deleted: false,
    }));
}

} // verus!

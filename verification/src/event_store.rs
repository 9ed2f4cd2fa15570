//! The stored shape of one task: its ordered event history, and a
//! repository that keeps one history per identifier, detects conflicting
//! writes, and never lets a stored history shrink.

use vstd::prelude::*;
use vstd::pervasive::VecAdditionalExecFns;
use crate::aggregate::{
    next_version_of, spec_fold, spec_target, AggregateErr, EventView, TodoAggregate, TodoEvent,
    ValidTodoEvent,
};
use crate::guid::{lemma_guid_eq, Guid};

verus! {

/// The mathematical shape of one stored history: the identifier it
/// belongs to and its events in order.
#[verifier::ext_equal]
pub struct CollView {
    pub id: u128,
    pub events: Seq<EventView>,
}

/// The version of the last event of a history; zero when it is empty.
pub open spec fn coll_version(s: Seq<EventView>) -> u32 {
    if s.len() == 0 {
        0
    } else {
        spec_target(s.last())
    }
}

/// Whether no two histories of `s` share an identifier.
pub open spec fn ids_unique(s: Seq<CollView>) -> bool {
    forall|i: int, j: int|
        0 <= i < j < s.len() ==> (#[trigger] s[i]).id != (#[trigger] s[j]).id
}

/// Whether some history of `s` belongs to `id`.
pub open spec fn has_id(s: Seq<CollView>, id: u128) -> bool {
    exists|i: int| 0 <= i < s.len() && (#[trigger] s[i]).id == id
}

/// The position of the history of `id`, meaningful when `has_id` holds.
pub open spec fn idx_of(s: Seq<CollView>, id: u128) -> int {
    choose|i: int| 0 <= i < s.len() && (#[trigger] s[i]).id == id
}

/// The stored history of `id`, meaningful when `has_id` holds.
pub open spec fn entry_for(s: Seq<CollView>, id: u128) -> CollView {
    s[idx_of(s, id)]
}

/// An ordered, append-only event history for one identifier; the stored
/// document for that identifier is exactly this value.
#[derive(Debug)]
pub struct TodoEventColl {
    pub id: Guid,
    events: Vec<TodoEvent>,
}

impl View for TodoEventColl {
    type V = CollView;

    closed spec fn view(&self) -> CollView {
        CollView { id: self.id@, events: self.events.deep_view() }
    }
}

impl DeepView for TodoEventColl {
    type V = CollView;

    open spec fn deep_view(&self) -> CollView {
        self.view()
    }
}

/// An element-wise copy of an event list.
fn clone_events(v: &Vec<TodoEvent>) -> (r: Vec<TodoEvent>)
    ensures
        r.deep_view() == v.deep_view(),
{
    let mut r: Vec<TodoEvent> = Vec::new();
    let mut i: usize = 0;
    while i < v.len()
        invariant
            i <= v@.len(),
            r@.len() == i,
            forall|k: int| 0 <= k < i ==> (#[trigger] r@[k])@ == v@[k]@,
        decreases v@.len() - i,
    {
        r.push(v[i].clone());
        i = i + 1;
    }
    proof {
        assert(r.deep_view() =~= v.deep_view());
    }
    r
}

impl Clone for TodoEventColl {
    fn clone(&self) -> (r: TodoEventColl)
        ensures
            r@ == self@,
    {
        let r = TodoEventColl { id: self.id, events: clone_events(&self.events) };
        proof {
            assert(r@ =~= self@);
        }
        r
    }
}

impl TodoEventColl {
    /// A fresh, still empty history for `id`.
    pub fn new(id: Guid) -> (r: TodoEventColl)
        ensures
            r@.id == id@,
            r@.events == Seq::<EventView>::empty(),
    {
        let r = TodoEventColl { id, events: Vec::new() };
        proof {
            assert(r@.events =~= Seq::<EventView>::empty());
        }
        r
    }

    /// The version of the last stored event; zero for an empty history.
    pub fn version(&self) -> (v: u32)
        ensures
            v == coll_version(self@.events),
    {
        let n = self.events.len();
        if n == 0 {
            0
        } else {
            let v = self.events[n - 1].version();
            proof {
                assert(self.events@[n - 1] == self.events@.last());
            }
            v
        }
    }

    /// One past the version of the last stored event; zero for an empty
    /// history. This is the version the next appended event must target.
    pub fn next_version(&self) -> (v: u64)
        ensures
            v as int == next_version_of(self@.events),
    {
        let n = self.events.len();
        if n == 0 {
            0
        } else {
            let v = self.events[n - 1].version();
            proof {
                assert(self.events@[n - 1] == self.events@.last());
            }
            v as u64 + 1
        }
    }

    /// A copy of the stored events, in order.
    pub fn events(&self) -> (r: Vec<TodoEvent>)
        ensures
            r.deep_view() == self@.events,
    {
        clone_events(&self.events)
    }

    /// The history extended by one validated event.
    pub fn add_event(self, valid_event: ValidTodoEvent) -> (r: TodoEventColl)
        ensures
            r@.id == self@.id,
            r@.events == self@.events.push(valid_event@),
    {
        let ghost before = self@;
        let mut r = self;
        r.events.push(valid_event.event());
        proof {
            assert(r@.events =~= before.events.push(valid_event@));
        }
        r
    }

    /// The aggregate this history denotes, by replaying it from the
    /// empty state.
    pub fn to_agg(&self) -> (r: Result<TodoAggregate, AggregateErr>)
        ensures
            match spec_fold(self@.events) {
                Some(a) => r matches Ok(agg) && agg@ == a,
                None => r == Err::<TodoAggregate, AggregateErr>(AggregateErr::CorruptHistory),
            },
    {
        TodoAggregate::from_events(self.events())
    }
}

/// Why the repository refused an operation.
#[derive(Clone, Copy, PartialEq, Eq, Structural, Debug)]
pub enum RepoErr {
    /// An insert found a history already stored under the identifier.
    AlreadyExists,
    /// No history is stored under the identifier.
    NotFound,
    /// A replacement did not extend the stored history by exactly the
    /// next version; the fields hold one past the version of the last
    /// event of the history each side brought.
    VersionMismatch { expected: u64, actual: u64 },
}

/// Stores one event history per identifier. A replacement lands only
/// when it extends what is stored by exactly the next version, so of
/// two writers racing from the same observed history exactly one wins.
pub struct TodoEventCollRepo {
    colls: Vec<TodoEventColl>,
}

impl View for TodoEventCollRepo {
    type V = Seq<CollView>;

    closed spec fn view(&self) -> Seq<CollView> {
        self.colls.deep_view()
    }
}

impl TodoEventCollRepo {
    /// The repository's invariant: no identifier is stored twice.
    pub open spec fn wf(&self) -> bool {
        ids_unique(self@)
    }

    /// A fresh, empty repository.
    pub fn new() -> (r: TodoEventCollRepo)
        ensures
            r@ == Seq::<CollView>::empty(),
            r.wf(),
    {
        let r = TodoEventCollRepo { colls: Vec::new() };
        proof {
            assert(r@ =~= Seq::<CollView>::empty());
        }
        r
    }

    /// The position of the history stored for `id`, if any.
    fn find_idx(&self, id: &Guid) -> (r: Option<usize>)
        ensures
            match r {
                Some(i) => i < self@.len() && self@[i as int].id == id@,
                None => !has_id(self@, id@),
            },
    {
        let mut i: usize = 0;
        while i < self.colls.len()
            invariant
                i <= self.colls@.len(),
                self@.len() == self.colls@.len(),
                forall|k: int| 0 <= k < i ==> (#[trigger] self@[k]).id != id@,
            decreases self.colls@.len() - i,
        {
            if self.colls[i].id == *id {
                return Some(i);
            }
            proof {
                lemma_guid_eq(self.colls@[i as int].id, *id);
            }
            i = i + 1;
        }
        None
    }

    /// With unique identifiers, any position whose history carries `id`
    /// is the position `idx_of` picks.
    proof fn lemma_found_is_entry(&self, id: u128, i: int)
        requires
            self.wf(),
            0 <= i < self@.len(),
            self@[i].id == id,
        ensures
            has_id(self@, id),
            idx_of(self@, id) == i,
            entry_for(self@, id) == self@[i],
    {
        assert(has_id(self@, id));
        let j = idx_of(self@, id);
        assert(0 <= j < self@.len() && self@[j].id == id);
        if i < j {
            assert(self@[i].id != self@[j].id);
        } else if j < i {
            assert(self@[j].id != self@[i].id);
        }
    }

    /// Creates a new record; refuses an identifier that is already
    /// present and then leaves the store unchanged.
    pub fn insert(&mut self, coll: &TodoEventColl) -> (r: Result<(), RepoErr>)
        requires
            old(self).wf(),
        ensures
            final(self).wf(),
            has_id(old(self)@, coll@.id) ==> r == Err::<(), RepoErr>(RepoErr::AlreadyExists)
                && final(self)@ == old(self)@,
            !has_id(old(self)@, coll@.id) ==> r == Ok::<(), RepoErr>(())
                && final(self)@ == old(self)@.push(coll@),
    {
        match self.find_idx(&coll.id) {
            Some(_) => Err(RepoErr::AlreadyExists),
            None => {
                self.colls.push(coll.clone());
                proof {
                    assert(self@ =~= old(self)@.push(coll@));
                    assert forall|i: int, j: int|
                        0 <= i < j < self@.len() implies (#[trigger] self@[i]).id != (
                    #[trigger] self@[j]).id by {
                        if j == self@.len() - 1 {
                            assert(self@[i] == old(self)@[i]);
                        }
                    }
                }
                Ok(())
            },
        }
    }

    /// Hands back a copy of the history stored for `id`; refuses an
    /// identifier with no record.
    pub fn get(&self, id: Guid) -> (r: Result<TodoEventColl, RepoErr>)
        requires
            self.wf(),
        ensures
            r is Ok <==> has_id(self@, id@),
            r matches Ok(c) ==> c@ == entry_for(self@, id@) && c@.id == id@,
            !has_id(self@, id@) ==> r == Err::<TodoEventColl, RepoErr>(RepoErr::NotFound),
    {
        match self.find_idx(&id) {
            Some(i) => {
                let c = self.colls[i].clone();
                proof {
                    self.lemma_found_is_entry(id@, i as int);
                }
                Ok(c)
            },
            None => Err(RepoErr::NotFound),
        }
    }

    /// Replaces the whole stored history for `coll`'s identifier, but
    /// only when `coll` extends what is stored by exactly the next
    /// version: the conditional-replace guard that makes one of two
    /// racing writers fail instead of silently losing an update.
    pub fn update(&mut self, coll: &TodoEventColl) -> (r: Result<(), RepoErr>)
        requires
            old(self).wf(),
        ensures
            final(self).wf(),
            !has_id(old(self)@, coll@.id) ==> r == Err::<(), RepoErr>(RepoErr::NotFound)
                && final(self)@ == old(self)@,
            has_id(old(self)@, coll@.id) ==> ({
                let stored = entry_for(old(self)@, coll@.id);
                &&& next_version_of(coll@.events) == next_version_of(stored.events) + 1 ==> r
                    == Ok::<(), RepoErr>(()) && final(self)@ == old(self)@.update(
                    idx_of(old(self)@, coll@.id),
                    coll@,
                )
                &&& next_version_of(coll@.events) != next_version_of(stored.events) + 1 ==> r
                    == Err::<(), RepoErr>(
                    (RepoErr::VersionMismatch {
                        expected: (next_version_of(stored.events) + 1) as u64,
                        actual: next_version_of(coll@.events) as u64,
                    }),
                ) && final(self)@ == old(self)@
            }),
    {
        match self.find_idx(&coll.id) {
            None => Err(RepoErr::NotFound),
            Some(i) => {
                proof {
                    self.lemma_found_is_entry(coll@.id, i as int);
                }
                let expected: u64 = self.colls[i].next_version() + 1;
                let actual: u64 = coll.next_version();
                if actual == expected {
                    self.colls.set(i, coll.clone());
                    proof {
                        assert(self@ =~= old(self)@.update(i as int, coll@));
                        assert forall|p: int, q: int|
                            0 <= p < q < self@.len() implies (#[trigger] self@[p]).id != (
                        #[trigger] self@[q]).id by {
                            assert(old(self)@[p].id != old(self)@[q].id);
                        }
                    }
                    Ok(())
                } else {
                    Err(RepoErr::VersionMismatch { expected, actual })
                }
            },
        }
    }

    /// Copies of all stored histories, in storage order.
    pub fn list(&self) -> (r: Vec<TodoEventColl>)
        ensures
            r.deep_view() == self@,
    {
        let mut r: Vec<TodoEventColl> = Vec::new();
        let mut i: usize = 0;
        while i < self.colls.len()
            invariant
                i <= self.colls@.len(),
                r@.len() == i,
                forall|k: int| 0 <= k < i ==> (#[trigger] r@[k])@ == self.colls@[k]@,
            decreases self.colls@.len() - i,
        {
            r.push(self.colls[i].clone());
            i = i + 1;
        }
        proof {
            assert(r.deep_view() =~= self@);
        }
        r
    }
}

/// Two replacements prepared against the same observed history cannot
/// both land: after the first one replaces the stored history, the
/// second no longer meets the version guard, so the repository rejects
/// it with a version mismatch instead of losing the first update.
pub proof fn lemma_lost_update_prevented(
    repo: Seq<CollView>,
    c1: CollView,
    c2: CollView,
)
    requires
        ids_unique(repo),
        has_id(repo, c1.id),
        c2.id == c1.id,
        next_version_of(c1.events) == next_version_of(entry_for(repo, c1.id).events) + 1,
        next_version_of(c2.events) == next_version_of(entry_for(repo, c1.id).events) + 1,
    ensures
        ({
            let after_first = repo.update(idx_of(repo, c1.id), c1);
            &&& ids_unique(after_first)
            &&& has_id(after_first, c2.id)
            &&& next_version_of(c2.events) != next_version_of(
                entry_for(after_first, c2.id).events,
            ) + 1
        }),
{
    let i = idx_of(repo, c1.id);
    assert(0 <= i < repo.len() && repo[i].id == c1.id);
    let after_first = repo.update(i, c1);
    assert forall|p: int, q: int|
        0 <= p < q < after_first.len() implies (#[trigger] after_first[p]).id != (
    #[trigger] after_first[q]).id by {
        assert(repo[p].id != repo[q].id);
    }
    assert(after_first[i].id == c2.id);
    assert(has_id(after_first, c2.id));
    let j = idx_of(after_first, c2.id);
    assert(0 <= j < after_first.len() && after_first[j].id == c2.id);
    if i != j {
        if i < j {
            assert(after_first[i].id != after_first[j].id);
        } else {
            assert(after_first[j].id != after_first[i].id);
        }
    }
    assert(entry_for(after_first, c2.id) == c1);
}

} // verus!

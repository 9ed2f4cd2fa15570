//! The event-sourced core: the closed set of task events, the versioned
//! aggregate state machine that validates and folds them, and the laws
//! that hold of every fold.

use vstd::prelude::*;
use crate::guid::Guid;
use crate::todo::Status;

verus! {

/// One recorded state change of a task. Every variant but `Create`
/// carries the version it targets; a `Create` implicitly targets
/// version zero.
#[derive(Debug)]
pub enum TodoEvent {
    Create { name: String, id: Guid },
    ChangeName { new_name: String, version: u32 },
    ChangeStatus { status: Status, version: u32 },
    Delete { version: u32 },
}

/// The mathematical shape of one event.
#[verifier::ext_equal]
pub enum EventView {
    Create { name: Seq<char>, id: u128 },
    ChangeName { new_name: Seq<char>, version: u32 },
    ChangeStatus { status: Status, version: u32 },
    Delete { version: u32 },
}

impl View for TodoEvent {
    type V = EventView;

    open spec fn view(&self) -> EventView {
        match self {
            TodoEvent::Create { name, id } => EventView::Create { name: name@, id: id@ },
            TodoEvent::ChangeName { new_name, version } => EventView::ChangeName {
                new_name: new_name@,
                version: *version,
            },
            TodoEvent::ChangeStatus { status, version } => EventView::ChangeStatus {
                status: *status,
                version: *version,
            },
            TodoEvent::Delete { version } => EventView::Delete { version: *version },
        }
    }
}

impl DeepView for TodoEvent {
    type V = EventView;

    open spec fn deep_view(&self) -> EventView {
        self.view()
    }
}

impl Clone for TodoEvent {
    fn clone(&self) -> (r: TodoEvent)
        ensures
            r@ == self@,
    {
        match self {
            TodoEvent::Create { name, id } => TodoEvent::Create { name: name.clone(), id: *id },
            TodoEvent::ChangeName { new_name, version } => TodoEvent::ChangeName {
                new_name: new_name.clone(),
                version: *version,
            },
            TodoEvent::ChangeStatus { status, version } => TodoEvent::ChangeStatus {
                status: *status,
                version: *version,
            },
            TodoEvent::Delete { version } => TodoEvent::Delete { version: *version },
        }
    }
}

/// The version an event claims to apply at: zero for `Create`, the
/// carried version otherwise.
pub open spec fn spec_target(e: EventView) -> u32 {
    match e {
        EventView::Create { .. } => 0,
        EventView::ChangeName { version, .. } => version,
        EventView::ChangeStatus { version, .. } => version,
        EventView::Delete { version } => version,
    }
}

impl TodoEvent {
    /// The version this event claims to apply at.
    pub fn version(&self) -> (v: u32)
        ensures
            v == spec_target(self@),
    {
        match self {
            TodoEvent::Create { .. } => 0,
            TodoEvent::ChangeName { version, .. } => *version,
            TodoEvent::ChangeStatus { version, .. } => *version,
            TodoEvent::Delete { version } => *version,
        }
    }
}

/// Why an event was rejected, or why a stored history could not be
/// folded back into an aggregate.
#[derive(Clone, Copy, PartialEq, Eq, Structural, Debug)]
pub enum AggregateErr {
    /// The event targets another version than the one the aggregate
    /// expects next.
    VersionMismatch { expected: u64, actual: u64 },
    /// The aggregate has folded a `Delete` event and accepts nothing
    /// further.
    AlreadyDeleted,
    /// A stored history violates the contiguous-version invariant and
    /// cannot be replayed.
    CorruptHistory,
}

impl AggregateErr {
    /// The error's text.
    pub fn message(&self) -> (m: &str)
        ensures
            self is VersionMismatch ==> m@ == "Attempted to apply an update of the wrong version"@,
            self is AlreadyDeleted ==> m@ == "Attempted to update a deleted task"@,
            self is CorruptHistory ==> m@ == "Stored events are not a contiguous history"@,
    {
        match self {
            AggregateErr::VersionMismatch { .. } => "Attempted to apply an update of the wrong version",
            AggregateErr::AlreadyDeleted => "Attempted to update a deleted task",
            AggregateErr::CorruptHistory => "Stored events are not a contiguous history",
        }
    }
}

/// An event that passed the aggregate's validation gate. Only
/// `try_apply` constructs one, so `apply` accepts validated events by
/// construction.
pub struct ValidTodoEvent {
    event: TodoEvent,
}

impl View for ValidTodoEvent {
    type V = EventView;

    closed spec fn view(&self) -> EventView {
        self.event@
    }
}

impl ValidTodoEvent {
    /// A copy of the validated event.
    pub fn event(&self) -> (e: TodoEvent)
        ensures
            e@ == self@,
    {
        self.event.clone()
    }
}

/// The mathematical shape of one aggregate: the derived state of a task.
#[verifier::ext_equal]
pub struct AggView {
    pub id: u128,
    pub status: Status,
    pub name: Seq<char>,
    pub version: Option<u32>,
    pub is_deleted: bool,
}

/// The state before any event has been folded.
pub open spec fn empty_agg() -> AggView {
    AggView {
        id: 0,
        status: Status::Incomplete,
        name: Seq::empty(),
        version: None,
        is_deleted: false,
    }
}

/// The version the next event must target: zero before any event, one
/// past the last applied version after.
pub open spec fn next_version(a: AggView) -> int {
    match a.version {
        None => 0,
        Some(v) => v + 1,
    }
}

/// The version an aggregate reports: zero before any event has been
/// folded.
pub open spec fn version_or_zero(a: AggView) -> u32 {
    match a.version {
        None => 0,
        Some(v) => v,
    }
}

/// Whether the aggregate accepts this event: it must not be deleted, and
/// the event must target exactly the next version.
pub open spec fn can_apply(a: AggView, e: EventView) -> bool {
    !a.is_deleted && spec_target(e) as int == next_version(a)
}

/// Folding one event into the aggregate: `Create` sets identity and
/// name, `ChangeName` the name, `ChangeStatus` the status, `Delete` the
/// tombstone; every event sets the version it targeted.
pub open spec fn spec_apply(a: AggView, e: EventView) -> AggView {
    match e {
        EventView::Create { name, id } => AggView { id, name, version: Some(0u32), ..a },
        EventView::ChangeName { new_name, version } => AggView {
            name: new_name,
            version: Some(version),
            ..a
        },
        EventView::ChangeStatus { status, version } => AggView {
            status,
            version: Some(version),
            ..a
        },
        EventView::Delete { version } => AggView { is_deleted: true, version: Some(version), ..a },
    }
}

/// Folding a whole history from the empty state, event by event; `None`
/// when some event fails the validation gate, which marks the history
/// corrupt.
pub open spec fn spec_fold(s: Seq<EventView>) -> Option<AggView>
    decreases s.len(),
{
    if s.len() == 0 {
        Some(empty_agg())
    } else {
        match spec_fold(s.drop_last()) {
            None => None,
            Some(a) => if can_apply(a, s.last()) {
                Some(spec_apply(a, s.last()))
            } else {
                None
            },
        }
    }
}

/// Whether a history replays cleanly from the empty state.
pub open spec fn valid_history(s: Seq<EventView>) -> bool {
    spec_fold(s) is Some
}

/// The version the next event appended to this history must target.
pub open spec fn next_version_of(s: Seq<EventView>) -> int {
    if s.len() == 0 {
        0
    } else {
        spec_target(s.last()) + 1
    }
}

/// A versioned state machine folding its own events.
pub trait Aggregate: Sized {
    type Event;
    type ValidEvent;

    fn version(&self) -> u32;

    fn try_apply(&self, event: Self::Event) -> Result<Self::ValidEvent, AggregateErr>;

    fn apply(self, event: &Self::ValidEvent) -> Self;

    fn from_events(events: Vec<Self::Event>) -> Result<Self, AggregateErr>;
}

/// The derived state of one task: identity, name, status, the version of
/// the last folded event, and the tombstone flag.
#[derive(Debug)]
pub struct TodoAggregate {
    pub id: Guid,
    pub status: Status,
    pub name: String,
    pub version: Option<u32>,
    pub is_deleted: bool,
}

impl View for TodoAggregate {
    type V = AggView;

    open spec fn view(&self) -> AggView {
        AggView {
            id: self.id@,
            status: self.status,
            name: self.name@,
            version: self.version,
            is_deleted: self.is_deleted,
        }
    }
}

impl DeepView for TodoAggregate {
    type V = AggView;

    open spec fn deep_view(&self) -> AggView {
        self.view()
    }
}

impl TodoAggregate {
    /// The aggregate equivalent to the empty state: nothing folded yet.
    pub fn new() -> (r: TodoAggregate)
        ensures
            r@ == empty_agg(),
    {
        let r = TodoAggregate {
            id: Guid::empty(),
            status: Status::Incomplete,
            name: String::new(),
            version: None,
            is_deleted: false,
        };
        proof {
            assert(r@ =~= empty_agg());
        }
        r
    }

    /// The version of the last folded event; zero before any event.
    pub fn version(&self) -> (v: u32)
        ensures
            v == version_or_zero(self@),
    {
        match self.version {
            None => 0,
            Some(v) => v,
        }
    }

    /// The optimistic-concurrency gate: accepts the event only when the
    /// aggregate is not deleted and the event targets exactly the next
    /// version; the only place where write conflicts are detected.
    pub fn try_apply(&self, event: TodoEvent) -> (r: Result<ValidTodoEvent, AggregateErr>)
        ensures
            r is Ok <==> can_apply(self@, event@),
            r matches Ok(v) ==> v@ == event@,
            self@.is_deleted ==> r == Err::<ValidTodoEvent, AggregateErr>(
                AggregateErr::AlreadyDeleted,
            ),
            !self@.is_deleted && spec_target(event@) as int != next_version(self@) ==> r
                == Err::<ValidTodoEvent, AggregateErr>(
                (AggregateErr::VersionMismatch {
                    expected: next_version(self@) as u64,
                    actual: spec_target(event@) as u64,
                }),
            ),
    {
        if self.is_deleted {
            Err(AggregateErr::AlreadyDeleted)
        } else {
            let expected: u64 = match self.version {
                None => 0,
                Some(v) => v as u64 + 1,
            };
            let actual: u64 = event.version() as u64;
            if actual != expected {
                Err(AggregateErr::VersionMismatch { expected, actual })
            } else {
                Ok(ValidTodoEvent { event })
            }
        }
    }

    /// Folds one validated event into a new aggregate value; the input
    /// is consumed, never mutated in place for the caller.
    pub fn apply(self, valid_event: &ValidTodoEvent) -> (r: TodoAggregate)
        ensures
            r@ == spec_apply(self@, valid_event@),
    {
        let mut agg = self;
        match &valid_event.event {
            TodoEvent::Create { name, id } => {
                agg.name = name.clone();
                agg.id = *id;
                agg.version = Some(0);
            },
            TodoEvent::ChangeName { new_name, version } => {
                agg.name = new_name.clone();
                agg.version = Some(*version);
            },
            TodoEvent::ChangeStatus { status, version } => {
                agg.status = *status;
                agg.version = Some(*version);
            },
            TodoEvent::Delete { version } => {
                agg.is_deleted = true;
                agg.version = Some(*version);
            },
        }
        agg
    }

    /// Replays a stored history from the empty state, validating each
    /// event in turn; a history that fails validation anywhere is corrupt.
    pub fn from_events(events: Vec<TodoEvent>) -> (r: Result<TodoAggregate, AggregateErr>)
        ensures
            match spec_fold(events.deep_view()) {
                Some(a) => r matches Ok(agg) && agg@ == a,
                None => r == Err::<TodoAggregate, AggregateErr>(AggregateErr::CorruptHistory),
            },
    {
        let ghost s = events.deep_view();
        let mut agg = TodoAggregate::new();
        let mut i: usize = 0;
        proof {
            assert(s.take(0) =~= Seq::<EventView>::empty());
        }
        while i < events.len()
            invariant
                i <= events@.len(),
                s == events.deep_view(),
                s.len() == events@.len(),
                spec_fold(s.take(i as int)) == Some(agg@),
            decreases events@.len() - i,
        {
            let ev = events[i].clone();
            proof {
                assert(ev@ == s[i as int]);
            }
            let valid = match agg.try_apply(ev) {
                Ok(v) => v,
                Err(_) => {
                    proof {
                        lemma_fold_fails_from(s, i as int, agg@);
                    }
                    return Err(AggregateErr::CorruptHistory);
                },
            };
            agg = agg.apply(&valid);
            proof {
                assert(s.take(i + 1).drop_last() =~= s.take(i as int));
                assert(s.take(i + 1).last() == s[i as int]);
            }
            i = i + 1;
        }
        proof {
            assert(s.take(s.len() as int) =~= s);
        }
        Ok(agg)
    }
}

impl Aggregate for TodoAggregate {
    type Event = TodoEvent;

    type ValidEvent = ValidTodoEvent;

    fn version(&self) -> u32 {
        self.version()
    }

    fn try_apply(&self, event: TodoEvent) -> Result<ValidTodoEvent, AggregateErr> {
        self.try_apply(event)
    }

    fn apply(self, event: &ValidTodoEvent) -> Self {
        self.apply(event)
    }

    fn from_events(events: Vec<TodoEvent>) -> Result<Self, AggregateErr> {
        TodoAggregate::from_events(events)
    }
}

/// Every prefix of a replayable history replays too.
proof fn lemma_fold_prefix_some(s: Seq<EventView>, k: int)
    requires
        0 <= k <= s.len(),
        spec_fold(s) is Some,
    ensures
        spec_fold(s.take(k)) is Some,
    decreases s.len() - k,
{
    if k == s.len() {
        assert(s.take(k) =~= s);
    } else {
        lemma_fold_prefix_some(s, k + 1);
        assert(s.take(k + 1).drop_last() =~= s.take(k));
    }
}

/// A history whose replay fails validation at position `i` does not
/// replay as a whole.
proof fn lemma_fold_fails_from(s: Seq<EventView>, i: int, a: AggView)
    requires
        0 <= i < s.len(),
        spec_fold(s.take(i)) == Some(a),
        !can_apply(a, s[i]),
    ensures
        spec_fold(s) is None,
{
    if spec_fold(s) is Some {
        lemma_fold_prefix_some(s, i + 1);
        assert(s.take(i + 1).drop_last() =~= s.take(i));
        assert(s.take(i + 1).last() == s[i]);
        assert(false);
    }
}

/// In every replayable history the event at position `k` targets
/// version `k` exactly, and the folded aggregate's version is the target
/// of the last event.
pub proof fn lemma_fold_versions(s: Seq<EventView>)
    requires
        spec_fold(s) is Some,
    ensures
        spec_fold(s)->Some_0.version == (if s.len() == 0 {
            None::<u32>
        } else {
            Some(spec_target(s.last()))
        }),
        forall|i: int| 0 <= i < s.len() ==> spec_target(#[trigger] s[i]) as int == i,
    decreases s.len(),
{
    if s.len() > 0 {
        lemma_fold_versions(s.drop_last());
        assert forall|i: int| 0 <= i < s.len() implies spec_target(#[trigger] s[i]) as int
            == i by {
            if i < s.len() - 1 {
                assert(s.drop_last()[i] == s[i]);
            } else {
                assert(s[i] == s.last());
            }
        }
    }
}

/// For every non-empty replayable history, folding yields an aggregate
/// whose version is the target version of the last event, which in turn
/// is the history's length less one.
pub proof fn lemma_fold_version_is_last_target(s: Seq<EventView>)
    requires
        valid_history(s),
        s.len() > 0,
    ensures
        spec_fold(s)->Some_0.version == Some(spec_target(s.last())),
        spec_target(s.last()) as int == s.len() - 1,
{
    lemma_fold_versions(s);
}

/// The version the folded aggregate expects next equals the version the
/// next event appended to the history must target.
pub proof fn lemma_fold_next_version(s: Seq<EventView>)
    requires
        valid_history(s),
    ensures
        next_version(spec_fold(s)->Some_0) == next_version_of(s),
{
    lemma_fold_versions(s);
}

/// A history without any `Delete` event folds to an aggregate without
/// the tombstone.
proof fn lemma_no_delete_not_deleted(s: Seq<EventView>)
    requires
        spec_fold(s) is Some,
        forall|i: int| 0 <= i < s.len() ==> !((#[trigger] s[i]) is Delete),
    ensures
        !spec_fold(s)->Some_0.is_deleted,
    decreases s.len(),
{
    if s.len() > 0 {
        assert forall|i: int| 0 <= i < s.drop_last().len() implies !((
        #[trigger] s.drop_last()[i]) is Delete) by {
            assert(s.drop_last()[i] == s[i]);
        }
        lemma_no_delete_not_deleted(s.drop_last());
        assert(!(s.last() is Delete));
    }
}

/// Conversely to `lemma_fold_versions`: a non-empty history whose
/// events target versions 0, 1, 2, … in order, with no `Delete` before
/// its last position, replays cleanly. Together the two lemmas
/// characterize the replayable histories exactly.
pub proof fn lemma_contiguous_history_replays(s: Seq<EventView>)
    requires
        forall|i: int| 0 <= i < s.len() ==> spec_target(#[trigger] s[i]) as int == i,
        forall|i: int| 0 <= i < s.len() - 1 ==> !((#[trigger] s[i]) is Delete),
    ensures
        valid_history(s),
    decreases s.len(),
{
    if s.len() > 0 {
        let t = s.drop_last();
        assert forall|i: int| 0 <= i < t.len() implies spec_target(#[trigger] t[i]) as int
            == i by {
            assert(t[i] == s[i]);
        }
        assert forall|i: int| 0 <= i < t.len() - 1 implies !((#[trigger] t[i]) is Delete) by {
            assert(t[i] == s[i]);
        }
        lemma_contiguous_history_replays(t);
        let a = spec_fold(t)->Some_0;
        lemma_fold_versions(t);
        assert forall|i: int| 0 <= i < t.len() implies !((#[trigger] t[i]) is Delete) by {
            assert(t[i] == s[i]);
        }
        lemma_no_delete_not_deleted(t);
        assert(can_apply(a, s.last()));
    }
}

/// Once a history holds a `Delete` event, its folded aggregate carries
/// the tombstone, and `try_apply` rejects every further event, whatever
/// version it targets.
pub proof fn lemma_delete_is_terminal(s: Seq<EventView>, i: int, e: EventView)
    requires
        valid_history(s),
        0 <= i < s.len(),
        s[i] is Delete,
    ensures
        spec_fold(s)->Some_0.is_deleted,
        !can_apply(spec_fold(s)->Some_0, e),
    decreases s.len(),
{
    if i == s.len() - 1 {
        assert(s[i] == s.last());
    } else {
        lemma_fold_prefix_some(s, s.len() - 1);
        assert(s.take(s.len() - 1) =~= s.drop_last());
        assert(s.drop_last()[i] == s[i]);
        lemma_delete_is_terminal(s.drop_last(), i, e);
        assert(false);
    }
}

} // verus!

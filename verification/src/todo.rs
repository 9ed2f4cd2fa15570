//! The task read model handed to callers: a flat snapshot of one
//! aggregate, plus the request and error shapes of the command surface.

use vstd::prelude::*;
use crate::aggregate::{version_or_zero, TodoAggregate};
use crate::guid::Guid;

verus! {

/// Whether a task has been completed.
#[derive(Clone, Copy, PartialEq, Eq, Structural, Debug)]
pub enum Status {
    Complete,
    Incomplete,
}

/// A flat snapshot of one task, derived from an aggregate.
#[derive(Debug)]
pub struct Todo {
    pub id: Guid,
    pub status: Status,
    pub name: String,
    pub version: u32,
}

impl Todo {
    /// A fresh task snapshot with a random identifier, not yet backed by
    /// any stored history.
    pub fn new(name: String) -> (t: Todo)
        ensures
            t.name@ == name@,
            t.status == Status::Incomplete,
            t.version == 0,
    {
        Todo { name, status: Status::Incomplete, id: Guid::new(), version: 0 }
    }

    /// The snapshot of an aggregate; an aggregate that has folded no
    /// event yet reports version zero.
    pub fn from_agg(agg: TodoAggregate) -> (t: Todo)
        ensures
            t.id@ == agg@.id,
            t.status == agg@.status,
            t.name@ == agg@.name,
            t.version == version_or_zero(agg@),
    {
        let version = agg.version();
        Todo { version, id: agg.id, status: agg.status, name: agg.name }
    }
}

/// The body of a request to create a task.
#[derive(Debug)]
pub struct CreateTodoRequest {
    pub name: String,
}

/// A plain-text error handed back over the command surface.
#[derive(Debug)]
pub struct TodoError {
    message: String,
}

impl TodoError {
    pub fn new(message: &str) -> (e: TodoError)
        ensures
            e@ == message@,
    {
        TodoError { message: message.to_owned() }
    }

    /// The error's text.
    pub fn message(&self) -> (m: &str)
        ensures
            m@ == self@,
    {
        self.message.as_str()
    }
}

impl View for TodoError {
    type V = Seq<char>;

    closed spec fn view(&self) -> Seq<char> {
        self.message@
    }
}

} // verus!

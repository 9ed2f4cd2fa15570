//! An event-sourced task store: events, a versioned aggregate state machine,
//! an append-only history per identifier, and the service that orchestrates
//! read-validate-append-write for each use case.

pub mod aggregate;
pub mod data;
pub mod event_store;
pub mod guid;
pub mod todo;
pub mod todo_service;

pub use aggregate::{Aggregate, AggregateErr, TodoAggregate, TodoEvent, ValidTodoEvent};
pub use data::DataAccessErr;
pub use event_store::{RepoErr, TodoEventColl, TodoEventCollRepo};
pub use guid::Guid;
pub use todo::{CreateTodoRequest, Status, Todo, TodoError};
pub use todo_service::{TodoService, TodoServiceErr};

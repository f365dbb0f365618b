//! A durable task queue: typed, delayed tasks, a store that holds them, and the
//! claiming protocol by which workers take exclusive hold of one ready task at
//! a time, run it, and mark it completed.
//!
//! - `task`: the task record, its kinds and states, their stored texts, filters
//!   and errors.
//! - `query`: the SQL statements of the store and the listing query builder.
//! - `store`: an in-memory store with row locks that skip held rows, and the
//!   model its operations are specified against.
//! - `protocol`: the decisions of one claim-and-execute attempt against a
//!   transactional backing store.
//! - `laws`: properties of the store proved over its model.
use vstd::prelude::*;

pub mod laws;
pub mod protocol;
pub mod query;
pub mod store;
pub mod task;

verus! {

} // verus!

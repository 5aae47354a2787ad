//! A task organizer's core data model: Files hold Lists, Lists hold Tasks
//! and Projects, Projects hold Tasks. Every container level offers the same
//! lookup/mutation/aggregation contract, a Project's status is derived from
//! its Tasks on every query, and the record tree that is persisted round
//! trips to an equivalent model tree.

pub mod codec;
pub mod gtd;

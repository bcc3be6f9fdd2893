//! What the library promises, stated over what goes into a call and what comes out of
//! it. A law takes a call by its arguments and its result: `call_ensures` says that the
//! result is one the function may give. What a call leaves of a mutable argument is
//! taken before and after it.

pub mod approvals;
pub mod attaching;
pub mod base;
pub mod bodies;
pub mod commands;
pub mod digest;
pub mod garbage;
pub mod installing;
pub mod labelling;
pub mod layouts;
pub mod leaves;
pub mod phases;
pub mod picking;
pub mod plans;
pub mod posts;
pub mod questions;
pub mod reports;
pub mod repositories;
pub mod runs;
pub mod schema;
pub mod sessions;
pub mod setup;
pub mod targets;
pub mod telling;
pub mod texts;
pub mod waiting;
pub mod who;

//! A per-account task list with aggregate counters, a byte-level path router
//! and two renderers (structured text and a JSON document) over one shared
//! data model.
//!
//! The library works on plain values: an account is a byte string, a
//! description and a page are bytes, a task list is a vector in ascending
//! order of id. Host strings, addresses and byte strings are converted at
//! the boundary, in [`host`]. What the ledger stores and what the host
//! authenticates stay outside: a contract loads the records that a call
//! needs into a [`TodoContract`], tells it whether the caller is
//! authenticated, lets it decide, and writes back the records that it names
//! in [`TodoContract::writes`].
//!
//! - [`task`], [`account`], [`contract`]: the data model, one account's
//!   state, and the store with its counters and entry points;
//! - [`route`], [`pages`]: the router and the route table of the task list;
//! - [`markdown`], [`json`], [`text`]: the two serializers and the byte-level
//!   helpers that they share;
//! - [`host`]: the boundary with the Soroban host, the only module that
//!   takes anything on trust;
//! - [`hello`]: a greeting page;
//! - [`laws`], [`routing_laws`]: what holds of every store and every path.

pub mod account;
pub mod contract;
pub mod hello;
pub mod host;
pub mod json;
pub mod laws;
pub mod markdown;
pub mod pages;
pub mod route;
pub mod routing_laws;
pub mod task;
pub mod text;

pub use account::Account;
pub use contract::{DataKey, TodoContract, TodoError};
pub use hello::HelloContract;
pub use pages::Page;
pub use task::{AccountId, Task};

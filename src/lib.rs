//! Content-management backend core.
//!
//! - [`topic_tx`]: the authoring transaction (create or update a topic with
//!   its content and tags) as a state machine that emits statements for the
//!   relational store; [`store`] models that store and proves what a run does.
//! - [`topic_del`]: soft delete and restore of a topic with its tag links.
//! - [`session`]: session ids, keyed-store keys, cookies, login and
//!   authorization; [`kv`] models the keyed store.
//! - [`gate`]: content gating, which redacts random blocks of an article
//!   behind single-use reveal tokens; [`unveil`] reads and consumes them.
//! - [`error`], [`arg`], [`form`], [`model`], [`config`], [`select_stmt`],
//!   [`cache`], [`tags`], [`text`]: errors, request and row types, statement
//!   text, and string helpers.
use vstd::prelude::*;

pub mod arg;
pub mod cache;
pub mod error;
pub mod text;
pub mod form;
pub mod config;
pub mod model;
pub mod tags;
pub mod topic_tx;
pub mod topic_del;
pub mod store;
pub mod kv;
pub mod session;
pub mod gate;
pub mod unveil;
pub mod select_stmt;

verus! {

} // verus!

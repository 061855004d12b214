//! The planning core of an analytical SQL engine.
//!
//! * [`optimizer`]: relational expressions, the memo with its cost
//!   bookkeeping, rewriting by rules, join reordering, the cost-based choice
//!   of a plan, and the driver that takes a statement through the stages of
//!   optimization.
//! * [`pipelines`]: pipelines of processors, and the builder that lays a
//!   physical plan out as pipelines.
//! * [`hash_join`] and [`hashtable`]: the row bookkeeping that MERGE INTO
//!   needs when the target table sits on the build side of a hash join.
//! * [`storages`]: the clauses of `WHEN MATCHED THEN UPDATE`.
//!
//! The functions are verified against the contracts they carry. The
//! contracts speak of the views of the data types (`@`) and of the spec
//! functions defined beside them; what holds across functions is stated in
//! the proof functions. A failure is stated with its kind and its text. One
//! small function is taken on trust, with a note that says so: it asks
//! `petgraph` whether a number is zero. The error type of `anyhow` is
//! declared and never looked into.

pub mod catalog;
pub mod exception;
pub mod executor;
pub mod expression;
pub mod hash_join;
pub mod hashtable;
pub mod interpreters;
pub mod optimizer;
pub mod pipelines;
pub mod sessions;
pub mod storages;

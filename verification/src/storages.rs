//! What the storage layer runs on the rows that MERGE INTO matched.

pub mod update_by_expr_mutator;

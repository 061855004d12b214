//! Query optimization: relational expressions, the memo with its cost
//! bookkeeping, and the driver that takes a statement through the stages.

pub mod cascades;
pub mod heuristic;
pub mod hyper_dp;
pub mod join_parts;
pub mod memo;
pub mod optimizer;
pub mod plans;
pub mod rule;
pub mod s_expr;
pub mod stages;

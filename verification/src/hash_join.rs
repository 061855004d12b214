//! The state that the build side and the probe side of a hash join share, and
//! what MERGE INTO keeps in it when the target table is on the build side.

pub mod merge_into_hash_join_optimization;
pub mod state;

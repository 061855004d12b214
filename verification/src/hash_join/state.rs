//! The parts of the hash-join state that MERGE INTO reads and fills.

use crate::expression::DataBlock;
use crate::hash_join::merge_into_hash_join_optimization::MergeIntoState;
use crate::hashtable::MergeIntoChunkPartialUnmodified;
use std::collections::VecDeque;
use vstd::prelude::*;

verus! {

/// What the build side has taken in so far.
#[derive(Debug)]
pub struct BuildGenerationState {
    /// Rows in `chunks`.
    pub build_num_rows: usize,
    /// The build rows, chunk by chunk.
    pub chunks: Vec<DataBlock>,
}

#[derive(Debug)]
pub struct BuildState {
    pub generation_state: BuildGenerationState,
}

/// The state shared by all workers of one hash join. A caller that lets
/// several workers at it hands them the state one at a time, so that each
/// method runs to its end before the next begins.
#[derive(Debug)]
pub struct HashJoinState {
    /// Present exactly when the join serves a MERGE INTO whose target table is
    /// on the build side.
    pub merge_into_state: Option<MergeIntoState>,
    pub build_state: BuildState,
}

/// The build side's handle on the join.
#[derive(Debug)]
pub struct HashJoinBuildState {
    pub hash_join_state: HashJoinState,
}

/// The probe side's handle on the join.
#[derive(Debug)]
pub struct HashJoinProbeState {
    pub hash_join_state: HashJoinState,
    /// Probe workers that have not finished yet.
    pub probe_workers: usize,
    /// The tasks of the final scan, handed out from the front.
    pub final_merge_into_partial_unmodified_scan_tasks: VecDeque<MergeIntoChunkPartialUnmodified>,
}

/// One probe processor: what it needs for the final scan.
#[derive(Debug)]
pub struct TransformHashJoinProbe {
    /// The most rows that one output block may hold.
    pub max_block_size: usize,
    /// Blocks waiting to be pushed downstream.
    pub output_data_blocks: VecDeque<DataBlock>,
}

/// The rows in the first `n` chunks.
pub open spec fn chunk_rows(chunks: Seq<DataBlock>, n: int) -> int
    decreases n,
{
    if n <= 0 {
        0
    } else {
        chunk_rows(chunks, n - 1) + chunks[n - 1].num_rows
    }
}

impl HashJoinState {
    /// A chunk was admitted and its offset is not noted yet: the row count is
    /// that of the chunks, and the chunks before the last have their offsets.
    pub open spec fn chunk_admitted(&self) -> bool {
        let chunks = self.build_state.generation_state.chunks@;
        &&& self.build_state.generation_state.build_num_rows == chunk_rows(
            chunks,
            chunks.len() as int,
        )
        &&& self.merge_into_state matches Some(m) ==> {
            &&& m.chunk_offsets@.len() + 1 == chunks.len()
            &&& forall|k: int|
                0 <= k < m.chunk_offsets@.len() ==> (#[trigger] m.chunk_offsets@[k]) == chunk_rows(
                    chunks,
                    k + 1,
                )
        }
    }

    /// The row count is that of the chunks, and with MERGE INTO tracking the
    /// `k`-th chunk offset is the number of rows in the chunks up to and
    /// including chunk `k`.
    pub open spec fn chunks_consistent(&self) -> bool {
        let chunks = self.build_state.generation_state.chunks@;
        &&& self.build_state.generation_state.build_num_rows == chunk_rows(
            chunks,
            chunks.len() as int,
        )
        &&& self.merge_into_state matches Some(m) ==> {
            &&& m.chunk_offsets@.len() == chunks.len()
            &&& forall|k: int|
                0 <= k < chunks.len() ==> (#[trigger] m.chunk_offsets@[k]) == chunk_rows(
                    chunks,
                    k + 1,
                )
        }
    }
}

} // verus!

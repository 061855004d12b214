//! MERGE INTO with the target table on the build side: which build rows were
//! matched, and what is left to scan once probing is over.
//!
//! Every build row has one byte that says whether a probe row matched it. A
//! row may be matched once; a second match fails the statement. When the last
//! probe worker is done the bytes are read block by block: a block whose rows
//! were all matched is deleted as a whole, a block with some rows matched has
//! its other rows scanned again, and a block without a matched row is left
//! alone.

use crate::catalog::compute_row_id_prefix;
use crate::catalog::split_prefix;
use crate::exception::ErrorCode;
use crate::exception::ErrorKind;
use crate::expression::BlockMetaIndex;
use crate::expression::DataBlock;
use crate::expression::DataBlockView;
use crate::expression::IndexType;
use crate::hash_join::state::HashJoinBuildState;
use crate::hash_join::state::HashJoinProbeState;
use crate::hash_join::state::HashJoinState;
use crate::hash_join::state::TransformHashJoinProbe;
use crate::hash_join::state::chunk_rows;
use crate::hashtable::BlockInfoIndex;
use crate::hashtable::Interval;
use crate::hashtable::MergeIntoChunkPartialUnmodified;
use crate::hashtable::RowPtr;
use crate::hashtable::chunk_start;
use crate::hashtable::chunk_tasks;
use crate::hashtable::matched_all_blocks;
use crate::hashtable::partial_unmodified;
use crate::hashtable::tasks_view;
use std::collections::VecDeque;
use vstd::prelude::*;

verus! {

/// The text of the failure when a target row is matched a second time.
pub const CONFLICT_TEXT: &'static str =
    "multi rows from source match one and the same row in the target_table multi times in probe phase";

/// The table index that stands for "no table".
pub const DUMMY_TABLE_INDEX: IndexType = usize::MAX;

/// The handle through which probe workers reach the match bytes: empty until
/// the build side is complete, then the number of rows it covers.
#[derive(Debug)]
pub struct MatchedPtr(pub Option<usize>);

#[derive(Debug)]
pub struct MergeIntoState {
    pub is_distributed_merge_into: bool,
    /// Where each block of the target table lies among the build rows.
    pub block_info_index: BlockInfoIndex,
    /// One byte per build row: 0 until a probe row matches it, then 1.
    pub matched: Vec<u8>,
    /// Published once `matched` has its final size.
    pub atomic_pointer: MatchedPtr,
    /// `chunk_offsets[k]` is the number of rows in the chunks up to and
    /// including chunk `k`.
    pub chunk_offsets: Vec<u32>,
}

/// The offset of row `ptr` among all build rows.
pub open spec fn row_offset(chunk_offsets: Seq<u32>, ptr: RowPtr) -> int {
    if ptr.chunk_index == 0 {
        ptr.row_index as int
    } else {
        chunk_offsets[ptr.chunk_index - 1] + ptr.row_index
    }
}

/// Row `ptr` names a build row that has a match byte.
pub open spec fn row_in_range(chunk_offsets: Seq<u32>, rows: int, ptr: RowPtr) -> bool {
    &&& ptr.chunk_index > 0 ==> ptr.chunk_index - 1 < chunk_offsets.len()
    &&& row_offset(chunk_offsets, ptr) < rows
}

/// The rows in the chunks grow with the number of chunks.
pub proof fn lemma_chunk_rows_grow(chunks: Seq<DataBlock>, n: int, m: int)
    requires
        0 <= n <= m,
    ensures
        0 <= chunk_rows(chunks, n) <= chunk_rows(chunks, m),
    decreases m,
{
    if n < m {
        lemma_chunk_rows_grow(chunks, n, m - 1);
    } else if n > 0 {
        lemma_chunk_rows_grow(chunks, n - 1, n - 1);
    }
}

/// With consistent chunk offsets, a row of a chunk has its offset among the
/// build rows: behind the rows of the chunks before it, and before the rows
/// of the chunks after it.
pub proof fn lemma_row_offset(state: HashJoinState, ptr: RowPtr)
    requires
        state.chunks_consistent(),
        state.merge_into_state is Some,
        ptr.chunk_index < state.build_state.generation_state.chunks@.len(),
        ptr.row_index < state.build_state.generation_state.chunks@[ptr.chunk_index as int].num_rows,
    ensures
        row_offset(state.merge_into_state->0.chunk_offsets@, ptr) == chunk_rows(
            state.build_state.generation_state.chunks@,
            ptr.chunk_index as int,
        ) + ptr.row_index,
        row_in_range(
            state.merge_into_state->0.chunk_offsets@,
            state.build_state.generation_state.build_num_rows as int,
            ptr,
        ),
{
    let chunks = state.build_state.generation_state.chunks@;
    lemma_chunk_rows_grow(chunks, ptr.chunk_index + 1, chunks.len() as int);
    if ptr.chunk_index > 0 {
        assert(state.merge_into_state->0.chunk_offsets@[ptr.chunk_index - 1] == chunk_rows(
            chunks,
            ptr.chunk_index as int,
        ));
    }
}

/// With consistent chunk offsets, two rows of the build side with the same
/// offset are the same row.
pub proof fn lemma_row_offset_injective(state: HashJoinState, a: RowPtr, b: RowPtr)
    requires
        state.chunks_consistent(),
        state.merge_into_state is Some,
        a.chunk_index < state.build_state.generation_state.chunks@.len(),
        a.row_index < state.build_state.generation_state.chunks@[a.chunk_index as int].num_rows,
        b.chunk_index < state.build_state.generation_state.chunks@.len(),
        b.row_index < state.build_state.generation_state.chunks@[b.chunk_index as int].num_rows,
        row_offset(state.merge_into_state->0.chunk_offsets@, a) == row_offset(
            state.merge_into_state->0.chunk_offsets@,
            b,
        ),
    ensures
        a == b,
{
    let chunks = state.build_state.generation_state.chunks@;
    lemma_row_offset(state, a);
    lemma_row_offset(state, b);
    if a.chunk_index < b.chunk_index {
        lemma_chunk_rows_grow(chunks, a.chunk_index + 1, b.chunk_index as int);
    } else if b.chunk_index < a.chunk_index {
        lemma_chunk_rows_grow(chunks, b.chunk_index + 1, a.chunk_index as int);
    }
}

/// One of the first `n` rows of the batch is valid and matches build row `o`.
pub open spec fn batch_hits(
    chunk_offsets: Seq<u32>,
    build_indexes: Seq<RowPtr>,
    valids: Seq<bool>,
    n: int,
    o: int,
) -> bool {
    exists|i: int|
        0 <= i < n && #[trigger] valids[i] && row_offset(chunk_offsets, build_indexes[i]) == o
}

/// Row `j` of the batch is valid and matches a build row that was matched
/// before: before the batch, or by an earlier row of it.
pub open spec fn conflict_at(
    matched: Seq<u8>,
    chunk_offsets: Seq<u32>,
    build_indexes: Seq<RowPtr>,
    valids: Seq<bool>,
    j: int,
) -> bool {
    let o = row_offset(chunk_offsets, build_indexes[j]);
    valids[j] && (matched[o] != 0 || batch_hits(chunk_offsets, build_indexes, valids, j, o))
}

/// The match bytes after the first `n` rows of the batch were taken in.
pub open spec fn tagged_by(
    matched: Seq<u8>,
    chunk_offsets: Seq<u32>,
    build_indexes: Seq<RowPtr>,
    valids: Seq<bool>,
    n: int,
) -> Seq<u8> {
    Seq::new(
        matched.len(),
        |o: int|
            if batch_hits(chunk_offsets, build_indexes, valids, n, o) {
                1u8
            } else {
                matched[o]
            },
    )
}

impl MergeIntoState {
    /// The state for a join whose build side is table
    /// `merge_into_target_table_index`; none when that is no table.
    pub fn try_create_merge_into_state(
        merge_into_target_table_index: IndexType,
        is_distributed_merge_into: bool,
    ) -> (state: Option<Self>)
        ensures
            state is Some <==> merge_into_target_table_index != DUMMY_TABLE_INDEX,
            state matches Some(s) ==> {
                &&& s.is_distributed_merge_into == is_distributed_merge_into
                &&& s.block_info_index.wf()
                &&& s.block_info_index.ordered()
                &&& s.block_info_index@.len() == 0
                &&& s.matched@.len() == 0
                &&& s.atomic_pointer.0 is None
                &&& s.chunk_offsets@.len() == 0
            },
    {
        if merge_into_target_table_index != DUMMY_TABLE_INDEX {
            Some(
                MergeIntoState {
                    is_distributed_merge_into,
                    block_info_index: BlockInfoIndex::new_with_capacity(0),
                    matched: Vec::new(),
                    atomic_pointer: MatchedPtr(None),
                    chunk_offsets: Vec::with_capacity(100),
                },
            )
        } else {
            None
        }
    }

    /// The match bytes are published and there is one per build row.
    pub open spec fn published(&self) -> bool {
        self.atomic_pointer.0 == Some(self.matched@.len() as usize)
    }

    /// The first `matched_idx` rows of a batch can be taken in: the match
    /// bytes are published, the batch has that many rows, and each valid one
    /// of them names a build row that has a match byte.
    pub open spec fn accepts(
        &self,
        build_indexes: Seq<RowPtr>,
        matched_idx: int,
        valids: Seq<bool>,
    ) -> bool {
        &&& self.published()
        &&& matched_idx <= build_indexes.len()
        &&& matched_idx <= valids.len()
        &&& forall|i: int|
            0 <= i < matched_idx && #[trigger] valids[i] ==> row_in_range(
                self.chunk_offsets@,
                self.matched@.len() as int,
                build_indexes[i],
            )
    }

    /// Whether the first `matched_idx` rows of a batch can be taken in.
    pub fn check_accepts(&self, build_indexes: &[RowPtr], matched_idx: usize,
        valids: &Vec<bool>) -> (b:
        bool)
        ensures
            b == self.accepts(build_indexes@, matched_idx as int, valids@),
    {
        let rows: usize = self.matched.len();
        let published = match self.atomic_pointer.0 {
            Some(n) => n == rows,
            None => false,
        };
        if !published || matched_idx > build_indexes.len() || matched_idx > valids.len() {
            return false;
        }
        let mut idx: usize = 0;
        while idx < matched_idx
            invariant
                0 <= idx <= matched_idx,
                matched_idx <= build_indexes@.len(),
                matched_idx <= valids@.len(),
                rows == self.matched@.len(),
                forall|i: int|
                    0 <= i < idx && #[trigger] valids@[i] ==> row_in_range(
                        self.chunk_offsets@,
                        self.matched@.len() as int,
                        build_indexes@[i],
                    ),
            decreases matched_idx - idx,
        {
            if valids[idx] {
                let row_ptr = build_indexes[idx];
                let row: u64 = row_ptr.row_index as u64;
                let in_range = if row_ptr.chunk_index == 0 {
                    row < (rows as u64)
                } else if (row_ptr.chunk_index - 1) as usize >= self.chunk_offsets.len() {
                    false
                } else {
                    let start: u64 = self.chunk_offsets[(row_ptr.chunk_index - 1) as usize] as u64;
                    start + row < (rows as u64)
                };
                if !in_range {
                    return false;
                }
            }
            idx += 1;
        }
        true
    }

    /// Takes in the first `matched_idx` rows of a probe batch; see
    /// [`HashJoinProbeState::check_and_set_matched`].
    pub fn check_and_set_matched(
        &mut self,
        build_indexes: &[RowPtr],
        matched_idx: usize,
        valids: &Vec<bool>,
    ) -> (r: Result<(), ErrorCode>)
        requires
            old(self).accepts(build_indexes@, matched_idx as int, valids@),
        ensures
            final(self).published(),
            final(self).chunk_offsets == old(self).chunk_offsets,
            final(self).block_info_index == old(self).block_info_index,
            final(self).is_distributed_merge_into == old(self).is_distributed_merge_into,
            r is Ok <==> forall|j: int|
                0 <= j < matched_idx ==> !conflict_at(
                    old(self).matched@,
                    old(self).chunk_offsets@,
                    build_indexes@,
                    valids@,
                    j,
                ),
            r is Ok ==> final(self).matched@ == tagged_by(
                old(self).matched@,
                old(self).chunk_offsets@,
                build_indexes@,
                valids@,
                matched_idx as int,
            ),
            r matches Err(e) ==> e.kind() == ErrorKind::UnresolvableConflict && e.spec_message()
                == CONFLICT_TEXT@ && exists|j: int|
                {
                    &&& 0 <= j < matched_idx
                    &&& conflict_at(
                        old(self).matched@,
                        old(self).chunk_offsets@,
                        build_indexes@,
                        valids@,
                        j,
                    )
                    &&& forall|i: int|
                        0 <= i < j ==> !conflict_at(
                            old(self).matched@,
                            old(self).chunk_offsets@,
                            build_indexes@,
                            valids@,
                            i,
                        )
                    &&& final(self).matched@ == tagged_by(
                        old(self).matched@,
                        old(self).chunk_offsets@,
                        build_indexes@,
                        valids@,
                        j,
                    )
                },
    {
        let ghost before = self.matched@;
        let ghost offsets = self.chunk_offsets@;
        let rows: usize = self.matched.len();
        assert(before =~= tagged_by(before, offsets, build_indexes@, valids@, 0));
        let mut idx: usize = 0;
        while idx < matched_idx
            invariant
                0 <= idx <= matched_idx,
                matched_idx <= build_indexes@.len(),
                matched_idx <= valids@.len(),
                offsets == self.chunk_offsets@,
                before == old(self).matched@,
                before.len() == self.matched@.len(),
                rows == before.len(),
                self.published(),
                self.chunk_offsets == old(self).chunk_offsets,
                self.block_info_index == old(self).block_info_index,
                self.is_distributed_merge_into == old(self).is_distributed_merge_into,
                forall|i: int|
                    0 <= i < matched_idx && #[trigger] valids@[i] ==> row_in_range(
                        offsets,
                        before.len() as int,
                        build_indexes@[i],
                    ),
                forall|j: int|
                    0 <= j < idx ==> !conflict_at(before, offsets, build_indexes@, valids@, j),
                self.matched@ == tagged_by(before, offsets, build_indexes@, valids@, idx as int),
            decreases matched_idx - idx,
        {
            let ghost current = self.matched@;
            proof {
                assert forall|o: int|
                    batch_hits(offsets, build_indexes@, valids@, idx + 1, o) <==> batch_hits(
                        offsets,
                        build_indexes@,
                        valids@,
                        idx as int,
                        o,
                    ) || (valids@[idx as int] && row_offset(offsets, build_indexes@[idx as int])
                        == o) by {
                    lemma_batch_hits_step(offsets, build_indexes@, valids@, idx as int, o);
                }
            }
            if valids[idx] {
                let row_ptr = build_indexes[idx];
                assert(row_in_range(offsets, before.len() as int, build_indexes@[idx as int]));
                let offset: usize = if row_ptr.chunk_index == 0 {
                    row_ptr.row_index as usize
                } else {
                    self.chunk_offsets[(row_ptr.chunk_index - 1) as usize] as usize
                        + row_ptr.row_index as usize
                };
                assert(offset == row_offset(offsets, build_indexes@[idx as int]));
                let old_matched_counts: u8 = self.matched[offset];
                if old_matched_counts > 0 {
                    assert(conflict_at(before, offsets, build_indexes@, valids@, idx as int));
                    return Err(
                        ErrorCode::UnresolvableConflict(
                            CONFLICT_TEXT.to_string(),
                        ),
                    );
                }
                self.matched.set(offset, old_matched_counts + 1);
                assert(self.matched@ =~= tagged_by(
                    before,
                    offsets,
                    build_indexes@,
                    valids@,
                    idx + 1,
                ));
            } else {
                assert(current =~= tagged_by(before, offsets, build_indexes@, valids@, idx + 1));
            }
            idx += 1;
        }
        Ok(())
    }
}

impl HashJoinState {
    /// Whether the join tracks matched rows for MERGE INTO.
    pub fn need_merge_into_target_partial_modified_scan(&self) -> (need: bool)
        ensures
            need == self.merge_into_state is Some,
    {
        self.merge_into_state.is_some()
    }
}

impl HashJoinBuildState {
    /// Records where the block `input` lies among the build rows: behind the
    /// rows of the finished chunks and the `old_size` rows that wait in the
    /// current one. Does nothing without MERGE INTO tracking.
    pub fn merge_into_try_build_block_info_index(&mut self, input: &DataBlock, old_size: usize)
        requires
            old(self).hash_join_state.merge_into_state matches Some(m) ==> {
                &&& m.block_info_index.wf()
                &&& input.meta is Some
                &&& input.num_rows >= 1
                &&& old(self).hash_join_state.build_state.generation_state.build_num_rows
                    + old_size + input.num_rows - 1 <= u32::MAX
            },
        ensures
            final(self).hash_join_state.build_state == old(self).hash_join_state.build_state,
            old(self).hash_join_state.merge_into_state is None ==> final(self).hash_join_state
                == old(self).hash_join_state,
            old(self).hash_join_state.merge_into_state matches Some(m) ==> {
                let start = old(self).hash_join_state.build_state.generation_state.build_num_rows
                    + old_size;
                let interval = (start as u32, (start + input.num_rows - 1) as u32);
                let prefix = crate::catalog::row_id_prefix(
                    input.meta->0.segment_idx as u64,
                    input.meta->0.block_idx as u64,
                );
                &&& final(self).hash_join_state.merge_into_state matches Some(n)
                &&& n.block_info_index.wf()
                &&& n.block_info_index@ == m.block_info_index@.push((interval, prefix))
                &&& n.block_info_index.intervals@ == m.block_info_index.intervals@.push(interval)
                &&& m.block_info_index.ordered() && m.block_info_index.end() <= start
                    ==> n.block_info_index.ordered()
                &&& n.matched == m.matched
                &&& n.atomic_pointer == m.atomic_pointer
                &&& n.chunk_offsets == m.chunk_offsets
                &&& n.is_distributed_merge_into == m.is_distributed_merge_into
            },
    {
        let build_num_rows = self.hash_join_state.build_state.generation_state.build_num_rows;
        match &mut self.hash_join_state.merge_into_state {
            Some(merge_into_state) => {
                let start_offset: usize = build_num_rows + old_size;
                let end_offset: usize = start_offset + (input.num_rows() - 1);
                let block_meta_index = input.get_meta().unwrap();
                let row_prefix = compute_row_id_prefix(
                    block_meta_index.segment_idx as u64,
                    block_meta_index.block_idx as u64,
                );
                merge_into_state.block_info_index.insert_block_offsets(
                    (start_offset as u32, end_offset as u32),
                    row_prefix,
                );
            },
            None => {},
        }
    }

    /// Notes the end of the chunk that was admitted last: the number of build
    /// rows so far. Does nothing without MERGE INTO tracking.
    pub fn merge_into_try_add_chunk_offset(&mut self)
        requires
            old(self).hash_join_state.merge_into_state is Some
                ==> old(self).hash_join_state.build_state.generation_state.build_num_rows <= u32::MAX,
        ensures
            final(self).hash_join_state.build_state == old(self).hash_join_state.build_state,
            old(self).hash_join_state.merge_into_state is None ==> final(self).hash_join_state
                == old(self).hash_join_state,
            old(self).hash_join_state.merge_into_state matches Some(m) ==> {
                &&& final(self).hash_join_state.merge_into_state matches Some(n)
                &&& n.chunk_offsets@ == m.chunk_offsets@.push(
                    old(self).hash_join_state.build_state.generation_state.build_num_rows as u32,
                )
                &&& n.block_info_index == m.block_info_index
                &&& n.matched == m.matched
                &&& n.atomic_pointer == m.atomic_pointer
                &&& n.is_distributed_merge_into == m.is_distributed_merge_into
            },
            old(self).hash_join_state.chunk_admitted()
                ==> final(self).hash_join_state.chunks_consistent(),
    {
        let build_num_rows = self.hash_join_state.build_state.generation_state.build_num_rows;
        match &mut self.hash_join_state.merge_into_state {
            Some(merge_into_state) => {
                merge_into_state.chunk_offsets.push(build_num_rows as u32);
            },
            None => {},
        }
    }

    /// Gives every build row its match byte, all of them 0, and publishes
    /// them. Does nothing without MERGE INTO tracking.
    pub fn merge_into_try_generate_matched_memory(&mut self)
        ensures
            final(self).hash_join_state.build_state == old(self).hash_join_state.build_state,
            old(self).hash_join_state.merge_into_state is None ==> final(self).hash_join_state
                == old(self).hash_join_state,
            old(self).hash_join_state.merge_into_state matches Some(m) ==> {
                let rows = old(self).hash_join_state.build_state.generation_state.build_num_rows;
                &&& final(self).hash_join_state.merge_into_state matches Some(n)
                &&& n.matched@ == Seq::new(rows as nat, |o: int| 0u8)
                &&& n.published()
                &&& n.block_info_index == m.block_info_index
                &&& n.chunk_offsets == m.chunk_offsets
                &&& n.is_distributed_merge_into == m.is_distributed_merge_into
            },
    {
        let build_num_rows = self.hash_join_state.build_state.generation_state.build_num_rows;
        match &mut self.hash_join_state.merge_into_state {
            Some(merge_into_state) => {
                merge_into_state.matched = vec![0u8; build_num_rows];
                merge_into_state.atomic_pointer = MatchedPtr(Some(build_num_rows));
                assert(merge_into_state.matched@ =~= Seq::new(build_num_rows as nat, |o: int| 0u8));
            },
            None => {},
        }
    }
}

/// Taking in one more row of a batch adds its build row, if the row is valid,
/// to the build rows that the batch matched.
pub proof fn lemma_batch_hits_step(
    chunk_offsets: Seq<u32>,
    build_indexes: Seq<RowPtr>,
    valids: Seq<bool>,
    n: int,
    o: int,
)
    requires
        0 <= n,
    ensures
        batch_hits(chunk_offsets, build_indexes, valids, n + 1, o) <==> batch_hits(
            chunk_offsets,
            build_indexes,
            valids,
            n,
            o,
        ) || (valids[n] && row_offset(chunk_offsets, build_indexes[n]) == o),
{
    if batch_hits(chunk_offsets, build_indexes, valids, n + 1, o) {
        let i = choose|i: int|
            0 <= i < n + 1 && #[trigger] valids[i] && row_offset(chunk_offsets, build_indexes[i])
                == o;
        if i < n {
            assert(batch_hits(chunk_offsets, build_indexes, valids, n, o));
        }
    }
    if batch_hits(chunk_offsets, build_indexes, valids, n, o) {
        let i = choose|i: int|
            0 <= i < n && #[trigger] valids[i] && row_offset(chunk_offsets, build_indexes[i]) == o;
        assert(0 <= i < n + 1 && valids[i] && row_offset(chunk_offsets, build_indexes[i]) == o);
    }
    if valids[n] && row_offset(chunk_offsets, build_indexes[n]) == o {
        assert(0 <= n < n + 1 && valids[n] && row_offset(chunk_offsets, build_indexes[n]) == o);
    }
}

/// A build row that one batch matched cannot be matched again: a later batch
/// with a valid row for it meets a conflict at that row.
pub proof fn lemma_second_match_conflicts(
    matched: Seq<u8>,
    chunk_offsets: Seq<u32>,
    first_indexes: Seq<RowPtr>,
    first_valids: Seq<bool>,
    first_len: int,
    i: int,
    second_indexes: Seq<RowPtr>,
    second_valids: Seq<bool>,
    j: int,
)
    requires
        0 <= i < first_len,
        first_valids[i],
        0 <= row_offset(chunk_offsets, first_indexes[i]) < matched.len(),
        second_valids[j],
        row_offset(chunk_offsets, second_indexes[j]) == row_offset(chunk_offsets, first_indexes[i]),
    ensures
        conflict_at(
            tagged_by(matched, chunk_offsets, first_indexes, first_valids, first_len),
            chunk_offsets,
            second_indexes,
            second_valids,
            j,
        ),
{
    let o = row_offset(chunk_offsets, first_indexes[i]);
    assert(batch_hits(chunk_offsets, first_indexes, first_valids, first_len, o));
}

/// Two valid rows of one batch that match the same build row make a conflict
/// at the later one.
pub proof fn lemma_same_row_twice_conflicts(
    matched: Seq<u8>,
    chunk_offsets: Seq<u32>,
    build_indexes: Seq<RowPtr>,
    valids: Seq<bool>,
    i: int,
    j: int,
)
    requires
        0 <= i < j,
        valids[i],
        valids[j],
        row_offset(chunk_offsets, build_indexes[i]) == row_offset(chunk_offsets, build_indexes[j]),
    ensures
        conflict_at(matched, chunk_offsets, build_indexes, valids, j),
{
    let o = row_offset(chunk_offsets, build_indexes[j]);
    assert(batch_hits(chunk_offsets, build_indexes, valids, j, o));
}

/// The tasks of the final scan: the unmodified intervals sorted into chunks,
/// then one task with an empty list for each block matched as a whole.
pub open spec fn final_scan_tasks(
    blocks: Seq<(Interval, u64)>,
    hits: Seq<u8>,
    chunk_offsets: Seq<u32>,
) -> Seq<(Seq<(Interval, u64)>, u64)> {
    chunk_tasks(partial_unmodified(blocks, hits), chunk_offsets, chunk_offsets.len() as int)
        + matched_all_blocks(blocks, hits).map_values(
        |prefix: u64| (Seq::<(Interval, u64)>::empty(), prefix),
    )
}

impl HashJoinProbeState {
    /// Takes in the first `matched_idx` rows of a probe batch: row `i` is
    /// valid if `valids[i]`, and then matches build row `build_indexes[i]`.
    /// Marks those build rows as matched, in the order of the batch, and fails
    /// with `UnresolvableConflict` at the first row whose build row was
    /// matched before; the rows before it stay marked. Does nothing without
    /// MERGE INTO tracking.
    pub fn check_and_set_matched(
        &mut self,
        build_indexes: &[RowPtr],
        matched_idx: usize,
        valids: &Vec<bool>,
    ) -> (r: Result<(), ErrorCode>)
        requires
            old(self).hash_join_state.merge_into_state matches Some(m) ==> m.accepts(
                build_indexes@,
                matched_idx as int,
                valids@,
            ),
        ensures
            final(self).hash_join_state.build_state == old(self).hash_join_state.build_state,
            final(self).probe_workers == old(self).probe_workers,
            final(self).final_merge_into_partial_unmodified_scan_tasks == old(self).final_merge_into_partial_unmodified_scan_tasks,
            old(self).hash_join_state.merge_into_state is None ==> r is Ok
                && final(self).hash_join_state == old(self).hash_join_state,
            old(self).hash_join_state.merge_into_state matches Some(m) ==> {
                &&& final(self).hash_join_state.merge_into_state matches Some(n)
                &&& n.published()
                &&& n.chunk_offsets == m.chunk_offsets
                &&& n.block_info_index == m.block_info_index
                &&& n.is_distributed_merge_into == m.is_distributed_merge_into
                &&& r is Ok <==> forall|j: int|
                    0 <= j < matched_idx ==> !conflict_at(
                        m.matched@,
                        m.chunk_offsets@,
                        build_indexes@,
                        valids@,
                        j,
                    )
                &&& r is Ok ==> n.matched@ == tagged_by(
                    m.matched@,
                    m.chunk_offsets@,
                    build_indexes@,
                    valids@,
                    matched_idx as int,
                )
                &&& r matches Err(e) ==> e.kind() == ErrorKind::UnresolvableConflict
                    && e.spec_message() == CONFLICT_TEXT@ && exists|j: int|
                    {
                        &&& 0 <= j < matched_idx
                        &&& conflict_at(m.matched@, m.chunk_offsets@, build_indexes@, valids@, j)
                        &&& forall|i: int|
                            0 <= i < j ==> !conflict_at(
                                m.matched@,
                                m.chunk_offsets@,
                                build_indexes@,
                                valids@,
                                i,
                            )
                        &&& n.matched@ == tagged_by(
                            m.matched@,
                            m.chunk_offsets@,
                            build_indexes@,
                            valids@,
                            j,
                        )
                    }
            },
    {
        match &mut self.hash_join_state.merge_into_state {
            Some(merge_into_state) => merge_into_state.check_and_set_matched(
                build_indexes,
                matched_idx,
                valids,
            ),
            None => Ok(()),
        }
    }

    /// One of the probe workers that are still at work is done. The one that
    /// finishes last lays out the tasks of the final scan.
    pub fn probe_merge_into_partial_modified_done(&mut self) -> (r: Result<(), ErrorCode>)
        requires
            old(self).probe_workers >= 1,
            old(self).probe_workers == 1 ==> old(self).scan_can_be_planned(),
        ensures
            r is Ok,
            final(self).hash_join_state == old(self).hash_join_state,
            final(self).probe_workers == old(self).probe_workers - 1,
            old(self).probe_workers == 1 ==> final(self).planned_from(*old(self)),
            old(self).probe_workers != 1
                ==> final(self).final_merge_into_partial_unmodified_scan_tasks == old(self).final_merge_into_partial_unmodified_scan_tasks,
    {
        let old_count = self.probe_workers;
        self.probe_workers = old_count - 1;
        if old_count == 1 {
            self.generate_merge_into_final_scan_task()?;
        }
        Ok(())
    }

    /// The match bytes can be read block by block: tracking is on, and every
    /// indexed block lies inside them.
    pub open spec fn scan_can_be_planned(&self) -> bool {
        self.hash_join_state.merge_into_state matches Some(m) && m.block_info_index.wf()
            && m.block_info_index.within(m.matched@.len() as int)
    }

    /// The tasks of this state are those of the final scan for the match
    /// bytes of `before`.
    pub open spec fn planned_from(&self, before: Self) -> bool {
        before.hash_join_state.merge_into_state matches Some(m) && tasks_view(
            self.final_merge_into_partial_unmodified_scan_tasks@,
        ) == final_scan_tasks(m.block_info_index@, m.matched@, m.chunk_offsets@)
    }

    /// Lays out the tasks of the final scan from the match bytes, replacing
    /// the tasks that were there.
    pub fn generate_merge_into_final_scan_task(&mut self) -> (r: Result<(), ErrorCode>)
        requires
            old(self).scan_can_be_planned(),
        ensures
            r is Ok,
            final(self).hash_join_state == old(self).hash_join_state,
            final(self).probe_workers == old(self).probe_workers,
            final(self).planned_from(*old(self)),
    {
        let mut queued: VecDeque<MergeIntoChunkPartialUnmodified> = VecDeque::new();
        match &self.hash_join_state.merge_into_state {
            Some(merge_into_state) => {
                let block_info_index = &merge_into_state.block_info_index;
                let matched = &merge_into_state.matched;
                let chunks_offsets = &merge_into_state.chunk_offsets;
                let partial_unmodified = block_info_index.gather_all_partial_block_offsets(
                    matched.as_slice(),
                );
                let all_matched_blocks = block_info_index.gather_matched_all_blocks(
                    matched.as_slice(),
                );
                let mut tasks = block_info_index.chunk_offsets(&partial_unmodified, chunks_offsets);
                let ghost chunked = tasks_view(tasks@);
                let mut k: usize = 0;
                assert(all_matched_blocks@.take(0) =~= Seq::empty());
                assert(chunked + all_matched_blocks@.take(0).map_values(
                    |prefix: u64| (Seq::<(Interval, u64)>::empty(), prefix),
                ) =~= chunked);
                while k < all_matched_blocks.len()
                    invariant
                        0 <= k <= all_matched_blocks@.len(),
                        tasks_view(tasks@) == chunked + all_matched_blocks@.take(
                            k as int,
                        ).map_values(|prefix: u64| (Seq::<(Interval, u64)>::empty(), prefix)),
                    decreases all_matched_blocks@.len() - k,
                {
                    let ghost before = tasks@;
                    let ghost done = all_matched_blocks@.take(k as int);
                    let prefix = all_matched_blocks[k];
                    let unmodified: Vec<(Interval, u64)> = Vec::new();
                    tasks.push((unmodified, prefix));
                    k += 1;
                    proof {
                        let whole = |prefix: u64| (Seq::<(Interval, u64)>::empty(), prefix);
                        assert(all_matched_blocks@.take(k as int) =~= done.push(prefix));
                        assert(done.push(prefix).map_values(whole) =~= done.map_values(whole).push(
                            (Seq::<(Interval, u64)>::empty(), prefix),
                        ));
                        assert(tasks_view(tasks@) =~= tasks_view(before).push(
                            (Seq::<(Interval, u64)>::empty(), prefix),
                        ));
                        assert(tasks_view(tasks@) =~= chunked + all_matched_blocks@.take(
                            k as int,
                        ).map_values(whole));
                    }
                }
                assert(all_matched_blocks@.take(k as int) =~= all_matched_blocks@);
                let ghost all = tasks@;
                while tasks.len() > 0
                    invariant
                        tasks@ + queued@ =~= all,
                    decreases tasks@.len(),
                {
                    let task = tasks.pop().unwrap();
                    queued.push_front(task);
                }
                assert(queued@ =~= all);
            },
            None => {},
        }
        self.final_merge_into_partial_unmodified_scan_tasks = queued;
        Ok(())
    }

    /// Hands out the next task of the final scan, if one is left.
    pub fn final_merge_into_partial_unmodified_scan_task(&mut self) -> (task: Option<
        MergeIntoChunkPartialUnmodified,
    >)
        ensures
            final(self).hash_join_state == old(self).hash_join_state,
            final(self).probe_workers == old(self).probe_workers,
            old(self).final_merge_into_partial_unmodified_scan_tasks@.len() == 0 ==> task is None
                && final(self).final_merge_into_partial_unmodified_scan_tasks@ == old(self).final_merge_into_partial_unmodified_scan_tasks@,
            old(self).final_merge_into_partial_unmodified_scan_tasks@.len() > 0 ==> task == Some(
                old(self).final_merge_into_partial_unmodified_scan_tasks@[0],
            ) && final(self).final_merge_into_partial_unmodified_scan_tasks@ == old(self).final_merge_into_partial_unmodified_scan_tasks@.subrange(
                1,
                old(self).final_merge_into_partial_unmodified_scan_tasks@.len() as int,
            ),
    {
        self.final_merge_into_partial_unmodified_scan_tasks.pop_front()
    }
}

/// The table block that `prefix` names.
pub open spec fn block_meta_of(prefix: u64) -> BlockMetaIndex {
    BlockMetaIndex {
        segment_idx: (prefix >> 11u64) as usize,
        block_idx: (prefix & 0x7ffu64) as usize,
    }
}

/// The row numbers `first..=last`.
pub open spec fn row_range(first: int, last: int) -> Seq<u32> {
    Seq::new((last - first + 1) as nat, |i: int| (first + i) as u32)
}

/// `block`, said to come from `meta`.
pub open spec fn with_meta(block: DataBlockView, meta: BlockMetaIndex) -> DataBlockView {
    DataBlockView { columns: block.columns, num_rows: block.num_rows, meta: Some(meta) }
}

/// The rows `start..=last` of `chunk` cut into blocks of at most `size` rows,
/// each said to come from `meta`.
pub open spec fn scan_windows(
    chunk: DataBlockView,
    start: int,
    last: int,
    size: int,
    meta: BlockMetaIndex,
) -> Seq<DataBlockView>
    decreases last - start + 1,
{
    if start > last || size <= 0 {
        Seq::empty()
    } else {
        let end = if last - start >= size {
            start + size - 1
        } else {
            last
        };
        seq![with_meta(chunk.take(row_range(start, end)), meta)] + scan_windows(
            chunk,
            end + 1,
            last,
            size,
            meta,
        )
    }
}

/// What the scan of `items` gives: interval by interval, the rows of the
/// interval, counted from the first row of the chunk, in blocks of at most
/// `size` rows that are said to come from the interval's block.
pub open spec fn scan_intervals(
    chunk: DataBlockView,
    first_row: int,
    items: Seq<(Interval, u64)>,
    size: int,
) -> Seq<DataBlockView>
    decreases items.len(),
{
    if items.len() == 0 {
        Seq::empty()
    } else {
        scan_intervals(chunk, first_row, items.drop_last(), size) + scan_windows(
            chunk,
            items.last().0.0 - first_row,
            items.last().0.1 - first_row,
            size,
            block_meta_of(items.last().1),
        )
    }
}

/// What a queue of blocks holds.
pub open spec fn blocks_view(blocks: Seq<DataBlock>) -> Seq<DataBlockView> {
    blocks.map_values(|b: DataBlock| b@)
}

impl HashJoinProbeState {
    /// The task `item` names a chunk of the build side and intervals inside
    /// it, and blocks of `size` rows can be cut.
    pub open spec fn can_scan(&self, item: MergeIntoChunkPartialUnmodified, size: usize) -> bool {
        let chunks = self.hash_join_state.build_state.generation_state.chunks@;
        &&& self.hash_join_state.merge_into_state matches Some(m)
        &&& size > 0
        &&& item.1 < chunks.len()
        &&& item.1 > 0 ==> item.1 - 1 < m.chunk_offsets@.len()
        &&& chunks[item.1 as int].wf()
        &&& forall|k: int|
            0 <= k < item.0@.len() ==> {
                &&& chunk_start(m.chunk_offsets@, item.1 as int) <= (#[trigger] item.0@[k]).0.0
                &&& item.0@[k].0.0 <= item.0@[k].0.1
                &&& item.0@[k].0.1 - chunk_start(m.chunk_offsets@, item.1 as int)
                    < chunks[item.1 as int].num_rows
            }
    }
}

impl HashJoinProbeState {
    /// Whether the task `item` can be scanned in blocks of `size` rows.
    pub fn check_can_scan(&self, item: &MergeIntoChunkPartialUnmodified, size: usize) -> (b: bool)
        ensures
            b == self.can_scan(*item, size),
    {
        let chunks = &self.hash_join_state.build_state.generation_state.chunks;
        let chunk_count: usize = chunks.len();
        match &self.hash_join_state.merge_into_state {
            None => false,
            Some(merge_into_state) => {
                let offsets: usize = merge_into_state.chunk_offsets.len();
                if size == 0 || item.1 >= chunk_count as u64 {
                    return false;
                }
                let chunk_index: usize = item.1 as usize;
                if chunk_index > 0 && chunk_index - 1 >= offsets {
                    return false;
                }
                let chunk = &chunks[chunk_index];
                if !chunk.check_wf() {
                    return false;
                }
                let first_row: u32 = if chunk_index == 0 {
                    0
                } else {
                    merge_into_state.chunk_offsets[chunk_index - 1]
                };
                let mut k: usize = 0;
                while k < item.0.len()
                    invariant
                        0 <= k <= item.0@.len(),
                        self.hash_join_state.merge_into_state == Some(*merge_into_state),
                        item.1 < self.hash_join_state.build_state.generation_state.chunks@.len(),
                        *chunk
                            == self.hash_join_state.build_state.generation_state.chunks@[item.1 as int],
                        first_row == chunk_start(merge_into_state.chunk_offsets@, item.1 as int),
                        forall|i: int|
                            0 <= i < k ==> {
                                &&& first_row <= (#[trigger] item.0@[i]).0.0
                                &&& item.0@[i].0.0 <= item.0@[i].0.1
                                &&& item.0@[i].0.1 - first_row < chunk.num_rows
                            },
                    decreases item.0@.len() - k,
                {
                    let interval = item.0[k].0;
                    assert(item.0@[k as int].0 == interval);
                    if interval.0 < first_row || interval.0 > interval.1 || ((interval.1
                        - first_row) as u64) >= (chunk.num_rows as u64) {
                        return false;
                    }
                    k += 1;
                }
                true
            },
        }
    }
}

impl TransformHashJoinProbe {
    /// Carries out one task of the final scan and queues what it gives. For a
    /// block matched as a whole that is one block without rows, which names the
    /// table block to delete. For unmodified intervals it is their rows, read
    /// from the chunk in blocks of at most `max_block_size` rows, each naming
    /// the table block that its rows belong to.
    pub fn final_merge_into_partial_unmodified_scan(
        &mut self,
        join_probe_state: &HashJoinProbeState,
        item: MergeIntoChunkPartialUnmodified,
    ) -> (r: Result<(), ErrorCode>)
        requires
            item.0@.len() > 0 ==> join_probe_state.can_scan(item, old(self).max_block_size),
        ensures
            r is Ok,
            final(self).max_block_size == old(self).max_block_size,
            item.0@.len() == 0 ==> blocks_view(final(self).output_data_blocks@) == blocks_view(
                old(self).output_data_blocks@,
            ).push(
                DataBlockView {
                    columns: Seq::empty(),
                    num_rows: 0,
                    meta: Some(block_meta_of(item.1)),
                },
            ),
            item.0@.len() > 0 ==> blocks_view(final(self).output_data_blocks@) == blocks_view(
                old(self).output_data_blocks@,
            ) + scan_intervals(
                join_probe_state.hash_join_state.build_state.generation_state.chunks@[item.1 as int]@,
                chunk_start(
                    join_probe_state.hash_join_state.merge_into_state->0.chunk_offsets@,
                    item.1 as int,
                ),
                item.0@,
                old(self).max_block_size as int,
            ),
    {
        let ghost queued = blocks_view(self.output_data_blocks@);
        if item.0.len() == 0 {
            let prefix = item.1;
            let (segment_idx, block_idx) = split_prefix(prefix);
            proof {
                crate::catalog::lemma_split_prefix_bounds(prefix);
            }
            let data_block = DataBlock::empty_with_meta(
                BlockMetaIndex {
                    segment_idx: #[verifier::truncate] (segment_idx as usize),
                    block_idx: #[verifier::truncate] (block_idx as usize),
                },
            );
            self.output_data_blocks.push_back(data_block);
            assert(blocks_view(self.output_data_blocks@) =~= queued.push(data_block@));
            return Ok(());
        }
        match &join_probe_state.hash_join_state.merge_into_state {
            None => Ok(()),
            Some(merge_into_state) => {
                let chunks_offsets = &merge_into_state.chunk_offsets;
                let chunks = &join_probe_state.hash_join_state.build_state.generation_state.chunks;
                let chunk_count: usize = chunks.len();
                let offset_count: usize = chunks_offsets.len();
                assert(item.1 < chunk_count);
                let chunk_index: usize = item.1 as usize;
                let chunk_block = &chunks[chunk_index];
                let first_row: u32 = if chunk_index == 0 {
                    0
                } else {
                    chunks_offsets[chunk_index - 1]
                };
                let size: usize = self.max_block_size;
                let mut j: usize = 0;
                assert(item.0@.take(0) =~= Seq::empty());
                assert(queued + Seq::<DataBlockView>::empty() =~= queued);
                while j < item.0.len()
                    invariant
                        0 <= j <= item.0@.len(),
                        size > 0,
                        size == self.max_block_size,
                        chunk_block.wf(),
                        first_row == chunk_start(chunks_offsets@, item.1 as int),
                        forall|k: int|
                            0 <= k < item.0@.len() ==> {
                                &&& first_row <= (#[trigger] item.0@[k]).0.0
                                &&& item.0@[k].0.0 <= item.0@[k].0.1
                                &&& item.0@[k].0.1 - first_row < chunk_block.num_rows
                            },
                        blocks_view(self.output_data_blocks@) == queued + scan_intervals(
                            chunk_block@,
                            first_row as int,
                            item.0@.take(j as int),
                            size as int,
                        ),
                    decreases item.0@.len() - j,
                {
                    let (interval, prefix) = item.0[j];
                    let (segment_idx, block_idx) = split_prefix(prefix);
                    let meta = BlockMetaIndex {
                        segment_idx: #[verifier::truncate] (segment_idx as usize),
                        block_idx: #[verifier::truncate] (block_idx as usize),
                    };
                    assert(meta == block_meta_of(prefix));
                    let first: u32 = interval.0 - first_row;
                    let last: u32 = interval.1 - first_row;
                    let ghost base = blocks_view(self.output_data_blocks@);
                    let mut start: u64 = first as u64;
                    assert(base + scan_windows(
                        chunk_block@,
                        first as int,
                        last as int,
                        size as int,
                        meta,
                    ) =~= base + scan_windows(
                        chunk_block@,
                        start as int,
                        last as int,
                        size as int,
                        meta,
                    ));
                    while start <= last as u64
                        invariant
                            first <= start <= last + 1,
                            size > 0,
                            size == self.max_block_size,
                            chunk_block.wf(),
                            last < chunk_block.num_rows,
                            base + scan_windows(
                                chunk_block@,
                                first as int,
                                last as int,
                                size as int,
                                meta,
                            ) == blocks_view(self.output_data_blocks@) + scan_windows(
                                chunk_block@,
                                start as int,
                                last as int,
                                size as int,
                                meta,
                            ),
                        decreases last + 1 - start,
                    {
                        let end: u64 = if last as u64 - start >= size as u64 {
                            start + size as u64 - 1
                        } else {
                            last as u64
                        };
                        let mut range: Vec<u32> = Vec::new();
                        let mut row: u64 = start;
                        while row <= end
                            invariant
                                start <= row <= end + 1,
                                end <= last,
                                range@.len() == row - start,
                                forall|i: int|
                                    0 <= i < range@.len() ==> (#[trigger] range@[i]) == start + i,
                            decreases end + 1 - row,
                        {
                            range.push(row as u32);
                            row += 1;
                        }
                        assert(range@ =~= row_range(start as int, end as int));
                        let data_block = chunk_block.take(&range)?;
                        let data_block = data_block.add_meta(Some(meta))?;
                        let ghost before = blocks_view(self.output_data_blocks@);
                        let ghost window = with_meta(
                            chunk_block@.take(row_range(start as int, end as int)),
                            meta,
                        );
                        assert(data_block@.columns =~= window.columns);
                        assert(data_block@ == window);
                        self.output_data_blocks.push_back(data_block);
                        proof {
                            assert(blocks_view(self.output_data_blocks@) =~= before.push(window));
                            let rest = scan_windows(
                                chunk_block@,
                                end + 1,
                                last as int,
                                size as int,
                                meta,
                            );
                            assert(before + (seq![window] + rest) =~= before.push(window) + rest);
                        }
                        start = end + 1;
                    }
                    proof {
                        let upto = item.0@.take(j as int + 1);
                        assert(upto.drop_last() =~= item.0@.take(j as int));
                        assert(upto.last() == item.0@[j as int]);
                        let earlier = scan_intervals(
                            chunk_block@,
                            first_row as int,
                            item.0@.take(j as int),
                            size as int,
                        );
                        let here = scan_windows(
                            chunk_block@,
                            first as int,
                            last as int,
                            size as int,
                            meta,
                        );
                        assert(blocks_view(self.output_data_blocks@) + Seq::<
                            DataBlockView,
                        >::empty() =~= blocks_view(self.output_data_blocks@));
                        assert((queued + earlier) + here =~= queued + (earlier + here));
                    }
                    j += 1;
                }
                assert(item.0@.take(j as int) =~= item.0@);
                Ok(())
            },
        }
    }
}

} // verus!

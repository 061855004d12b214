use std::collections::VecDeque;

use fusequery::catalog::compute_row_id_prefix;
use fusequery::catalog::split_prefix;
use fusequery::exception::ErrorKind;
use fusequery::expression::BlockEntry;
use fusequery::expression::BlockMetaIndex;
use fusequery::expression::DataBlock;
use fusequery::expression::DataType;
use fusequery::expression::NumberDataType;
use fusequery::expression::Scalar;
use fusequery::hash_join::merge_into_hash_join_optimization::MatchedPtr;
use fusequery::hash_join::merge_into_hash_join_optimization::MergeIntoState;
use fusequery::hash_join::merge_into_hash_join_optimization::DUMMY_TABLE_INDEX;
use fusequery::hash_join::state::BuildGenerationState;
use fusequery::hash_join::state::BuildState;
use fusequery::hash_join::state::HashJoinBuildState;
use fusequery::hash_join::state::HashJoinProbeState;
use fusequery::hash_join::state::HashJoinState;
use fusequery::hash_join::state::TransformHashJoinProbe;
use fusequery::hashtable::BlockInfoIndex;
use fusequery::hashtable::RowPtr;

fn numbers(values: &[i64]) -> BlockEntry {
    BlockEntry::new(
        DataType::Number(NumberDataType::Int64),
        values.iter().map(|v| Scalar::Number(*v)).collect(),
    )
}

fn block(values: &[i64], segment_idx: usize, block_idx: usize) -> DataBlock {
    let mut b = DataBlock::new(vec![numbers(values)], values.len());
    b.meta = Some(BlockMetaIndex { segment_idx, block_idx });
    b
}

fn tracked_state() -> HashJoinState {
    HashJoinState {
        merge_into_state: MergeIntoState::try_create_merge_into_state(0, false),
        build_state: BuildState {
            generation_state: BuildGenerationState { build_num_rows: 0, chunks: Vec::new() },
        },
    }
}

/// Two chunks: rows 0..4 (blocks of 3 and 2 rows), rows 5..8 (one block of 4 rows).
fn built() -> HashJoinBuildState {
    let mut build = HashJoinBuildState { hash_join_state: tracked_state() };
    let b0 = block(&[10, 11, 12], 0, 0);
    let b1 = block(&[13, 14], 0, 1);
    build.merge_into_try_build_block_info_index(&b0, 0);
    build.merge_into_try_build_block_info_index(&b1, 3);
    let chunk0 = DataBlock::new(vec![numbers(&[10, 11, 12, 13, 14])], 5);
    build.hash_join_state.build_state.generation_state.chunks.push(chunk0);
    build.hash_join_state.build_state.generation_state.build_num_rows = 5;
    build.merge_into_try_add_chunk_offset();
    let b2 = block(&[15, 16, 17, 18], 1, 0);
    build.merge_into_try_build_block_info_index(&b2, 0);
    let chunk1 = DataBlock::new(vec![numbers(&[15, 16, 17, 18])], 4);
    build.hash_join_state.build_state.generation_state.chunks.push(chunk1);
    build.hash_join_state.build_state.generation_state.build_num_rows = 9;
    build.merge_into_try_add_chunk_offset();
    build.merge_into_try_generate_matched_memory();
    build
}

fn probing(workers: usize) -> HashJoinProbeState {
    HashJoinProbeState {
        hash_join_state: built().hash_join_state,
        probe_workers: workers,
        final_merge_into_partial_unmodified_scan_tasks: VecDeque::new(),
    }
}

fn ptr(chunk_index: u32, row_index: u32) -> RowPtr {
    RowPtr { chunk_index, row_index }
}

#[test]
fn prefix_round_trip() {
    assert_eq!(compute_row_id_prefix(3, 5), (3 << 11) | 5);
    assert_eq!(split_prefix(compute_row_id_prefix(3, 5)), (3, 5));
    assert_eq!(split_prefix(compute_row_id_prefix(0x3f_ffff, 0x7ff)), (0x3f_ffff, 0x7ff));
    assert_eq!(split_prefix(0), (0, 0));
}

#[test]
fn prefix_keeps_the_low_bits_only() {
    // a block number takes 11 bits, a segment number 22
    assert_eq!(compute_row_id_prefix(0, 0x800), 0);
    assert_eq!(compute_row_id_prefix(0x40_0000, 1), 1);
}

#[test]
fn no_state_without_target_table() {
    assert!(MergeIntoState::try_create_merge_into_state(DUMMY_TABLE_INDEX, false).is_none());
    let state = MergeIntoState::try_create_merge_into_state(7, true).unwrap();
    assert!(state.is_distributed_merge_into);
    assert!(state.matched.is_empty());
    assert!(state.chunk_offsets.is_empty());
    assert!(state.atomic_pointer.0.is_none());
    assert!(state.block_info_index.intervals.is_empty());
}

#[test]
fn need_scan_only_with_state() {
    let with = tracked_state();
    assert!(with.need_merge_into_target_partial_modified_scan());
    let without = HashJoinState {
        merge_into_state: None,
        build_state: BuildState {
            generation_state: BuildGenerationState { build_num_rows: 0, chunks: Vec::new() },
        },
    };
    assert!(!without.need_merge_into_target_partial_modified_scan());
}

#[test]
fn build_records_blocks_offsets_and_bytes() {
    let build = built();
    let state = build.hash_join_state.merge_into_state.as_ref().unwrap();
    assert_eq!(state.block_info_index.intervals, vec![(0, 2), (3, 4), (5, 8)]);
    assert_eq!(
        state.block_info_index.prefixs,
        vec![
            compute_row_id_prefix(0, 0),
            compute_row_id_prefix(0, 1),
            compute_row_id_prefix(1, 0)
        ]
    );
    assert_eq!(state.block_info_index.length, 3);
    assert_eq!(state.chunk_offsets, vec![5, 9]);
    assert_eq!(state.matched, vec![0u8; 9]);
    assert_eq!(state.atomic_pointer.0, Some(9));
}

#[test]
fn build_without_tracking_changes_nothing() {
    let mut build = HashJoinBuildState {
        hash_join_state: HashJoinState {
            merge_into_state: None,
            build_state: BuildState {
                generation_state: BuildGenerationState { build_num_rows: 4, chunks: Vec::new() },
            },
        },
    };
    build.merge_into_try_build_block_info_index(&block(&[1], 0, 0), 0);
    build.merge_into_try_add_chunk_offset();
    build.merge_into_try_generate_matched_memory();
    assert!(build.hash_join_state.merge_into_state.is_none());
    assert_eq!(build.hash_join_state.build_state.generation_state.build_num_rows, 4);
}

#[test]
fn matched_rows_are_tagged_once() {
    let mut probe = probing(1);
    // rows (chunk 0, row 1) -> offset 1 and (chunk 1, row 2) -> offset 5 + 2
    let rows = vec![ptr(0, 1), ptr(1, 2), ptr(0, 4)];
    let valids = vec![true, true, false];
    assert!(probe.check_and_set_matched(&rows, 3, &valids).is_ok());
    let state = probe.hash_join_state.merge_into_state.as_ref().unwrap();
    assert_eq!(state.matched, vec![0, 1, 0, 0, 0, 0, 0, 1, 0]);
}

#[test]
fn only_the_first_matched_idx_rows_count() {
    let mut probe = probing(1);
    let rows = vec![ptr(0, 0), ptr(0, 0)];
    let valids = vec![true, true];
    assert!(probe.check_and_set_matched(&rows, 1, &valids).is_ok());
    let state = probe.hash_join_state.merge_into_state.as_ref().unwrap();
    assert_eq!(state.matched, vec![1, 0, 0, 0, 0, 0, 0, 0, 0]);
}

#[test]
fn two_rows_on_one_target_row_conflict() {
    // target (id=1), (id=2); source (id=1), (id=1): both source rows match build row 0
    let mut probe = probing(1);
    let rows = vec![ptr(0, 0), ptr(0, 0)];
    let valids = vec![true, true];
    let err = probe.check_and_set_matched(&rows, 2, &valids).unwrap_err();
    assert_eq!(err.kind(), ErrorKind::UnresolvableConflict);
    assert_eq!(
        err.message(),
        "multi rows from source match one and the same row in the target_table multi times in probe phase"
    );
    // the first row stays tagged
    let state = probe.hash_join_state.merge_into_state.as_ref().unwrap();
    assert_eq!(state.matched[0], 1);
}

#[test]
fn a_later_batch_on_a_tagged_row_conflicts() {
    let mut probe = probing(2);
    assert!(probe.check_and_set_matched(&[ptr(1, 3)], 1, &vec![true]).is_ok());
    let err = probe.check_and_set_matched(&[ptr(0, 2), ptr(1, 3)], 2, &vec![true, true]);
    assert_eq!(err.unwrap_err().kind(), ErrorKind::UnresolvableConflict);
    let state = probe.hash_join_state.merge_into_state.as_ref().unwrap();
    // row 2 was tagged before the conflict was met at row 8
    assert_eq!(state.matched, vec![0, 0, 1, 0, 0, 0, 0, 0, 1]);
}

#[test]
fn invalid_rows_never_conflict() {
    let mut probe = probing(1);
    let rows = vec![ptr(0, 0), ptr(0, 0)];
    assert!(probe.check_and_set_matched(&rows, 2, &vec![true, false]).is_ok());
    assert!(probe.check_and_set_matched(&rows, 2, &vec![false, false]).is_ok());
}

#[test]
fn tagging_without_tracking_is_a_no_op() {
    let mut probe = HashJoinProbeState {
        hash_join_state: HashJoinState {
            merge_into_state: None,
            build_state: BuildState {
                generation_state: BuildGenerationState { build_num_rows: 0, chunks: Vec::new() },
            },
        },
        probe_workers: 1,
        final_merge_into_partial_unmodified_scan_tasks: VecDeque::new(),
    };
    assert!(probe.check_and_set_matched(&[ptr(0, 0), ptr(0, 0)], 2, &vec![true, true]).is_ok());
}

fn index_of_three_blocks() -> BlockInfoIndex {
    let mut index = BlockInfoIndex::new_with_capacity(4);
    index.insert_block_offsets((0, 2), 100);
    index.insert_block_offsets((3, 4), 101);
    index.insert_block_offsets((5, 8), 102);
    index
}

#[test]
fn blocks_with_every_row_matched() {
    let index = index_of_three_blocks();
    assert_eq!(index.gather_matched_all_blocks(&[1, 1, 1, 0, 1, 1, 1, 1, 1]), vec![100, 102]);
    assert_eq!(index.gather_matched_all_blocks(&[0; 9]), Vec::<u64>::new());
    assert_eq!(index.gather_matched_all_blocks(&[1; 9]), vec![100, 101, 102]);
}

#[test]
fn unmodified_runs_of_partly_matched_blocks() {
    let index = index_of_three_blocks();
    // block 0: row 1 matched; block 1: untouched; block 2: rows 5 and 7 matched
    let hits = [0, 1, 0, 0, 0, 1, 0, 1, 0];
    assert_eq!(
        index.gather_all_partial_block_offsets(&hits),
        vec![((0, 0), 100), ((2, 2), 100), ((6, 6), 102), ((8, 8), 102)]
    );
    // an untouched block and a block matched as a whole give nothing
    assert_eq!(index.gather_all_partial_block_offsets(&[0, 0, 0, 1, 1, 0, 0, 0, 0]), vec![]);
    // a run that reaches the end of its block stops there
    assert_eq!(
        index.gather_all_partial_block_offsets(&[1, 0, 0, 0, 0, 0, 0, 0, 0]),
        vec![((1, 2), 100)]
    );
}

#[test]
fn classification_names_every_matched_row() {
    // every row of an indexed block is matched exactly if its block is reported whole, or
    // partly matched with the row outside the unmodified intervals
    let index = index_of_three_blocks();
    let hits = [1u8, 1, 1, 0, 1, 0, 0, 0, 0];
    let whole = index.gather_matched_all_blocks(&hits);
    let partial = index.gather_all_partial_block_offsets(&hits);
    assert_eq!(whole, vec![100]);
    assert_eq!(partial, vec![((3, 3), 101)]);
    for (i, interval) in index.intervals.iter().enumerate() {
        let prefix = index.prefixs[i];
        let rows = interval.0..=interval.1;
        let some_matched = rows.clone().any(|o| hits[o as usize] != 0);
        for o in rows {
            let in_unmodified = partial.iter().any(|(iv, _)| iv.0 <= o && o <= iv.1);
            let reported = whole.contains(&prefix)
                || (some_matched && !whole.contains(&prefix) && !in_unmodified);
            assert_eq!(hits[o as usize] != 0, reported);
        }
    }
}

#[test]
fn round_trip_without_partial_blocks() {
    let index = index_of_three_blocks();
    let hits = [1u8, 1, 1, 0, 0, 1, 1, 1, 1];
    assert!(index.gather_all_partial_block_offsets(&hits).is_empty());
    let whole = index.gather_matched_all_blocks(&hits);
    for o in 0..9u32 {
        let in_whole = index
            .intervals
            .iter()
            .zip(index.prefixs.iter())
            .any(|(iv, p)| whole.contains(p) && iv.0 <= o && o <= iv.1);
        assert_eq!(in_whole, hits[o as usize] != 0);
    }
}

#[test]
fn intervals_are_sorted_into_chunks() {
    let index = index_of_three_blocks();
    let partial = vec![((0, 0), 100), ((2, 2), 100), ((6, 6), 102), ((8, 8), 102)];
    let tasks = index.chunk_offsets(&partial, &vec![5, 9]);
    assert_eq!(
        tasks,
        vec![
            (vec![((0, 0), 100), ((2, 2), 100)], 0),
            (vec![((6, 6), 102), ((8, 8), 102)], 1)
        ]
    );
    // a chunk without a piece gets no task
    assert_eq!(index.chunk_offsets(&vec![((6, 7), 102)], &vec![5, 9]), vec![(vec![((6, 7), 102)], 1)]);
    assert!(index.chunk_offsets(&vec![], &vec![5, 9]).is_empty());
    assert!(index.chunk_offsets(&vec![], &vec![]).is_empty());
}

#[test]
fn an_interval_is_cut_at_a_chunk_boundary() {
    let index = BlockInfoIndex::new_with_capacity(0);
    let tasks = index.chunk_offsets(&vec![((3, 6), 7)], &vec![5, 9]);
    assert_eq!(tasks, vec![(vec![((3, 4), 7)], 0), (vec![((5, 6), 7)], 1)]);
}

#[test]
fn last_worker_lays_out_the_tasks() {
    let mut probe = probing(2);
    let rows = vec![ptr(0, 0), ptr(0, 1), ptr(0, 2), ptr(1, 0)];
    assert!(probe.check_and_set_matched(&rows, 4, &vec![true; 4]).is_ok());
    assert!(probe.probe_merge_into_partial_modified_done().is_ok());
    assert_eq!(probe.probe_workers, 1);
    assert!(probe.final_merge_into_partial_unmodified_scan_tasks.is_empty());
    assert!(probe.probe_merge_into_partial_modified_done().is_ok());
    assert_eq!(probe.probe_workers, 0);
    // block (0,2) matched as a whole, block (5,8) partly: rows 6..8 unmodified
    let tasks: Vec<_> = probe.final_merge_into_partial_unmodified_scan_tasks.iter().cloned().collect();
    assert_eq!(
        tasks,
        vec![
            (vec![((6, 8), compute_row_id_prefix(1, 0))], 1),
            (vec![], compute_row_id_prefix(0, 0))
        ]
    );
}

#[test]
fn tasks_are_handed_out_from_the_front() {
    let mut probe = probing(1);
    assert!(probe.check_and_set_matched(&[ptr(0, 3), ptr(0, 4), ptr(1, 1)], 3, &vec![true; 3]).is_ok());
    assert!(probe.generate_merge_into_final_scan_task().is_ok());
    assert_eq!(
        probe.final_merge_into_partial_unmodified_scan_task(),
        Some((vec![((5, 5), compute_row_id_prefix(1, 0)), ((7, 8), compute_row_id_prefix(1, 0))], 1))
    );
    assert_eq!(
        probe.final_merge_into_partial_unmodified_scan_task(),
        Some((vec![], compute_row_id_prefix(0, 1)))
    );
    assert_eq!(probe.final_merge_into_partial_unmodified_scan_task(), None);
    assert_eq!(probe.final_merge_into_partial_unmodified_scan_task(), None);
}

#[test]
fn whole_block_task_gives_an_empty_block_with_meta() {
    let probe = probing(1);
    let mut transform = TransformHashJoinProbe { max_block_size: 2, output_data_blocks: VecDeque::new() };
    let task = (vec![], compute_row_id_prefix(4, 9));
    assert!(transform.final_merge_into_partial_unmodified_scan(&probe, task).is_ok());
    assert_eq!(transform.output_data_blocks.len(), 1);
    let out = &transform.output_data_blocks[0];
    assert_eq!(out.num_rows(), 0);
    assert_eq!(out.num_columns(), 0);
    assert_eq!(out.get_meta(), Some(BlockMetaIndex { segment_idx: 4, block_idx: 9 }));
}

#[test]
fn partial_task_scans_in_blocks_of_max_block_size() {
    let probe = probing(1);
    let mut transform = TransformHashJoinProbe { max_block_size: 2, output_data_blocks: VecDeque::new() };
    // rows 6..8 of the build side are rows 1..3 of chunk 1
    let task = (vec![((6, 8), compute_row_id_prefix(1, 0))], 1);
    assert!(transform.final_merge_into_partial_unmodified_scan(&probe, task).is_ok());
    assert_eq!(transform.output_data_blocks.len(), 2);
    let first = &transform.output_data_blocks[0];
    assert_eq!(first.num_rows(), 2);
    assert_eq!(first.columns[0].value, vec![Scalar::Number(16), Scalar::Number(17)]);
    assert_eq!(first.get_meta(), Some(BlockMetaIndex { segment_idx: 1, block_idx: 0 }));
    let second = &transform.output_data_blocks[1];
    assert_eq!(second.num_rows(), 1);
    assert_eq!(second.columns[0].value, vec![Scalar::Number(18)]);
    assert_eq!(second.get_meta(), Some(BlockMetaIndex { segment_idx: 1, block_idx: 0 }));
}

#[test]
fn partial_task_in_the_first_chunk_counts_from_zero() {
    let probe = probing(1);
    let mut transform = TransformHashJoinProbe { max_block_size: 10, output_data_blocks: VecDeque::new() };
    let task = (vec![((0, 0), compute_row_id_prefix(0, 0)), ((3, 4), compute_row_id_prefix(0, 1))], 0);
    assert!(transform.final_merge_into_partial_unmodified_scan(&probe, task).is_ok());
    assert_eq!(transform.output_data_blocks.len(), 2);
    assert_eq!(transform.output_data_blocks[0].columns[0].value, vec![Scalar::Number(10)]);
    assert_eq!(
        transform.output_data_blocks[1].columns[0].value,
        vec![Scalar::Number(13), Scalar::Number(14)]
    );
    assert_eq!(
        transform.output_data_blocks[1].get_meta(),
        Some(BlockMetaIndex { segment_idx: 0, block_idx: 1 })
    );
}

#[test]
fn matched_ptr_holds_the_row_count() {
    let p = MatchedPtr(Some(3));
    assert_eq!(p.0, Some(3));
}

#[test]
fn take_gathers_rows_in_order() {
    let b = block(&[5, 6, 7, 8], 2, 3);
    let taken = b.take(&vec![3, 0, 0]).unwrap();
    assert_eq!(taken.num_rows(), 3);
    assert_eq!(
        taken.columns[0].value,
        vec![Scalar::Number(8), Scalar::Number(5), Scalar::Number(5)]
    );
    assert_eq!(taken.get_meta(), Some(BlockMetaIndex { segment_idx: 2, block_idx: 3 }));
}

#[test]
fn pop_columns_drops_from_the_end() {
    let b = DataBlock::new(vec![numbers(&[1]), numbers(&[2]), numbers(&[3])], 1);
    let popped = b.pop_columns(2).unwrap();
    assert_eq!(popped.num_columns(), 1);
    assert_eq!(popped.columns[0].value, vec![Scalar::Number(1)]);
    let none = popped.pop_columns(5).unwrap();
    assert_eq!(none.num_columns(), 0);
    assert_eq!(none.num_rows(), 1);
}

use std::collections::HashMap;
use std::collections::VecDeque;

use fusequery::executor::AggregateExpand;
use fusequery::executor::DataSourcePlan;
use fusequery::executor::DeleteFinal;
use fusequery::executor::DeletePartial;
use fusequery::executor::EvalScalar;
use fusequery::executor::ExchangeSink;
use fusequery::executor::Filter;
use fusequery::executor::HashJoin;
use fusequery::executor::Limit;
use fusequery::executor::PhysicalPlan;
use fusequery::executor::RowFetch;
use fusequery::executor::RuntimeFilterSource;
use fusequery::executor::TableField;
use fusequery::executor::TableScan;
use fusequery::expression::BlockEntry;
use fusequery::expression::DataBlock;
use fusequery::expression::DataField;
use fusequery::expression::DataSchema;
use fusequery::expression::DataType;
use fusequery::expression::Expr;
use fusequery::expression::FunctionContext;
use fusequery::expression::NumberDataType;
use fusequery::expression::Scalar;
use fusequery::hash_join::merge_into_hash_join_optimization::MatchedPtr;
use fusequery::hash_join::merge_into_hash_join_optimization::MergeIntoState;
use fusequery::hash_join::state::BuildGenerationState;
use fusequery::hash_join::state::BuildState;
use fusequery::hash_join::state::HashJoinProbeState;
use fusequery::hash_join::state::HashJoinState;
use fusequery::hashtable::BlockInfoIndex;
use fusequery::hashtable::RowPtr;
use fusequery::optimizer::optimizer::check_starts_bound;
use fusequery::optimizer::plans::BindContext;
use fusequery::optimizer::plans::ExplainKind;
use fusequery::optimizer::plans::MergeInto;
use fusequery::optimizer::plans::Plan;
use fusequery::optimizer::s_expr::check_bound;
use fusequery::optimizer::s_expr::Metadata;
use fusequery::optimizer::s_expr::RelOperator;
use fusequery::optimizer::s_expr::SExpr;
use fusequery::optimizer::s_expr::TableEntry;
use fusequery::pipelines::pipeline::JoinType;
use fusequery::pipelines::plan_check::check_columns_in_range;
use fusequery::pipelines::plan_check::check_gives_rows;
use fusequery::pipelines::plan_check::check_sets_within_keys;
use fusequery::pipelines::plan_check::check_well_formed;
use fusequery::storages::update_by_expr_mutator::UpdateByExprMutator;

fn schema(names: &[usize]) -> DataSchema {
    DataSchema::new(
        names
            .iter()
            .map(|n| DataField { name: *n, data_type: DataType::Number(NumberDataType::Int32), nullable: false })
            .collect(),
    )
}

fn scan(plan_id: u32) -> PhysicalPlan {
    PhysicalPlan::TableScan(TableScan {
        plan_id,
        output_schema: schema(&[0, 1]),
        name_mapping: vec![("a".to_string(), 0)],
        source: DataSourcePlan {
            schema: vec![TableField { name: "a".to_string() }],
            streams: 1,
            engine: "FUSE".to_string(),
            support_row_id_column: true,
        },
        internal_column: None,
    })
}

fn filter(input: PhysicalPlan) -> PhysicalPlan {
    PhysicalPlan::Filter(Filter {
        plan_id: 2,
        output_schema: schema(&[0, 1]),
        input: Box::new(input),
        predicates: vec![],
    })
}

fn delete_final() -> PhysicalPlan {
    PhysicalPlan::DeleteFinal(DeleteFinal {
        plan_id: 3,
        output_schema: schema(&[]),
        input: Box::new(PhysicalPlan::DeletePartial(DeletePartial {
            plan_id: 4,
            output_schema: schema(&[]),
            streams: 1,
        })),
    })
}

fn runtime_filter_source(left: PhysicalPlan) -> PhysicalPlan {
    PhysicalPlan::RuntimeFilterSource(RuntimeFilterSource {
        plan_id: 8,
        output_schema: schema(&[0, 1]),
        left_side: Box::new(left),
        right_side: Box::new(scan(9)),
    })
}

fn join(contain_runtime_filter: bool, build: PhysicalPlan, probe: PhysicalPlan) -> PhysicalPlan {
    PhysicalPlan::HashJoin(HashJoin {
        plan_id: 5,
        output_schema: schema(&[0, 1]),
        build: Box::new(build),
        probe: Box::new(probe),
        join_type: JoinType::Inner,
        non_equi_conditions: vec![],
        contain_runtime_filter,
    })
}

#[test]
fn plans_that_write_give_no_rows() {
    assert!(check_gives_rows(&scan(1)));
    assert!(check_gives_rows(&filter(scan(1))));
    assert!(!check_gives_rows(&delete_final()));
    // what continues a plan that writes gives no rows either
    assert!(!check_gives_rows(&filter(delete_final())));
    assert!(!check_gives_rows(&join(false, scan(1), delete_final())));
    assert!(check_gives_rows(&join(false, delete_final(), scan(1))));
    let sink = |input| {
        PhysicalPlan::ExchangeSink(ExchangeSink { plan_id: 6, output_schema: schema(&[]), input: Box::new(input) })
    };
    assert!(check_gives_rows(&sink(scan(1))));
    assert!(!check_gives_rows(&sink(delete_final())));
}

#[test]
fn the_build_side_of_a_join_must_give_rows() {
    assert!(check_well_formed(&filter(scan(1)), false));
    assert!(check_well_formed(&delete_final(), false));
    // a node over a plan that writes can be built
    assert!(check_well_formed(&filter(delete_final()), false));
    assert!(check_well_formed(&join(false, scan(1), delete_final()), false));
    // the build side of a join cannot be one
    assert!(!check_well_formed(&join(false, delete_final(), scan(1)), false));
    assert!(!check_well_formed(&join(false, filter(delete_final()), scan(1)), false));
    assert!(!check_well_formed(&filter(join(false, delete_final(), scan(1))), false));
}

#[test]
fn a_runtime_filter_source_needs_its_join() {
    assert!(!check_well_formed(&runtime_filter_source(scan(1)), false));
    assert!(check_well_formed(&runtime_filter_source(scan(1)), true));
    assert!(check_well_formed(&join(true, scan(1), runtime_filter_source(scan(2))), false));
    assert!(!check_well_formed(&join(false, scan(1), runtime_filter_source(scan(2))), false));
    // the build side is built by a builder of its own
    assert!(!check_well_formed(&join(true, runtime_filter_source(scan(1)), scan(2)), true));
}

#[test]
fn a_row_fetch_reads_from_a_limit() {
    let limit = PhysicalPlan::Limit(Limit {
        plan_id: 3,
        output_schema: schema(&[0, 1]),
        input: Box::new(scan(1)),
        limit: None,
        offset: 0,
    });
    let fetch = |input| {
        PhysicalPlan::RowFetch(RowFetch { plan_id: 4, output_schema: schema(&[0, 1]), input: Box::new(input) })
    };
    assert!(check_well_formed(&fetch(limit), false));
    assert!(!check_well_formed(&fetch(scan(1)), false));
}

#[test]
fn columns_named_by_themselves_must_be_there() {
    let column = |id| (Expr::ColumnRef { id, data_type: DataType::Boolean }, 7usize);
    let other = (Expr::Other { handle: 1, data_type: DataType::Boolean }, 8usize);
    assert!(check_columns_in_range(&vec![column(0), column(1), other.clone()], 2));
    assert!(!check_columns_in_range(&vec![column(0), column(2)], 2));
    assert!(check_columns_in_range(&vec![], 0));
    let eval = |exprs| {
        PhysicalPlan::EvalScalar(EvalScalar {
            plan_id: 2,
            output_schema: schema(&[0, 1]),
            input: Box::new(scan(1)),
            exprs,
        })
    };
    assert!(check_well_formed(&eval(vec![column(1)]), false));
    assert!(!check_well_formed(&eval(vec![column(2)]), false));
}

fn expand(group_bys: Vec<usize>, grouping_sets: Vec<Vec<usize>>) -> AggregateExpand {
    AggregateExpand {
        plan_id: 2,
        output_schema: schema(&[0, 1, 99]),
        input: Box::new(scan(1)),
        group_bys,
        grouping_sets,
    }
}

#[test]
fn grouping_sets_hold_keys_only() {
    assert!(check_sets_within_keys(&expand(vec![0, 1, 99], vec![vec![0, 1], vec![]])));
    // column 1 is in the input but is no key
    assert!(!check_sets_within_keys(&expand(vec![0, 99], vec![vec![0], vec![1]])));
    // a member that the input lacks fails the build, it does not make the plan malformed
    assert!(check_sets_within_keys(&expand(vec![0, 99], vec![vec![42]])));
    // so does a key that the input lacks
    assert!(check_sets_within_keys(&expand(vec![42, 99], vec![vec![1]])));
    assert!(check_well_formed(&PhysicalPlan::AggregateExpand(expand(vec![0, 99], vec![vec![0]])), false));
    assert!(!check_well_formed(&PhysicalPlan::AggregateExpand(expand(vec![], vec![])), false));
    assert!(!check_well_formed(&PhysicalPlan::AggregateExpand(expand(vec![0, 99], vec![vec![1]])), false));
}

fn leaf(table_index: usize) -> SExpr {
    SExpr::create_leaf(RelOperator::Scan { table_index, handle: 0 })
}

fn metadata(tables: usize) -> Metadata {
    Metadata { tables: vec![TableEntry { is_local: false }; tables] }
}

#[test]
fn scans_must_name_known_tables() {
    let e = SExpr::create_binary(
        RelOperator::Join { join_type: JoinType::Inner, handle: 0 },
        leaf(0),
        SExpr::create_unary(RelOperator::Filter { handle: 0 }, leaf(2)),
    );
    assert!(check_bound(&e, &metadata(3)));
    assert!(!check_bound(&e, &metadata(2)));
    assert!(check_bound(&SExpr::create_leaf(RelOperator::DummyTableScan), &metadata(0)));
}

#[test]
fn statements_start_from_bound_expressions() {
    let query = |table| Plan::Query {
        s_expr: Box::new(leaf(table)),
        metadata: metadata(1),
        bind_context: BindContext { handle: 0 },
        rewrite_kind: None,
        formatted_ast: None,
        ignore_result: false,
    };
    assert!(check_starts_bound(&query(0)));
    assert!(!check_starts_bound(&query(1)));
    assert!(!check_starts_bound(&Plan::ExplainAnalyze { plan: Box::new(query(1)) }));
    // the text of a statement is shown as it is, and the memo run does not look at tables
    assert!(check_starts_bound(&Plan::Explain { kind: ExplainKind::Raw, plan: Box::new(query(1)) }));
    assert!(check_starts_bound(&Plan::Explain {
        kind: ExplainKind::Memo(String::new()),
        plan: Box::new(query(1))
    }));
    assert!(check_starts_bound(&Plan::Other { statement: "x".to_string() }));
    let merge = |source| {
        Plan::MergeInto(Box::new(MergeInto {
            input: Box::new(SExpr::create_binary(
                RelOperator::Join { join_type: JoinType::Inner, handle: 0 },
                leaf(9),
                leaf(source),
            )),
            meta_data: metadata(1),
            distributed: false,
            change_join_order: false,
            target_table_index: 0,
        }))
    };
    // only the source is optimized as a query
    assert!(check_starts_bound(&merge(0)));
    assert!(!check_starts_bound(&merge(1)));
}

fn state_of(rows: usize, chunk_offsets: Vec<u32>, published: bool) -> MergeIntoState {
    let mut state = MergeIntoState::try_create_merge_into_state(0, false).unwrap();
    state.matched = vec![0; rows];
    state.chunk_offsets = chunk_offsets;
    state.atomic_pointer = MatchedPtr(if published { Some(rows) } else { None });
    state
}

#[test]
fn a_batch_must_name_rows_with_match_bytes() {
    let ptr = |chunk_index, row_index| RowPtr { chunk_index, row_index };
    let state = state_of(9, vec![5, 9], true);
    assert!(state.check_accepts(&[ptr(0, 4), ptr(1, 3), ptr(2, 0)], 2, &vec![true, true, true]));
    // row 4 of chunk 1 is build row 9
    assert!(!state.check_accepts(&[ptr(1, 4)], 1, &vec![true]));
    assert!(state.check_accepts(&[ptr(1, 4)], 1, &vec![false]));
    assert!(state.check_accepts(&[ptr(1, 4)], 0, &vec![true]));
    // chunk 3 has no offset before it
    assert!(!state.check_accepts(&[ptr(3, 0)], 1, &vec![true]));
    assert!(!state.check_accepts(&[ptr(0, 0)], 2, &vec![true, true]));
    assert!(!state.check_accepts(&[ptr(0, 0)], 1, &vec![]));
    assert!(!state_of(9, vec![5, 9], false).check_accepts(&[ptr(0, 0)], 1, &vec![true]));
}

#[test]
fn an_index_must_lie_inside_the_match_bytes() {
    let mut index = BlockInfoIndex::new_with_capacity(2);
    index.insert_block_offsets((0, 2), 1);
    index.insert_block_offsets((3, 4), 2);
    assert!(index.check_within(5));
    assert!(!index.check_within(4));
    index.insert_block_offsets((6, 5), 3);
    assert!(!index.check_within(10));
    index.intervals.pop();
    assert!(!index.check_within(10));
}

#[test]
fn a_task_must_lie_inside_its_chunk() {
    let ints = |n: usize| BlockEntry::new(DataType::Number(NumberDataType::Int64), vec![Scalar::Number(0); n]);
    let probe = HashJoinProbeState {
        hash_join_state: HashJoinState {
            merge_into_state: Some(state_of(9, vec![5, 9], true)),
            build_state: BuildState {
                generation_state: BuildGenerationState {
                    build_num_rows: 9,
                    chunks: vec![DataBlock::new(vec![ints(5)], 5), DataBlock::new(vec![ints(4)], 4)],
                },
            },
        },
        probe_workers: 0,
        final_merge_into_partial_unmodified_scan_tasks: VecDeque::new(),
    };
    assert!(probe.check_can_scan(&(vec![((5, 8), 1)], 1), 2));
    assert!(probe.check_can_scan(&(vec![((0, 0), 1), ((2, 4), 1)], 0), 1));
    assert!(!probe.check_can_scan(&(vec![((5, 8), 1)], 1), 0));
    assert!(!probe.check_can_scan(&(vec![((4, 8), 1)], 1), 2));
    assert!(!probe.check_can_scan(&(vec![((5, 9), 1)], 1), 2));
    assert!(!probe.check_can_scan(&(vec![((3, 5), 1)], 0), 2));
    assert!(!probe.check_can_scan(&(vec![((7, 6), 1)], 1), 2));
    assert!(!probe.check_can_scan(&(vec![((5, 8), 1)], 2), 2));
}

#[test]
fn a_block_must_fit_what_was_evaluated() {
    let ints = |v: &[i64]| {
        BlockEntry::new(DataType::Number(NumberDataType::Int64), v.iter().map(|x| Scalar::Number(*x)).collect())
    };
    let bools = |v: &[bool]| BlockEntry::new(DataType::Boolean, v.iter().map(|x| Scalar::Boolean(*x)).collect());
    let mut positions = HashMap::new();
    positions.insert(7usize, 0usize);
    let clause = |fields: &[usize]| {
        UpdateByExprMutator::create(
            None,
            FunctionContext { rounding_mode: false },
            positions.clone(),
            fields.iter().map(|f| (*f, Expr::Other { handle: 0, data_type: DataType::Boolean })).collect(),
            1,
        )
    };
    let fresh = || DataBlock::new(vec![ints(&[1, 2])], 2);
    let filtered = || DataBlock::new(vec![ints(&[1, 2]), bools(&[true, false])], 2);
    let c = clause(&[7]);
    assert!(c.check_fits(&fresh(), false, &Ok(vec![true, false]), &Ok(vec![ints(&[5, 6])])));
    assert!(c.check_fits(&filtered(), true, &Ok(vec![true, false]), &Ok(vec![ints(&[5, 6])])));
    // the last column of a fresh block is no filter
    assert!(!c.check_fits(&fresh(), true, &Ok(vec![true, false]), &Ok(vec![ints(&[5, 6])])));
    assert!(!c.check_fits(&fresh(), false, &Ok(vec![true]), &Ok(vec![ints(&[5, 6])])));
    assert!(!c.check_fits(&fresh(), false, &Ok(vec![true, false]), &Ok(vec![ints(&[5])])));
    assert!(!c.check_fits(&fresh(), false, &Ok(vec![true, false]), &Ok(vec![])));
    assert!(!clause(&[8]).check_fits(&fresh(), false, &Ok(vec![true, false]), &Ok(vec![ints(&[5, 6])])));
    let mut ragged = fresh();
    ragged.num_rows = 3;
    assert!(!ragged.check_wf());
    assert!(!c.check_fits(&ragged, false, &Ok(vec![true, false, true]), &Ok(vec![ints(&[5, 6, 7])])));
    assert!(DataBlock::new(vec![], 0).pop_columns(1).unwrap().check_wf());
}

use fusequery::exception::ErrorKind;
use fusequery::executor::AggregateExpand;
use fusequery::executor::AggregateFinal;
use fusequery::executor::AggregateFunctionDesc;
use fusequery::executor::AggregatePartial;
use fusequery::executor::ColumnBinding;
use fusequery::executor::DataSourcePlan;
use fusequery::executor::DeleteFinal;
use fusequery::executor::DeletePartial;
use fusequery::executor::DistributedCopyIntoTable;
use fusequery::executor::DistributedInsertSelect;
use fusequery::executor::EvalScalar;
use fusequery::executor::Exchange;
use fusequery::executor::ExchangeSink;
use fusequery::executor::ColumnPair;
use fusequery::executor::ExchangeSource;
use fusequery::executor::Filter;
use fusequery::executor::HashJoin;
use fusequery::executor::Limit;
use fusequery::executor::PhysicalPlan;
use fusequery::executor::Project;
use fusequery::executor::ProjectSet;
use fusequery::executor::RangeJoin;
use fusequery::executor::RowFetch;
use fusequery::executor::RuntimeFilterSource;
use fusequery::executor::Sort;
use fusequery::executor::SortDesc;
use fusequery::executor::TableField;
use fusequery::executor::TableScan;
use fusequery::executor::UnionAll;
use fusequery::executor::Window;
use fusequery::executor::WindowFuncFrameBound;
use fusequery::executor::WindowFuncFrameUnits;
use fusequery::expression::DataField;
use fusequery::expression::DataSchema;
use fusequery::expression::DataType;
use fusequery::expression::Expr;
use fusequery::expression::FunctionContext;
use fusequery::expression::NumberDataType;
use fusequery::expression::Scalar;
use fusequery::pipelines::operators::build_grouping;
use fusequery::pipelines::operators::build_window_params;
use fusequery::pipelines::operators::choose_hash_method;
use fusequery::pipelines::operators::reduce_and_filters;
use fusequery::pipelines::pipeline::ExchangeInjector;
use fusequery::pipelines::pipeline::HashMethodKind;
use fusequery::pipelines::pipeline::JoinType;
use fusequery::pipelines::pipeline::OperatorParams;
use fusequery::pipelines::pipeline::Pipeline;
use fusequery::pipelines::pipeline::Processor;
use fusequery::pipelines::pipeline::ProcessorPtr;
use fusequery::pipelines::pipeline::ProfileWrapper;
use fusequery::pipelines::pipeline::SharedProcessorProfiles;
use fusequery::pipelines::pipeline::SortColumnDescription;
use fusequery::pipelines::pipeline::WindowFrame;
use fusequery::pipelines::pipeline_builder::PipelineBuildResult;
use fusequery::pipelines::pipeline_builder::PipelineBuilder;
use fusequery::pipelines::pipeline_builder::get_fragment_source;
use fusequery::pipelines::pipeline_builder::spill_location_prefix;
use fusequery::sessions::QueryContext;
use fusequery::sessions::Settings;

const SINK: SharedProcessorProfiles = SharedProcessorProfiles { handle: 5 };

/// What wraps a processor that is counted for plan `plan_id`.
fn wrapped(plan_id: u32) -> Option<ProfileWrapper> {
    Some(ProfileWrapper { plan_id, prof_span_set: SINK })
}

fn settings(max_threads: usize) -> Settings {
    Settings {
        max_threads,
        max_block_size: 65536,
        enable_dphyp: true,
        disable_join_reorder: false,
        runtime_filter: false,
        enable_distributed_copy: false,
        enable_distributed_merge_into: false,
        efficiently_memory_group_by: false,
        spilling_bytes_threshold_per_proc: 0,
    }
}

fn ctx_with(settings: Settings, cluster_is_empty: bool) -> QueryContext {
    QueryContext {
        settings,
        cluster_is_empty,
        tenant: "t1".to_string(),
        function_context: FunctionContext { rounding_mode: false },
    }
}

fn ctx(max_threads: usize) -> QueryContext {
    ctx_with(settings(max_threads), true)
}

fn int32(name: usize) -> DataField {
    DataField { name, data_type: DataType::Number(NumberDataType::Int32), nullable: false }
}

fn schema(names: &[usize]) -> DataSchema {
    DataSchema::new(names.iter().map(|n| int32(*n)).collect())
}

/// A scan of table columns `a`, `b`, read in `streams` streams, bound to the identifiers 0 and 1.
fn scan(plan_id: u32, streams: usize) -> PhysicalPlan {
    PhysicalPlan::TableScan(TableScan {
        plan_id,
        output_schema: schema(&[0, 1]),
        name_mapping: vec![("a".to_string(), 0), ("b".to_string(), 1)],
        source: DataSourcePlan {
            schema: vec![TableField { name: "a".to_string() }, TableField { name: "b".to_string() }],
            streams,
            engine: "FUSE".to_string(),
            support_row_id_column: true,
        },
        internal_column: None,
    })
}

fn build(ctx: QueryContext, profiling: bool, plan: &PhysicalPlan) -> Result<PipelineBuildResult, ErrorKind> {
    PipelineBuilder::create(ctx, profiling, SINK).finalize(plan).map_err(|e| e.kind())
}

fn kinds(p: &Pipeline) -> Vec<(Processor, usize)> {
    p.pipes.iter().map(|pipe| (pipe.items[0].processor.processor, pipe.items.len())).collect()
}

fn shape_holds(result: &PipelineBuildResult) {
    for side in &result.sources_pipelines {
        assert!(side.is_complete_pipeline().unwrap());
    }
    assert!(result.main_pipeline.is_pulling_pipeline().unwrap());
    for p in result.sources_pipelines.iter().chain(std::iter::once(&result.main_pipeline)) {
        assert_eq!(p.pipes[0].input_length, 0);
        for w in p.pipes.windows(2) {
            assert_eq!(w[0].output_length, w[1].input_length);
        }
        for pipe in &p.pipes {
            assert_eq!(pipe.input_length, pipe.items.iter().map(|i| i.inputs_port).sum::<usize>());
            assert_eq!(pipe.output_length, pipe.items.iter().map(|i| i.outputs_port).sum::<usize>());
        }
    }
}

#[test]
fn a_fresh_builder_holds_nothing() {
    let b = PipelineBuilder::create(ctx(4), true, SINK);
    assert!(b.main_pipeline.is_empty());
    assert!(b.pipelines.is_empty());
    assert_eq!(b.join_state, None);
    assert_eq!(b.index, None);
    assert!(b.enable_profiling);
    assert_eq!(b.exchange_injector, ExchangeInjector::Default);
}

#[test]
fn scan_in_table_order_needs_no_projection() {
    let r = build(ctx(4), false, &scan(1, 3)).unwrap();
    assert_eq!(kinds(&r.main_pipeline), vec![(Processor::TableSource { plan_id: 1 }, 3)]);
    assert!(r.sources_pipelines.is_empty());
    assert_eq!(r.exchange_injector, ExchangeInjector::Default);
    shape_holds(&r);
}

#[test]
fn scan_out_of_table_order_projects() {
    let mut plan = scan(1, 2);
    if let PhysicalPlan::TableScan(s) = &mut plan {
        s.name_mapping = vec![("b".to_string(), 1)];
    }
    let r = build(ctx(4), false, &plan).unwrap();
    assert_eq!(
        kinds(&r.main_pipeline),
        vec![(Processor::TableSource { plan_id: 1 }, 2), (Processor::Project, 2)]
    );
    match &r.main_pipeline.operators[0] {
        OperatorParams::Project { projection, num_input_columns } => {
            assert_eq!(projection, &vec![1]);
            assert_eq!(*num_input_columns, 2);
        }
        _ => panic!("not a projection"),
    }
    shape_holds(&r);
}

#[test]
fn scan_fills_internal_columns_where_the_engine_can() {
    let mut plan = scan(1, 2);
    if let PhysicalPlan::TableScan(s) = &mut plan {
        s.internal_column = Some(vec![2]);
    }
    let r = build(ctx(4), false, &plan).unwrap();
    assert_eq!(
        kinds(&r.main_pipeline),
        vec![
            (Processor::TableSource { plan_id: 1 }, 2),
            (Processor::FillInternalColumn { plan_id: 1 }, 2)
        ]
    );
}

#[test]
fn row_id_on_an_engine_without_it_is_refused() {
    let mut plan = scan(1, 2);
    if let PhysicalPlan::TableScan(s) = &mut plan {
        s.internal_column = Some(vec![2]);
        s.source.support_row_id_column = false;
        s.source.engine = "MEMORY".to_string();
    }
    let e = PipelineBuilder::create(ctx(4), false, SINK).finalize(&plan).unwrap_err();
    assert_eq!(e.kind(), ErrorKind::TableEngineNotSupported);
    assert_eq!(e.message(), "Table engine `MEMORY` does not support virtual column _row_id");
}

#[test]
fn scan_of_a_missing_column_fails() {
    let mut plan = scan(1, 2);
    if let PhysicalPlan::TableScan(s) = &mut plan {
        s.name_mapping = vec![("a".to_string(), 0), ("zz".to_string(), 1)];
    }
    let e = PipelineBuilder::create(ctx(4), false, SINK).finalize(&plan).unwrap_err();
    assert_eq!(e.kind(), ErrorKind::BadArguments);
    assert_eq!(e.message(), "Unable to get field by its name");
}

#[test]
fn scan_without_streams_fails() {
    let e = PipelineBuilder::create(ctx(4), false, SINK).finalize(&scan(1, 0)).unwrap_err();
    assert_eq!(e.kind(), ErrorKind::Internal);
    assert_eq!(e.message(), "Source output port numbers cannot be zero.");
}

#[test]
fn a_node_over_a_plan_that_writes_is_built_without_rows() {
    let delete = PhysicalPlan::DeleteFinal(DeleteFinal {
        plan_id: 3,
        output_schema: schema(&[]),
        input: Box::new(PhysicalPlan::DeletePartial(DeletePartial {
            plan_id: 4,
            output_schema: schema(&[]),
            streams: 2,
        })),
    });
    let plan = PhysicalPlan::Project(Project {
        plan_id: 5,
        output_schema: schema(&[]),
        input: Box::new(delete),
        projections: vec![],
    });
    let r = PipelineBuilder::create(ctx(4), false, SINK).finalize(&plan).unwrap();
    assert!(!r.main_pipeline.is_pulling_pipeline().unwrap());
    assert_eq!(r.main_pipeline.output_len(), 0);
    assert_eq!(r.main_pipeline.pipes.last().unwrap().items.len(), 0);
    // a limit needs a stream to narrow
    let limited = PhysicalPlan::Limit(Limit {
        plan_id: 6,
        output_schema: schema(&[]),
        input: Box::new(plan),
        limit: Some(1),
        offset: 0,
    });
    let e = PipelineBuilder::create(ctx(4), false, SINK).finalize(&limited).unwrap_err();
    assert_eq!(e.kind(), ErrorKind::Internal);
    assert_eq!(e.message(), "Cannot resize empty pipe.");
}

#[test]
fn a_bare_exchange_leaves_the_builder_as_it_was() {
    let mut b = PipelineBuilder::create(ctx(4), false, SINK);
    b.build_pipeline(&join(JoinType::Inner, false, scan(2, 1), scan(1, 2))).unwrap();
    let main = kinds(&b.main_pipeline);
    let side = kinds(&b.pipelines[0]);
    let bare = PhysicalPlan::Exchange(Exchange {
        plan_id: 9,
        output_schema: schema(&[0, 1]),
        input: Box::new(scan(3, 2)),
    });
    let e = b.build_pipeline(&bare).unwrap_err();
    assert_eq!(e.kind(), ErrorKind::Internal);
    assert_eq!(e.message(), "Invalid physical plan with PhysicalPlan::Exchange");
    assert_eq!(kinds(&b.main_pipeline), main);
    assert_eq!(b.pipelines.len(), 1);
    assert_eq!(kinds(&b.pipelines[0]), side);
    assert_eq!(b.exchange_injector, ExchangeInjector::Default);
}

#[test]
fn a_failed_final_aggregation_puts_the_injector_back() {
    // the fragment arrives in no stream, so building the input fails while
    // the injector of the aggregation is in place
    let source = PhysicalPlan::ExchangeSource(ExchangeSource {
        plan_id: 1,
        output_schema: schema(&[0, 1]),
        query_id: "q".to_string(),
        source_fragment_id: 7,
        streams: 0,
    });
    let aggregate = AggregateFinal {
        plan_id: 3,
        output_schema: schema(&[0]),
        input: Box::new(source),
        group_by: vec![0],
        agg_funcs: vec![],
        before_group_by_schema: schema(&[0, 1]),
        limit: None,
    };
    let mut b = PipelineBuilder::create(ctx(4), false, SINK);
    let before = ExchangeInjector::Aggregate { method: HashMethodKind::KeysU8, with_states: true };
    b.exchange_injector = before;
    let e = b.build_pipeline(&PhysicalPlan::AggregateFinal(aggregate)).unwrap_err();
    assert_eq!(e.kind(), ErrorKind::Internal);
    assert_eq!(e.message(), "Source output port numbers cannot be zero.");
    assert_eq!(b.exchange_injector, before);
}

fn pred(handle: u64) -> Expr {
    Expr::Other { handle, data_type: DataType::Boolean }
}

#[test]
fn a_filter_without_predicates_adds_nothing_to_its_input() {
    let plan = PhysicalPlan::Filter(Filter {
        plan_id: 2,
        output_schema: schema(&[0, 1]),
        input: Box::new(scan(1, 2)),
        predicates: vec![],
    });
    let mut b = PipelineBuilder::create(ctx(4), false, SINK);
    let e = b.build_pipeline(&plan).unwrap_err();
    assert_eq!(e.kind(), ErrorKind::Internal);
    assert_eq!(e.message(), "Invalid empty predicate list");
    // the input is built, and no filter stands behind it
    assert_eq!(kinds(&b.main_pipeline), vec![(Processor::TableSource { plan_id: 1 }, 2)]);
    assert!(b.main_pipeline.operators.is_empty());
    assert!(b.pipelines.is_empty());
}

#[test]
fn filter_joins_its_predicates_from_the_left() {
    let plan = PhysicalPlan::Filter(Filter {
        plan_id: 2,
        output_schema: schema(&[0, 1]),
        input: Box::new(scan(1, 2)),
        predicates: vec![pred(1), pred(2), pred(3)],
    });
    let r = build(ctx(4), true, &plan).unwrap();
    assert_eq!(
        kinds(&r.main_pipeline),
        vec![(Processor::TableSource { plan_id: 1 }, 2), (Processor::Filter, 2)]
    );
    // profiling counts the filter for its plan
    assert_eq!(r.main_pipeline.pipes[1].items[0].processor.profile, wrapped(2));
    assert_eq!(r.main_pipeline.pipes[0].items[0].processor.profile, None);
    match &r.main_pipeline.operators[0] {
        OperatorParams::Filter { expr, num_input_columns } => {
            assert_eq!(
                expr,
                &Expr::AndFilters(
                    Box::new(Expr::AndFilters(Box::new(pred(1)), Box::new(pred(2)))),
                    Box::new(pred(3))
                )
            );
            assert_eq!(*num_input_columns, 2);
        }
        _ => panic!("not a filter"),
    }
    shape_holds(&r);
}

#[test]
fn filter_without_predicates_fails() {
    let plan = PhysicalPlan::Filter(Filter {
        plan_id: 2,
        output_schema: schema(&[0, 1]),
        input: Box::new(scan(1, 2)),
        predicates: vec![],
    });
    let e = PipelineBuilder::create(ctx(4), false, SINK).finalize(&plan).unwrap_err();
    assert_eq!(e.kind(), ErrorKind::Internal);
    assert_eq!(e.message(), "Invalid empty predicate list");
    assert_eq!(reduce_and_filters(&vec![]).unwrap_err().kind(), ErrorKind::Internal);
    assert_eq!(reduce_and_filters(&vec![pred(4)]).unwrap(), pred(4));
}

#[test]
fn a_bare_exchange_is_refused_wherever_it_stands() {
    let exchange = |input: PhysicalPlan| {
        PhysicalPlan::Exchange(Exchange { plan_id: 9, output_schema: schema(&[0, 1]), input: Box::new(input) })
    };
    let e = PipelineBuilder::create(ctx(4), false, SINK).finalize(&exchange(scan(1, 2))).unwrap_err();
    assert_eq!(e.kind(), ErrorKind::Internal);
    assert_eq!(e.message(), "Invalid physical plan with PhysicalPlan::Exchange");
    let below_limit = PhysicalPlan::Limit(Limit {
        plan_id: 3,
        output_schema: schema(&[0, 1]),
        input: Box::new(exchange(scan(1, 2))),
        limit: Some(1),
        offset: 0,
    });
    assert_eq!(build(ctx(4), false, &below_limit).unwrap_err(), ErrorKind::Internal);
    let on_build_side = PhysicalPlan::HashJoin(HashJoin {
        plan_id: 5,
        output_schema: schema(&[0, 1]),
        build: Box::new(exchange(scan(1, 2))),
        probe: Box::new(scan(2, 2)),
        join_type: JoinType::Inner,
        non_equi_conditions: vec![],
        contain_runtime_filter: false,
    });
    assert_eq!(build(ctx(4), false, &on_build_side).unwrap_err(), ErrorKind::Internal);
}

#[test]
fn project_and_project_set_and_row_fetch() {
    let project = PhysicalPlan::Project(Project {
        plan_id: 2,
        output_schema: schema(&[1]),
        input: Box::new(scan(1, 2)),
        projections: vec![1],
    });
    let r = build(ctx(4), true, &project).unwrap();
    assert_eq!(kinds(&r.main_pipeline)[1], (Processor::Project, 2));
    // a projection is counted for its plan, and not at all without profiling
    assert_eq!(r.main_pipeline.pipes[1].items[0].processor.profile, wrapped(2));
    let plain = PhysicalPlan::Project(Project {
        plan_id: 2,
        output_schema: schema(&[1]),
        input: Box::new(scan(1, 2)),
        projections: vec![1],
    });
    let r = build(ctx(4), false, &plain).unwrap();
    assert_eq!(r.main_pipeline.pipes[1].items[0].processor.profile, None);

    let project_set = PhysicalPlan::ProjectSet(ProjectSet {
        plan_id: 3,
        output_schema: schema(&[0, 1, 2]),
        input: Box::new(scan(1, 2)),
        srf_exprs: vec![(pred(7), 2)],
    });
    let r = build(ctx(4), false, &project_set).unwrap();
    assert_eq!(kinds(&r.main_pipeline)[1], (Processor::FlatMap, 2));
    match &r.main_pipeline.operators[0] {
        OperatorParams::FlatMap { srf_exprs, .. } => assert_eq!(srf_exprs, &vec![pred(7)]),
        _ => panic!("not a flat map"),
    }

    let limit = PhysicalPlan::Limit(Limit {
        plan_id: 4,
        output_schema: schema(&[0, 1]),
        input: Box::new(scan(1, 3)),
        limit: Some(10),
        offset: 2,
    });
    let row_fetch = PhysicalPlan::RowFetch(RowFetch {
        plan_id: 5,
        output_schema: schema(&[0, 1]),
        input: Box::new(limit),
    });
    let r = build(ctx(4), false, &row_fetch).unwrap();
    assert_eq!(
        kinds(&r.main_pipeline),
        vec![
            (Processor::TableSource { plan_id: 1 }, 3),
            (Processor::Resize, 1),
            (Processor::Limit { limit: Some(10), offset: 2 }, 1),
            (Processor::RowFetcher { plan_id: 5 }, 1)
        ]
    );
    shape_holds(&r);
}

#[test]
fn eval_scalar_skips_columns_named_again() {
    let column = Expr::ColumnRef { id: 1, data_type: DataType::Number(NumberDataType::Int32) };
    let only_plain = PhysicalPlan::EvalScalar(EvalScalar {
        plan_id: 2,
        output_schema: schema(&[0, 1]),
        input: Box::new(scan(1, 2)),
        exprs: vec![(column.clone(), 1)],
    });
    let r = build(ctx(4), false, &only_plain).unwrap();
    assert_eq!(kinds(&r.main_pipeline), vec![(Processor::TableSource { plan_id: 1 }, 2)]);

    let mixed = PhysicalPlan::EvalScalar(EvalScalar {
        plan_id: 2,
        output_schema: schema(&[0, 1, 5, 6]),
        input: Box::new(scan(1, 2)),
        // column 1 under the name 5 is a new column; column 1 under its own name is not
        exprs: vec![(column.clone(), 5), (column.clone(), 1), (pred(3), 6)],
    });
    let r = build(ctx(4), false, &mixed).unwrap();
    assert_eq!(kinds(&r.main_pipeline)[1], (Processor::BlockMap, 2));
    match &r.main_pipeline.operators[0] {
        OperatorParams::BlockMap { exprs, num_input_columns } => {
            assert_eq!(exprs, &vec![column, pred(3)]);
            assert_eq!(*num_input_columns, 2);
        }
        _ => panic!("not a map"),
    }
}

fn partial(settings: Settings, cluster_is_empty: bool, group_by: Vec<usize>, funcs: usize, streams: usize)
    -> (QueryContext, PhysicalPlan) {
    let plan = PhysicalPlan::AggregatePartial(AggregatePartial {
        plan_id: 2,
        output_schema: schema(&[0, 9]),
        input: Box::new(scan(1, streams)),
        group_by,
        agg_funcs: (0..funcs).map(|f| AggregateFunctionDesc { function: f as u64, args: vec![1] }).collect(),
    });
    (ctx_with(settings, cluster_is_empty), plan)
}

#[test]
fn aggregate_with_spill_on_a_single_node() {
    // SELECT k, SUM(v) FROM t GROUP BY k
    let mut s = settings(4);
    s.spilling_bytes_threshold_per_proc = 1;
    let (c, partial_plan) = partial(s, true, vec![0], 1, 4);
    let plan = PhysicalPlan::AggregateFinal(AggregateFinal {
        plan_id: 3,
        output_schema: schema(&[0, 9]),
        input: Box::new(partial_plan),
        group_by: vec![0],
        agg_funcs: vec![AggregateFunctionDesc { function: 0, args: vec![1] }],
        before_group_by_schema: schema(&[0, 1]),
        limit: None,
    });
    let r = build(c, false, &plan).unwrap();
    let method = HashMethodKind::KeysU32;
    assert_eq!(
        kinds(&r.main_pipeline),
        vec![
            (Processor::TableSource { plan_id: 1 }, 4),
            (Processor::PartialAggregate { method }, 4),
            (Processor::AggregateSpillWriter { method }, 4),
            (Processor::PartitionBucket { method, with_states: true }, 1),
            (Processor::Resize, 1),
            (Processor::AggregateSpillReader, 4),
            (Processor::FinalAggregate { method }, 4),
        ]
    );
    // the injector of the partial aggregation does not outlive the final one
    assert_eq!(r.exchange_injector, ExchangeInjector::Default);
    // the writer spills under the prefix of the tenant
    match &r.main_pipeline.operators[1] {
        OperatorParams::SpillWriter { location_prefix, aggregator } => {
            assert_eq!(location_prefix, "_aggregate_spill/t1");
            assert_eq!(aggregator.as_ref().unwrap().group_columns, vec![0]);
        }
        _ => panic!("not a spill writer"),
    }
    assert_eq!(spill_location_prefix(&"acme".to_string()), "_aggregate_spill/acme");
    match &r.main_pipeline.operators[0] {
        OperatorParams::Aggregator { params } => {
            assert_eq!(params.group_columns, vec![0]);
            assert_eq!(params.group_data_types, vec![int32(0)]);
            assert_eq!(params.aggregate_functions, 1);
            assert_eq!(params.input_fields, 2);
            assert_eq!(params.limit, None);
        }
        _ => panic!("not an aggregator"),
    }
    shape_holds(&r);
}

#[test]
fn no_spill_writer_without_threshold_or_in_a_cluster() {
    let (c, plan) = partial(settings(4), true, vec![0], 1, 2);
    let r = build(c, false, &plan).unwrap();
    assert_eq!(kinds(&r.main_pipeline).len(), 2);
    assert_eq!(
        r.exchange_injector,
        ExchangeInjector::Aggregate { method: HashMethodKind::KeysU32, with_states: true }
    );
    let mut s = settings(4);
    s.spilling_bytes_threshold_per_proc = 1024;
    let (c, plan) = partial(s, false, vec![0], 1, 2);
    let r = build(c, false, &plan).unwrap();
    assert_eq!(kinds(&r.main_pipeline).len(), 2);
    let (c, plan) = partial(s, true, vec![0], 1, 2);
    let r = build(c, false, &plan).unwrap();
    assert_eq!(kinds(&r.main_pipeline).len(), 3);
}

#[test]
fn group_by_without_functions_or_without_keys() {
    let mut s = settings(4);
    s.spilling_bytes_threshold_per_proc = 1;
    let (c, plan) = partial(s, true, vec![0, 1], 0, 2);
    let r = build(c, true, &plan).unwrap();
    let method = HashMethodKind::KeysU64;
    assert_eq!(
        kinds(&r.main_pipeline),
        vec![
            (Processor::TableSource { plan_id: 1 }, 2),
            (Processor::PartialGroupBy { method }, 2),
            (Processor::GroupBySpillWriter { method }, 2),
        ]
    );
    assert_eq!(r.main_pipeline.pipes[2].items[0].processor.profile, wrapped(2));
    match &r.main_pipeline.operators[1] {
        OperatorParams::SpillWriter { location_prefix, aggregator } => {
            assert_eq!(location_prefix, "_aggregate_spill/t1");
            assert!(aggregator.is_none());
        }
        _ => panic!("not a spill writer"),
    }
    assert_eq!(r.exchange_injector, ExchangeInjector::Aggregate { method, with_states: false });

    let (c, plan) = partial(s, true, vec![], 1, 2);
    let r = build(c, false, &plan).unwrap();
    assert_eq!(
        kinds(&r.main_pipeline),
        vec![
            (Processor::TableSource { plan_id: 1 }, 2),
            (Processor::PartialSingleStateAggregator, 2)
        ]
    );
    assert_eq!(r.exchange_injector, ExchangeInjector::Default);

    let (c, plan) = partial(s, true, vec![42], 1, 2);
    assert_eq!(build(c, false, &plan).unwrap_err(), ErrorKind::BadArguments);
}

#[test]
fn final_aggregation_without_keys_is_single() {
    let plan = PhysicalPlan::AggregateFinal(AggregateFinal {
        plan_id: 3,
        output_schema: schema(&[9]),
        input: Box::new(scan(1, 3)),
        group_by: vec![],
        agg_funcs: vec![AggregateFunctionDesc { function: 0, args: vec![1] }],
        before_group_by_schema: schema(&[0, 1]),
        limit: Some(5),
    });
    let r = build(ctx(4), false, &plan).unwrap();
    assert_eq!(
        kinds(&r.main_pipeline),
        vec![
            (Processor::TableSource { plan_id: 1 }, 3),
            (Processor::Resize, 1),
            (Processor::FinalSingleStateAggregator, 1)
        ]
    );
    shape_holds(&r);
}

#[test]
fn final_aggregation_over_an_exchange_sets_the_injector_for_it() {
    let source = PhysicalPlan::ExchangeSource(ExchangeSource {
        plan_id: 1,
        output_schema: schema(&[0, 1]),
        query_id: "q".to_string(),
        source_fragment_id: 7,
        streams: 2,
    });
    let plan = PhysicalPlan::AggregateFinal(AggregateFinal {
        plan_id: 3,
        output_schema: schema(&[0]),
        input: Box::new(source),
        group_by: vec![0],
        agg_funcs: vec![],
        before_group_by_schema: schema(&[0, 1]),
        limit: None,
    });
    let r = build(ctx(4), false, &plan).unwrap();
    let method = HashMethodKind::KeysU32;
    assert_eq!(
        kinds(&r.main_pipeline)[0],
        (
            Processor::ExchangeSource {
                fragment_id: 7,
                injector: ExchangeInjector::Aggregate { method, with_states: false }
            },
            2
        )
    );
    assert_eq!(kinds(&r.main_pipeline)[4], (Processor::FinalGroupBy { method }, 2));
    // restored afterwards
    assert_eq!(r.exchange_injector, ExchangeInjector::Default);
}

#[test]
fn hash_method_goes_by_the_size_of_the_keys() {
    let field = |data_type: DataType, nullable: bool| DataField { name: 0, data_type, nullable };
    let n = |t: NumberDataType| DataType::Number(t);
    let choose = |keys: Vec<DataField>, m: bool| choose_hash_method(&keys, m).unwrap();
    assert_eq!(choose(vec![field(DataType::String, false)], false), HashMethodKind::SingleString);
    assert_eq!(choose(vec![field(n(NumberDataType::UInt8), false)], false), HashMethodKind::KeysU8);
    assert_eq!(choose(vec![field(n(NumberDataType::UInt8), true)], false), HashMethodKind::KeysU16);
    assert_eq!(choose(vec![field(n(NumberDataType::Int16), true)], false), HashMethodKind::KeysU32);
    assert_eq!(choose(vec![field(n(NumberDataType::Float32), true)], false), HashMethodKind::KeysU64);
    assert_eq!(
        choose(vec![field(DataType::Timestamp, false), field(DataType::Date, false)], false),
        HashMethodKind::KeysU128
    );
    assert_eq!(
        choose(vec![field(n(NumberDataType::Int64), true), field(n(NumberDataType::Int64), false)], false),
        HashMethodKind::KeysU256
    );
    let wide: Vec<DataField> = (0..5).map(|_| field(n(NumberDataType::Int64), false)).collect();
    assert_eq!(choose(wide.clone(), false), HashMethodKind::Serializer);
    assert_eq!(choose(wide, true), HashMethodKind::DictionarySerializer);
    assert_eq!(
        choose(vec![field(DataType::String, false), field(n(NumberDataType::Int8), false)], false),
        HashMethodKind::Serializer
    );
    assert_eq!(choose(vec![field(DataType::Boolean, false)], true), HashMethodKind::DictionarySerializer);
    assert_eq!(choose(vec![], false), HashMethodKind::Serializer);
}

fn expand(group_bys: Vec<usize>, grouping_sets: Vec<Vec<usize>>) -> AggregateExpand {
    AggregateExpand {
        plan_id: 2,
        output_schema: schema(&[0, 1, 99]),
        input: Box::new(scan(1, 2)),
        group_bys,
        grouping_sets,
    }
}

#[test]
fn grouping_ids_mark_the_keys_left_out() {
    // GROUP BY GROUPING SETS ((a, b), (a), (b), ())
    let e = expand(vec![0, 1, 99], vec![vec![0, 1], vec![0], vec![1], vec![]]);
    let (group_bys, ids) = build_grouping(&e).unwrap();
    assert_eq!(
        group_bys,
        vec![(0, DataType::Number(NumberDataType::Int32)), (1, DataType::Number(NumberDataType::Int32))]
    );
    assert_eq!(ids, vec![0b00, 0b10, 0b01, 0b11]);
    let r = build(ctx(4), true, &PhysicalPlan::AggregateExpand(e)).unwrap();
    assert_eq!(kinds(&r.main_pipeline)[1], (Processor::ExpandGroupingSets, 2));
    assert_eq!(r.main_pipeline.pipes[1].items[0].processor.profile, wrapped(2));
    // the table source is the engine's and is not counted
    assert_eq!(r.main_pipeline.pipes[0].items[0].processor.profile, None);
}

#[test]
fn grouping_over_a_missing_column_fails() {
    assert_eq!(build_grouping(&expand(vec![7, 99], vec![])).unwrap_err().kind(), ErrorKind::BadArguments);
    assert_eq!(
        build_grouping(&expand(vec![0, 99], vec![vec![0], vec![8]])).unwrap_err().kind(),
        ErrorKind::BadArguments
    );
}

fn window(units: WindowFuncFrameUnits, partition_by: Vec<usize>, order_by: Vec<SortDesc>, input: PhysicalPlan) -> Window {
    Window {
        plan_id: 4,
        output_schema: schema(&[0, 1, 8]),
        input: Box::new(input),
        partition_by,
        order_by,
        units,
        start_bound: WindowFuncFrameBound::Preceding(Some(Scalar::Number(1))),
        end_bound: WindowFuncFrameBound::CurrentRow,
    }
}

#[test]
fn window_with_rows_frame() {
    // SUM(v) OVER (PARTITION BY p ORDER BY o ROWS BETWEEN 1 PRECEDING AND CURRENT ROW)
    let w = window(
        WindowFuncFrameUnits::Rows,
        vec![0],
        vec![SortDesc { asc: true, nulls_first: true, order_by: 1 }],
        scan(1, 1),
    );
    let params = build_window_params(&w).unwrap();
    let key = |offset| SortColumnDescription { offset, asc: true, nulls_first: true, is_nullable: false };
    assert_eq!(params.sort_desc, vec![key(0), key(1)]);
    assert_eq!(params.partition_by, vec![0]);
    assert_eq!(params.order_by, vec![key(1)]);
    assert_eq!(params.frame, WindowFrame::Rows);
    let r = build(ctx(4), true, &PhysicalPlan::Window(w)).unwrap();
    assert_eq!(
        kinds(&r.main_pipeline),
        vec![
            (Processor::TableSource { plan_id: 1 }, 1),
            (Processor::Resize, 1),
            (Processor::SortPartial, 4),
            (Processor::SortMerge, 4),
            (Processor::MultiSortMerge, 1),
            (Processor::Window { plan_id: 4, frame: WindowFrame::Rows }, 1),
        ]
    );
    assert_eq!(r.main_pipeline.output_len(), 1);
    // the sort is counted for the window, and so is the window itself
    assert_eq!(r.main_pipeline.pipes[2].items[0].processor.profile, wrapped(4));
    assert_eq!(r.main_pipeline.pipes[5].items[0].processor.profile, wrapped(4));
    // the frame goes from one row before the current row to the current row
    match r.main_pipeline.operators.last().unwrap() {
        OperatorParams::Window { partition_by, order_by, start_bound, end_bound } => {
            assert_eq!(partition_by, &vec![0]);
            assert_eq!(order_by, &vec![key(1)]);
            assert_eq!(*start_bound, WindowFuncFrameBound::Preceding(Some(Scalar::Number(1))));
            assert_eq!(*end_bound, WindowFuncFrameBound::CurrentRow);
        }
        _ => panic!("not a window"),
    }
    match &r.main_pipeline.operators[0] {
        OperatorParams::Sort { sort_desc, limit, partial_block_size, final_block_size } => {
            assert_eq!(sort_desc, &vec![key(0), key(1)]);
            assert_eq!(*limit, None);
            assert_eq!(*partial_block_size, 65536);
            assert_eq!(*final_block_size, 65536);
        }
        _ => panic!("not a sort"),
    }
    shape_holds(&r);
}

#[test]
fn window_restores_the_width_and_picks_its_frame_type() {
    let desc = SortDesc { asc: false, nulls_first: false, order_by: 1 };
    let w = window(WindowFuncFrameUnits::Range, vec![], vec![desc], scan(1, 3));
    assert_eq!(build_window_params(&w).unwrap().frame, WindowFrame::Range(NumberDataType::Int32));
    let r = build(ctx(4), false, &PhysicalPlan::Window(w)).unwrap();
    assert_eq!(
        kinds(&r.main_pipeline),
        vec![
            (Processor::TableSource { plan_id: 1 }, 3),
            (Processor::SortPartial, 3),
            (Processor::SortMerge, 3),
            (Processor::MultiSortMerge, 1),
            (Processor::Window { plan_id: 4, frame: WindowFrame::Range(NumberDataType::Int32) }, 1),
            (Processor::Resize, 1),
        ]
    );
    assert_eq!(r.main_pipeline.output_len(), 3);

    // no single key: the smallest type stands in; nothing to sort by: no sort
    let w = window(WindowFuncFrameUnits::Range, vec![], vec![], scan(1, 2));
    assert_eq!(build_window_params(&w).unwrap().frame, WindowFrame::Range(NumberDataType::UInt8));
    let r = build(ctx(4), false, &PhysicalPlan::Window(w)).unwrap();
    assert_eq!(
        kinds(&r.main_pipeline),
        vec![
            (Processor::TableSource { plan_id: 1 }, 2),
            (Processor::Resize, 1),
            (Processor::Window { plan_id: 4, frame: WindowFrame::Range(NumberDataType::UInt8) }, 1),
            (Processor::Resize, 1),
        ]
    );
    let w = window(WindowFuncFrameUnits::Range, vec![0], vec![desc, desc], scan(1, 2));
    assert_eq!(build_window_params(&w).unwrap().frame, WindowFrame::Range(NumberDataType::UInt8));
    let w = window(WindowFuncFrameUnits::Rows, vec![77], vec![], scan(1, 2));
    assert_eq!(build_window_params(&w).unwrap_err().kind(), ErrorKind::BadArguments);
}

fn sort(limit: Option<usize>, after_exchange: bool, input: PhysicalPlan) -> PhysicalPlan {
    PhysicalPlan::Sort(Sort {
        plan_id: 6,
        output_schema: schema(&[0, 1]),
        input: Box::new(input),
        order_by: vec![SortDesc { asc: true, nulls_first: false, order_by: 1 }],
        limit,
        after_exchange,
    })
}

#[test]
fn sort_spreads_a_single_stream_and_merges() {
    let r = build(ctx(4), false, &sort(None, false, scan(1, 1))).unwrap();
    assert_eq!(
        kinds(&r.main_pipeline),
        vec![
            (Processor::TableSource { plan_id: 1 }, 1),
            (Processor::Resize, 1),
            (Processor::SortPartial, 4),
            (Processor::SortMerge, 4),
            (Processor::MultiSortMerge, 1),
        ]
    );
    shape_holds(&r);
    // several streams are sorted as they are, whatever the number of threads
    for threads in [1, 4] {
        let r = build(ctx(threads), false, &sort(None, false, scan(1, 2))).unwrap();
        assert_eq!(
            kinds(&r.main_pipeline),
            vec![
                (Processor::TableSource { plan_id: 1 }, 2),
                (Processor::SortPartial, 2),
                (Processor::SortMerge, 2),
                (Processor::MultiSortMerge, 1),
            ]
        );
    }
    // a single stream on a single thread stays one stream
    let r = build(ctx(1), false, &sort(None, false, scan(1, 1))).unwrap();
    assert_eq!(
        kinds(&r.main_pipeline),
        vec![
            (Processor::TableSource { plan_id: 1 }, 1),
            (Processor::SortPartial, 1),
            (Processor::SortMerge, 1),
        ]
    );
}

#[test]
fn sort_after_an_exchange_with_a_limit_skips_the_partial_sort() {
    let r = build(ctx(4), false, &sort(Some(3), true, scan(1, 2))).unwrap();
    assert_eq!(
        kinds(&r.main_pipeline),
        vec![
            (Processor::TableSource { plan_id: 1 }, 2),
            (Processor::SortMerge, 2),
            (Processor::MultiSortMerge, 1),
        ]
    );
    let r = build(ctx(4), false, &sort(Some(3), false, scan(1, 2))).unwrap();
    assert_eq!(kinds(&r.main_pipeline)[1], (Processor::SortPartial, 2));
    let r = build(ctx(4), false, &sort(None, true, scan(1, 2))).unwrap();
    assert_eq!(kinds(&r.main_pipeline)[1], (Processor::SortPartial, 2));
    let mut bad = sort(None, false, scan(1, 2));
    if let PhysicalPlan::Sort(s) = &mut bad {
        s.order_by[0].order_by = 5;
    }
    assert_eq!(build(ctx(4), false, &bad).unwrap_err(), ErrorKind::BadArguments);
}

fn join(join_type: JoinType, contain_runtime_filter: bool, build_side: PhysicalPlan, probe: PhysicalPlan) -> PhysicalPlan {
    PhysicalPlan::HashJoin(HashJoin {
        plan_id: 5,
        output_schema: schema(&[0, 1]),
        build: Box::new(build_side),
        probe: Box::new(probe),
        join_type,
        non_equi_conditions: vec![],
        contain_runtime_filter,
    })
}

#[test]
fn left_mark_join() {
    // SELECT ... WHERE x IN (SELECT y FROM u)
    let r = build(ctx(4), true, &join(JoinType::LeftMark, false, scan(1, 2), scan(2, 3))).unwrap();
    assert_eq!(r.sources_pipelines.len(), 1);
    assert_eq!(
        kinds(&r.sources_pipelines[0]),
        vec![(Processor::TableSource { plan_id: 1 }, 2), (Processor::HashJoinBuild { join: 5 }, 2)]
    );
    assert_eq!(r.sources_pipelines[0].pipes[1].items[0].processor.profile, wrapped(5));
    assert_eq!(
        kinds(&r.main_pipeline),
        vec![
            (Processor::TableSource { plan_id: 2 }, 3),
            (
                Processor::HashJoinProbe {
                    join: 5,
                    join_type: JoinType::LeftMark,
                    has_non_equi_conditions: false
                },
                3
            ),
            (Processor::Resize, 1),
            (Processor::MarkJoin { join: 5 }, 1),
        ]
    );
    shape_holds(&r);
}

#[test]
fn inner_join_with_other_conditions() {
    let mut plan = join(JoinType::Inner, false, scan(1, 2), scan(2, 3));
    if let PhysicalPlan::HashJoin(j) = &mut plan {
        j.non_equi_conditions = vec![pred(1)];
    }
    let r = build(ctx(4), false, &plan).unwrap();
    assert_eq!(
        kinds(&r.main_pipeline),
        vec![
            (Processor::TableSource { plan_id: 2 }, 3),
            (
                Processor::HashJoinProbe { join: 5, join_type: JoinType::Inner, has_non_equi_conditions: true },
                3
            ),
        ]
    );
    shape_holds(&r);
}

#[test]
fn runtime_filter_source_closes_the_build_side() {
    let probe = PhysicalPlan::RuntimeFilterSource(RuntimeFilterSource {
        plan_id: 8,
        output_schema: schema(&[0, 1]),
        left_side: Box::new(scan(2, 3)),
        right_side: Box::new(scan(3, 1)),
    });
    let r = build(ctx(4), true, &join(JoinType::Inner, true, scan(1, 2), probe)).unwrap();
    assert_eq!(r.sources_pipelines.len(), 1);
    let side = &r.sources_pipelines[0];
    assert_eq!(
        kinds(side)[..2],
        [
            (Processor::TableSource { plan_id: 1 }, 2),
            (Processor::Duplicate { force_finish_together: false }, 2)
        ]
    );
    let sinks: Vec<Processor> = side.pipes[2].items.iter().map(|i| i.processor.processor).collect();
    assert_eq!(
        sinks,
        vec![
            Processor::HashJoinBuild { join: 5 },
            Processor::SinkRuntimeFilterSource { source: 8 },
            Processor::HashJoinBuild { join: 5 },
            Processor::SinkRuntimeFilterSource { source: 8 },
        ]
    );
    assert!(side.pipes[2].items.iter().all(|i| i.inputs_port == 1 && i.outputs_port == 0));
    assert_eq!(
        kinds(&r.main_pipeline),
        vec![
            (Processor::TableSource { plan_id: 2 }, 3),
            (Processor::RuntimeFilter { source: 8 }, 3),
            (
                Processor::HashJoinProbe { join: 5, join_type: JoinType::Inner, has_non_equi_conditions: false },
                3
            ),
        ]
    );
    shape_holds(&r);
}

#[test]
fn a_build_side_left_open_fails_the_build() {
    // a join that waits for a runtime-filter source that never comes
    let plan = join(JoinType::Inner, true, scan(1, 2), scan(2, 3));
    let e = PipelineBuilder::create(ctx(4), false, SINK).finalize(&plan).unwrap_err();
    assert_eq!(e.kind(), ErrorKind::Internal);
    assert_eq!(e.message(), "Source pipeline must be complete pipeline.");
}

#[test]
fn union_all_goes_through_a_channel() {
    let plan = PhysicalPlan::UnionAll(UnionAll {
        plan_id: 7,
        output_schema: schema(&[0, 1]),
        left: Box::new(scan(1, 2)),
        right: Box::new(scan(2, 3)),
        pairs: vec![ColumnPair { left: 0, right: 1 }, ColumnPair { left: 1, right: 0 }],
    });
    let r = build(ctx(4), false, &plan).unwrap();
    assert_eq!(r.sources_pipelines.len(), 1);
    assert_eq!(
        kinds(&r.sources_pipelines[0]),
        vec![(Processor::TableSource { plan_id: 2 }, 3), (Processor::UnionReceiveSink { union: 7 }, 3)]
    );
    assert_eq!(
        kinds(&r.main_pipeline),
        vec![(Processor::TableSource { plan_id: 1 }, 2), (Processor::MergeBlock { union: 7 }, 2)]
    );
    // the merge knows both sides and which of their columns go together
    match &r.main_pipeline.operators[0] {
        OperatorParams::MergeBlock { left_fields, right_fields, pairs } => {
            assert_eq!(left_fields, &vec![int32(0), int32(1)]);
            assert_eq!(right_fields, &vec![int32(0), int32(1)]);
            assert_eq!(pairs, &vec![ColumnPair { left: 0, right: 1 }, ColumnPair { left: 1, right: 0 }]);
        }
        _ => panic!("not a merge"),
    }
    assert_eq!(r.prof_span_set, SINK);
    shape_holds(&r);
}

#[test]
fn side_pipelines_come_in_the_order_of_the_walk() {
    // the build side of a join on the right of a union comes after the right side itself
    let right = join(JoinType::Inner, false, scan(3, 1), scan(2, 2));
    let plan = PhysicalPlan::UnionAll(UnionAll {
        plan_id: 7,
        output_schema: schema(&[0, 1]),
        left: Box::new(join(JoinType::Inner, false, scan(4, 1), scan(1, 2))),
        right: Box::new(right),
        pairs: vec![],
    });
    let r = build(ctx(4), false, &plan).unwrap();
    let firsts: Vec<Processor> = r.sources_pipelines.iter().map(|p| p.pipes[0].items[0].processor.processor).collect();
    assert_eq!(
        firsts,
        vec![
            Processor::TableSource { plan_id: 4 },
            Processor::TableSource { plan_id: 2 },
            Processor::TableSource { plan_id: 3 },
        ]
    );
    shape_holds(&r);
}

#[test]
fn range_join_spreads_its_left_side() {
    let plan = PhysicalPlan::RangeJoin(RangeJoin {
        plan_id: 9,
        output_schema: schema(&[0, 1]),
        left: Box::new(scan(1, 2)),
        right: Box::new(scan(2, 3)),
    });
    let r = build(ctx(4), false, &plan).unwrap();
    assert_eq!(
        kinds(&r.sources_pipelines[0]),
        vec![(Processor::TableSource { plan_id: 2 }, 3), (Processor::RangeJoinRight { join: 9 }, 3)]
    );
    assert_eq!(
        kinds(&r.main_pipeline),
        vec![
            (Processor::TableSource { plan_id: 1 }, 2),
            (Processor::Resize, 1),
            (Processor::RangeJoinLeft { join: 9 }, 4)
        ]
    );
    shape_holds(&r);
}

#[test]
fn exchange_source_and_sink() {
    let source = PhysicalPlan::ExchangeSource(ExchangeSource {
        plan_id: 1,
        output_schema: schema(&[0, 1]),
        query_id: "q".to_string(),
        source_fragment_id: 3,
        streams: 2,
    });
    let sink = PhysicalPlan::ExchangeSink(ExchangeSink {
        plan_id: 2,
        output_schema: schema(&[0, 1]),
        input: Box::new(source),
    });
    let r = build(ctx(4), false, &sink).unwrap();
    assert_eq!(
        kinds(&r.main_pipeline),
        vec![(Processor::ExchangeSource { fragment_id: 3, injector: ExchangeInjector::Default }, 2)]
    );
    shape_holds(&r);
    let none = PhysicalPlan::ExchangeSource(ExchangeSource {
        plan_id: 1,
        output_schema: schema(&[0, 1]),
        query_id: "q".to_string(),
        source_fragment_id: 3,
        streams: 0,
    });
    assert_eq!(build(ctx(4), false, &none).unwrap_err(), ErrorKind::Internal);
}

#[test]
fn insert_select_ends_in_the_table() {
    let plan = |cast_needed: bool, index: usize| {
        PhysicalPlan::DistributedInsertSelect(DistributedInsertSelect {
            plan_id: 4,
            output_schema: schema(&[]),
            input: Box::new(scan(1, 2)),
            select_column_bindings: vec![ColumnBinding { index }, ColumnBinding { index: 0 }],
            cast_needed,
        })
    };
    let r = build(ctx(4), false, &plan(true, 1)).unwrap();
    assert_eq!(
        kinds(&r.main_pipeline),
        vec![
            (Processor::TableSource { plan_id: 1 }, 2),
            (Processor::Project, 2),
            (Processor::CastSchema { plan_id: 4 }, 2),
            (Processor::FillMissingColumns { plan_id: 4 }, 2),
            (Processor::AppendSink { plan_id: 4 }, 2),
        ]
    );
    assert!(r.main_pipeline.is_complete_pipeline().unwrap());
    match &r.main_pipeline.operators[0] {
        OperatorParams::Project { projection, .. } => assert_eq!(projection, &vec![1, 0]),
        _ => panic!("not a projection"),
    }
    let r = build(ctx(4), false, &plan(false, 1)).unwrap();
    assert_eq!(kinds(&r.main_pipeline).len(), 4);
    assert_eq!(build(ctx(4), false, &plan(false, 6)).unwrap_err(), ErrorKind::BadArguments);
}

#[test]
fn render_result_set_projects_or_drops() {
    let func_ctx = FunctionContext { rounding_mode: false };
    let mut p = Pipeline::create();
    p.add_source(ProcessorPtr::create(Processor::TableSource { plan_id: 1 }), 2).unwrap();
    PipelineBuilder::render_result_set(&func_ctx, &schema(&[5, 6]), &vec![ColumnBinding { index: 6 }], &mut p, false)
        .unwrap();
    assert_eq!(kinds(&p)[1], (Processor::Project, 2));
    match &p.operators[0] {
        OperatorParams::Project { projection, num_input_columns } => {
            assert_eq!(projection, &vec![1]);
            assert_eq!(*num_input_columns, 2);
        }
        _ => panic!("not a projection"),
    }
    PipelineBuilder::render_result_set(&func_ctx, &schema(&[5, 6]), &vec![ColumnBinding { index: 9 }], &mut p, true)
        .unwrap();
    assert_eq!(kinds(&p)[2], (Processor::EmptySink, 2));
    let mut q = Pipeline::create();
    let e = PipelineBuilder::render_result_set(&func_ctx, &schema(&[5]), &vec![ColumnBinding { index: 9 }], &mut q, false);
    assert_eq!(e.unwrap_err().kind(), ErrorKind::BadArguments);
}

#[test]
fn aggregator_params_place_the_keys() {
    let funcs = vec![AggregateFunctionDesc { function: 1, args: vec![0] }];
    let params = PipelineBuilder::build_aggregator_params(&schema(&[4, 5, 6]), &vec![6, 4], &funcs, Some(3)).unwrap();
    assert_eq!(params.group_columns, vec![2, 0]);
    assert_eq!(params.group_data_types, vec![int32(6), int32(4)]);
    assert_eq!(params.aggregate_functions, 1);
    assert_eq!(params.input_fields, 3);
    assert_eq!(params.limit, Some(3));
    let e = PipelineBuilder::build_aggregator_params(&schema(&[4]), &vec![4, 5], &funcs, None);
    assert_eq!(e.unwrap_err().kind(), ErrorKind::BadArguments);
}

#[test]
fn deletes_and_copies() {
    let partial = PhysicalPlan::DeletePartial(DeletePartial { plan_id: 1, output_schema: schema(&[]), streams: 3 });
    let r = build(ctx(4), false, &partial).unwrap();
    assert_eq!(
        kinds(&r.main_pipeline),
        vec![(Processor::MutationSource { plan_id: 1 }, 3), (Processor::SerializeData { plan_id: 1 }, 3)]
    );
    shape_holds(&r);
    let last = PhysicalPlan::DeleteFinal(DeleteFinal {
        plan_id: 2,
        output_schema: schema(&[]),
        input: Box::new(partial),
    });
    let r = build(ctx(4), false, &last).unwrap();
    assert_eq!(
        kinds(&r.main_pipeline),
        vec![
            (Processor::MutationSource { plan_id: 1 }, 3),
            (Processor::SerializeData { plan_id: 1 }, 3),
            (Processor::Resize, 1),
            (Processor::MutationAggregator { plan_id: 2 }, 1),
            (Processor::CommitSink { plan_id: 2 }, 1),
        ]
    );
    assert!(r.main_pipeline.is_complete_pipeline().unwrap());
    let copy = PhysicalPlan::DistributedCopyIntoTable(DistributedCopyIntoTable {
        plan_id: 3,
        output_schema: schema(&[]),
        streams: 2,
    });
    let r = build(ctx(4), false, &copy).unwrap();
    assert_eq!(
        kinds(&r.main_pipeline),
        vec![(Processor::StageSource { plan_id: 3 }, 2), (Processor::AppendSink { plan_id: 3 }, 2)]
    );
    let none = PhysicalPlan::DeletePartial(DeletePartial { plan_id: 1, output_schema: schema(&[]), streams: 0 });
    assert_eq!(build(ctx(4), false, &none).unwrap_err(), ErrorKind::Internal);
}

#[test]
fn public_builders_work_on_a_builder_in_use() {
    let mut b = PipelineBuilder::create(ctx(4), false, SINK);
    let source = ExchangeSource {
        plan_id: 1,
        output_schema: schema(&[0, 1]),
        query_id: "q".to_string(),
        source_fragment_id: 3,
        streams: 2,
    };
    b.build_pipeline(&scan(5, 1)).unwrap();
    // a fragment with a pipeline on its side
    let mut fragment = get_fragment_source(&source, SINK, ExchangeInjector::Default).unwrap();
    assert!(fragment.sources_pipelines.is_empty());
    assert_eq!(fragment.prof_span_set, SINK);
    let mut side = Pipeline::create();
    side.add_source(ProcessorPtr::create(Processor::TableSource { plan_id: 8 }), 1).unwrap();
    side.add_sink(ProcessorPtr::create(Processor::EmptySink)).unwrap();
    fragment.sources_pipelines.push(side);
    b.build_exchange_source(&source, fragment).unwrap();
    // the fragment takes the place of the main pipeline, and its side is kept
    assert_eq!(
        kinds(&b.main_pipeline),
        vec![(Processor::ExchangeSource { fragment_id: 3, injector: ExchangeInjector::Default }, 2)]
    );
    assert_eq!(b.pipelines.len(), 1);
    assert_eq!(kinds(&b.pipelines[0])[0], (Processor::TableSource { plan_id: 8 }, 1));
    assert_eq!(b.exchange_injector, ExchangeInjector::Default);
    let mut c = PipelineBuilder::create(ctx(4), false, SINK);
    let union_all = UnionAll {
        plan_id: 7,
        output_schema: schema(&[0, 1]),
        left: Box::new(scan(1, 1)),
        right: Box::new(scan(2, 1)),
        pairs: vec![],
    };
    c.build_union_all(&union_all).unwrap();
    assert_eq!(c.pipelines.len(), 1);
    assert_eq!(c.main_pipeline.pipes.len(), 2);
    let mut d = PipelineBuilder::create(ctx(4), false, SINK);
    d.build_pipeline(&scan(1, 2)).unwrap();
    assert_eq!(d.main_pipeline.output_len(), 2);
    let s = Scalar::Null;
    assert_eq!(s, Scalar::Null);
}

/// For each pipe, what its processors are wrapped in.
fn wrappers(p: &Pipeline) -> Vec<Option<ProfileWrapper>> {
    p.pipes.iter().map(|pipe| pipe.items[0].processor.profile).collect()
}

#[test]
fn every_transform_of_the_builder_is_counted_for_its_plan() {
    // sources and sinks of tables and what renders the result are not
    let insert = PhysicalPlan::DistributedInsertSelect(DistributedInsertSelect {
        plan_id: 4,
        output_schema: schema(&[]),
        input: Box::new(scan(1, 2)),
        select_column_bindings: vec![ColumnBinding { index: 1 }, ColumnBinding { index: 0 }],
        cast_needed: true,
    });
    let r = build(ctx(4), true, &insert).unwrap();
    assert_eq!(wrappers(&r.main_pipeline), vec![None, None, wrapped(4), wrapped(4), None]);
    let delete = PhysicalPlan::DeleteFinal(DeleteFinal {
        plan_id: 3,
        output_schema: schema(&[]),
        input: Box::new(PhysicalPlan::DeletePartial(DeletePartial {
            plan_id: 2,
            output_schema: schema(&[]),
            streams: 1,
        })),
    });
    let r = build(ctx(4), true, &delete).unwrap();
    assert_eq!(
        kinds(&r.main_pipeline),
        vec![
            (Processor::MutationSource { plan_id: 2 }, 1),
            (Processor::SerializeData { plan_id: 2 }, 1),
            (Processor::MutationAggregator { plan_id: 3 }, 1),
            (Processor::CommitSink { plan_id: 3 }, 1),
        ]
    );
    assert_eq!(wrappers(&r.main_pipeline), vec![None, wrapped(2), wrapped(3), None]);
    // a scan with internal columns and columns out of order
    let mut with_row_id = scan(1, 2);
    if let PhysicalPlan::TableScan(s) = &mut with_row_id {
        s.internal_column = Some(vec![2]);
        s.name_mapping = vec![("b".to_string(), 1), ("a".to_string(), 0)];
    }
    let r = build(ctx(4), true, &with_row_id).unwrap();
    assert_eq!(
        kinds(&r.main_pipeline),
        vec![
            (Processor::TableSource { plan_id: 1 }, 2),
            (Processor::FillInternalColumn { plan_id: 1 }, 2),
            (Processor::Project, 2),
        ]
    );
    assert_eq!(wrappers(&r.main_pipeline), vec![None, wrapped(1), wrapped(1)]);
    // a row fetch over a limit
    let fetch = PhysicalPlan::RowFetch(RowFetch {
        plan_id: 8,
        output_schema: schema(&[0, 1]),
        input: Box::new(PhysicalPlan::Limit(Limit {
            plan_id: 7,
            output_schema: schema(&[0, 1]),
            input: Box::new(scan(1, 1)),
            limit: Some(3),
            offset: 0,
        })),
    });
    let r = build(ctx(4), true, &fetch).unwrap();
    assert_eq!(wrappers(&r.main_pipeline), vec![None, wrapped(7), wrapped(8)]);
    // nothing is wrapped without profiling
    let r = build(ctx(4), false, &fetch).unwrap();
    assert_eq!(wrappers(&r.main_pipeline), vec![None, None, None]);
}

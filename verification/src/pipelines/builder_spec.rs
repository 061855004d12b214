//! What building a plan means: for every plan, the pipelines that the builder
//! leaves behind, or the failure it ends with.

use crate::exception::ErrorCode;
use crate::exception::ErrorKind;
use crate::exception::Failure;
use crate::exception::failure;
use crate::expression::no_field;
use crate::executor::AggregateExpand;
use crate::executor::AggregateFinal;
use crate::executor::AggregatePartial;
use crate::executor::DeleteFinal;
use crate::executor::DeletePartial;
use crate::executor::DistributedCopyIntoTable;
use crate::executor::DistributedInsertSelect;
use crate::executor::EvalScalar;
use crate::executor::ExchangeSource;
use crate::executor::Filter;
use crate::executor::HashJoin;
use crate::executor::Limit;
use crate::executor::PhysicalPlan;
use crate::executor::Project;
use crate::executor::ProjectSet;
use crate::executor::RangeJoin;
use crate::executor::RowFetch;
use crate::executor::RuntimeFilterSource;
use crate::executor::Sort;
use crate::executor::TableScan;
use crate::executor::UnionAll;
use crate::executor::Window;
use crate::expression::DataField;
use crate::expression::FunctionContext;
use crate::expression::IndexType;
use crate::pipelines::operators::and_filters;
use crate::pipelines::operators::empty_predicates;
use crate::pipelines::operators::grouping;
use crate::pipelines::operators::sets_within_keys;
use crate::pipelines::operators::window_params;
use crate::pipelines::operators::binding_indexes;
use crate::pipelines::operators::computed_exprs;
use crate::pipelines::operators::exprs_of;
use crate::pipelines::operators::hash_method;
use crate::pipelines::operators::is_sequential;
use crate::pipelines::operators::offsets_of;
use crate::pipelines::operators::scan_projection;
use crate::pipelines::operators::sort_description;
use crate::pipelines::operators::sort_keys;
use crate::pipelines::pipeline::AggregatorParamsView;
use crate::pipelines::pipeline::cannot_duplicate;
use crate::pipelines::pipeline::cannot_resize;
use crate::pipelines::pipeline::no_source_ports;
use crate::pipelines::pipeline::ExchangeInjector;
use crate::pipelines::pipeline::HashMethodKind;
use crate::pipelines::pipeline::JoinType;
use crate::pipelines::pipeline::OperatorView;
use crate::pipelines::pipeline::PipeItem;
use crate::pipelines::pipeline::PipeView;
use crate::pipelines::pipeline::PipelineView;
use crate::pipelines::pipeline::Processor;
use crate::pipelines::pipeline::ProcessorPtr;
use crate::pipelines::pipeline::ProfileWrapper;
use crate::pipelines::pipeline::SharedProcessorProfiles;
use crate::pipelines::pipeline::SortColumnDescription;
use crate::sessions::Settings;
use vstd::prelude::*;

verus! {

/// What a build runs under.
pub struct BuildEnv {
    pub settings: Settings,
    pub cluster_is_empty: bool,
    pub tenant: Seq<char>,
    pub function_context: FunctionContext,
    pub enable_profiling: bool,
    /// Where the processors that are counted report to.
    pub prof_span_set: SharedProcessorProfiles,
}

/// The prefix of the keys under which the aggregations of `tenant` spill.
pub open spec fn spill_prefix(tenant: Seq<char>) -> Seq<char> {
    "_aggregate_spill/"@ + tenant
}

/// What a builder holds.
pub struct BuilderView {
    /// The pipeline under construction.
    pub main: PipelineView,
    /// The pipelines that feed shared state and must run first.
    pub sides: Seq<PipelineView>,
    /// The hash join whose build side waits for its runtime-filter sinks.
    pub join_state: Option<u32>,
    /// Where that build side stands in `sides`.
    pub index: Option<usize>,
    pub injector: ExchangeInjector,
}

/// What a finished build hands over.
pub struct BuildResultView {
    pub main: PipelineView,
    pub sources: Seq<PipelineView>,
    pub injector: ExchangeInjector,
}

/// What the build of an exchange that was not split into a source and a sink
/// fails with.
pub open spec fn bare_exchange() -> Failure {
    failure(ErrorKind::Internal, "Invalid physical plan with PhysicalPlan::Exchange"@)
}

/// What a build fails with when a pipeline on the side is left open.
pub open spec fn open_side() -> Failure {
    failure(ErrorKind::Internal, "Source pipeline must be complete pipeline."@)
}

/// What a scan that asks for row ids fails with on a table of `engine`, which
/// has none.
pub open spec fn no_row_id(engine: Seq<char>) -> Failure {
    failure(
        ErrorKind::TableEngineNotSupported,
        "Table engine `"@ + engine + "` does not support virtual column _row_id"@,
    )
}

/// A pipeline without pipes.
pub open spec fn empty_pipeline() -> PipelineView {
    PipelineView { pipes: Seq::empty(), operators: Seq::empty() }
}

/// A builder that has built nothing.
pub open spec fn fresh() -> BuilderView {
    BuilderView {
        main: empty_pipeline(),
        sides: Seq::empty(),
        join_state: None,
        index: None,
        injector: ExchangeInjector::Default,
    }
}

impl BuilderView {
    pub open spec fn with_main(self, main: PipelineView) -> BuilderView {
        BuilderView { main, ..self }
    }

    pub open spec fn with_injector(self, injector: ExchangeInjector) -> BuilderView {
        BuilderView { injector, ..self }
    }

    /// This builder with the pipelines of a finished side build added: its
    /// main pipeline, then its own sources.
    pub open spec fn with_side(self, main: PipelineView,
        sources: Seq<PipelineView>) -> BuilderView {
        BuilderView { sides: self.sides.push(main) + sources, ..self }
    }

    /// Every pipeline of the builder is well formed: each pipe takes what the
    /// pipe before it leaves open.
    pub open spec fn shaped(self) -> bool {
        self.main.wf() && sides_wf(self.sides)
    }

    /// A runtime-filter source can add its sinks: the builder knows the join
    /// and its build side, and that pipeline has an even number of open
    /// output ports.
    pub open spec fn ready(self) -> bool {
        &&& self.join_state is Some
        &&& self.index matches Some(i) && i < self.sides.len() && self.sides[i as int].output_len()
            % 2 == 0
    }
}

/// Every pipeline of `sides` is well formed.
pub open spec fn sides_wf(sides: Seq<PipelineView>) -> bool {
    forall|i: int| 0 <= i < sides.len() ==> (#[trigger] sides[i]).wf()
}

/// `processor`, not counted: a source or a sink of a table, a processor
/// that gathers or spreads streams, or what a routine adds that is not told
/// a plan node.
pub open spec fn plain(processor: Processor) -> ProcessorPtr {
    ProcessorPtr { processor, profile: None }
}

/// `processor`, counted for `plan_id` if profiling is on: every transform
/// that the builder adds for a plan node is.
pub open spec fn counted(env: BuildEnv, processor: Processor, plan_id: u32) -> ProcessorPtr {
    ProcessorPtr::spec_profiled(processor, env.enable_profiling, plan_id, env.prof_span_set)
}

/// `pipeline` with its output ports spread over `new_size`; `Internal` when
/// it has none.
pub open spec fn try_resized(
    pipeline: PipelineView,
    new_size: usize,
) -> Result<PipelineView, Failure> {
    if pipeline.can_resize() {
        Ok(pipeline.resized(new_size))
    } else {
        Err(cannot_resize())
    }
}

/// The full sort of what `pipeline` gives: each stream is sorted piece by
/// piece, unless the pieces arrive sorted from an exchange and a limit
/// applies, then merged; several streams are merged into one.
#[verifier::opaque]
pub open spec fn full_sort(
    pipeline: PipelineView,
    sort: OperatorView,
    limited: bool,
    after_exchange: bool,
    profile: Option<ProfileWrapper>,
) -> Result<PipelineView, Failure> {
    let partial = if !limited || !after_exchange {
        pipeline.with_transform(
            ProcessorPtr { processor: Processor::SortPartial, profile },
            Some(sort),
        )
    } else {
        pipeline
    };
    let merged = partial.with_transform(
        ProcessorPtr { processor: Processor::SortMerge, profile },
        Some(sort),
    );
    if partial.output_len() > 1 {
        if merged.output_len() == 0 {
            Err(cannot_resize())
        } else if merged.output_len() == 1 {
            Ok(merged)
        } else {
            Ok(
                merged.with_layer(
                    ProcessorPtr { processor: Processor::MultiSortMerge, profile },
                    Some(sort),
                    1,
                    merged.output_len(),
                    1,
                ),
            )
        }
    } else {
        Ok(merged)
    }
}

/// The sort of what `pipeline` gives under the settings of `env`: a single
/// stream is first spread over `max_threads` streams.
#[verifier::opaque]
pub open spec fn sort_pipeline(
    env: BuildEnv,
    pipeline: PipelineView,
    sort_desc: Seq<SortColumnDescription>,
    plan_id: u32,
    limit: Option<usize>,
    after_exchange: bool,
) -> Result<PipelineView, Failure> {
    let spread = if pipeline.output_len() == 1 {
        try_resized(pipeline, env.settings.max_threads)
    } else {
        Ok(pipeline)
    };
    match spread {
        Err(e) => Err(e),
        Ok(p) => full_sort(
            p,
            OperatorView::Sort {
                sort_desc,
                limit,
                partial_block_size: env.settings.max_block_size,
                final_block_size: env.settings.max_block_size,
            },
            limit is Some,
            after_exchange,
            if env.enable_profiling {
                Some(ProfileWrapper { plan_id, prof_span_set: env.prof_span_set })
            } else {
                None
            },
        ),
    }
}

/// What an aggregation works from: where its keys stand in `fields`, and
/// their fields; nothing if `fields` lacks a key.
pub open spec fn aggregator_params(
    fields: Seq<DataField>,
    group_by: Seq<IndexType>,
    functions: usize,
    limit: Option<usize>,
) -> Option<AggregatorParamsView> {
    match offsets_of(fields, group_by, group_by.len() as int) {
        None => None,
        Some(offsets) => Some(
            AggregatorParamsView {
                input_fields: fields.len() as usize,
                group_columns: offsets,
                group_data_types: Seq::new(offsets.len(), |k: int| fields[offsets[k] as int]),
                aggregate_functions: functions,
                limit,
            },
        ),
    }
}

/// The merge of partial aggregation states: one processor gathers the states
/// of all streams by bucket, the buckets are spread over as many streams
/// again, spilled states are read back, and each stream finishes its
/// buckets.
#[verifier::opaque]
pub open spec fn partition_bucket(
    pipeline: PipelineView,
    method: HashMethodKind,
    params: AggregatorParamsView,
) -> Result<PipelineView, Failure> {
    let with_states = params.aggregate_functions != 0;
    let streams = pipeline.output_len();
    let gathered = pipeline.with_layer(
        plain(Processor::PartitionBucket { method, with_states }),
        None,
        1,
        streams,
        1,
    );
    match try_resized(gathered, streams) {
        Err(e) => Err(e),
        Ok(spread) => Ok(
            spread.with_transform(
                plain(
                    if with_states {
                        Processor::AggregateSpillReader
                    } else {
                        Processor::GroupBySpillReader
                    },
                ),
                None,
            ).with_transform(
                plain(
                    if with_states {
                        Processor::FinalAggregate { method }
                    } else {
                        Processor::FinalGroupBy { method }
                    },
                ),
                Some(OperatorView::Aggregator { params }),
            ),
        ),
    }
}

/// The sinks that a runtime-filter source puts behind the `streams` open
/// output ports of a build side: by turns one that feeds the join and one
/// that feeds the filter.
pub open spec fn runtime_filter_sinks(join: u32, source: u32, streams: usize) -> PipeView {
    PipeView {
        items: Seq::new(
            (streams / 2 * 2) as nat,
            |i: int|
                PipeItem {
                    processor: plain(
                        if i % 2 == 0 {
                            Processor::HashJoinBuild { join }
                        } else {
                            Processor::SinkRuntimeFilterSource { source }
                        },
                    ),
                    params: None,
                    inputs_port: 1,
                    outputs_port: 0,
                },
        ),
        input_length: streams,
        output_length: 0,
    }
}

/// Whether building `plan` leaves open output ports, if it succeeds: a scan
/// and what arrives from elsewhere give rows, what writes to a table gives
/// none, and every other node gives rows if the input that it continues
/// does.
pub open spec fn gives_rows(plan: PhysicalPlan) -> bool
    decreases plan,
{
    match plan {
        PhysicalPlan::TableScan(_) => true,
        PhysicalPlan::Filter(p) => gives_rows(*p.input),
        PhysicalPlan::Project(p) => gives_rows(*p.input),
        PhysicalPlan::EvalScalar(p) => gives_rows(*p.input),
        PhysicalPlan::ProjectSet(p) => gives_rows(*p.input),
        PhysicalPlan::AggregateExpand(p) => gives_rows(*p.input),
        PhysicalPlan::AggregatePartial(p) => gives_rows(*p.input),
        PhysicalPlan::AggregateFinal(p) => gives_rows(*p.input),
        PhysicalPlan::Window(p) => gives_rows(*p.input),
        PhysicalPlan::Sort(p) => gives_rows(*p.input),
        PhysicalPlan::Limit(p) => gives_rows(*p.input),
        PhysicalPlan::RowFetch(p) => gives_rows(*p.input),
        PhysicalPlan::HashJoin(p) => gives_rows(*p.probe),
        PhysicalPlan::RangeJoin(p) => gives_rows(*p.left),
        PhysicalPlan::Exchange(_) => true,
        PhysicalPlan::UnionAll(p) => gives_rows(*p.left),
        PhysicalPlan::RuntimeFilterSource(p) => gives_rows(*p.left_side),
        PhysicalPlan::DistributedInsertSelect(_) => false,
        PhysicalPlan::ExchangeSource(_) => true,
        PhysicalPlan::ExchangeSink(p) => gives_rows(*p.input),
        PhysicalPlan::DeletePartial(_) => true,
        PhysicalPlan::DeleteFinal(_) => false,
        PhysicalPlan::DistributedCopyIntoTable(_) => false,
    }
}

/// Whether a plan can be built. The build side of a hash join and the right
/// side of a union give rows; a row fetch reads from a limit; an expansion
/// into grouping sets has at most 63 keys besides the virtual one and no set
/// with a member that is not a key; an `EvalScalar` names only columns that
/// its input has; and a runtime-filter source stands on the probe side of a
/// hash join with a runtime filter, or in a builder that is `ready` for one.
pub open spec fn well_formed(plan: PhysicalPlan, ready: bool) -> bool
    decreases plan,
{
    match plan {
        PhysicalPlan::TableScan(_) => true,
        PhysicalPlan::Filter(p) => well_formed(*p.input, ready),
        PhysicalPlan::Project(p) => well_formed(*p.input, ready),
        PhysicalPlan::EvalScalar(p) => well_formed(*p.input, ready)
            && crate::pipelines::operators::columns_in_range(
            p.exprs@,
            p.input.schema().fields@.len() as int,
        ),
        PhysicalPlan::ProjectSet(p) => well_formed(*p.input, ready),
        PhysicalPlan::AggregateExpand(p) => well_formed(*p.input, ready) && 1 <= p.group_bys@.len()
            <= 64 && sets_within_keys(p),
        PhysicalPlan::AggregatePartial(p) => well_formed(*p.input, ready),
        PhysicalPlan::AggregateFinal(p) => well_formed(*p.input, ready),
        PhysicalPlan::Window(p) => well_formed(*p.input, ready),
        PhysicalPlan::Sort(p) => well_formed(*p.input, ready),
        PhysicalPlan::Limit(p) => well_formed(*p.input, ready),
        PhysicalPlan::RowFetch(p) => *p.input is Limit && well_formed(*p.input, ready),
        PhysicalPlan::HashJoin(p) => gives_rows(*p.build) && well_formed(*p.build, false)
            && well_formed(*p.probe, ready || p.contain_runtime_filter),
        PhysicalPlan::RangeJoin(p) => well_formed(*p.right, false) && well_formed(*p.left, ready),
        PhysicalPlan::Exchange(_) => true,
        PhysicalPlan::UnionAll(p) => well_formed(*p.left, ready) && gives_rows(*p.right)
            && well_formed(*p.right, false),
        PhysicalPlan::RuntimeFilterSource(p) => ready && well_formed(*p.left_side, ready),
        PhysicalPlan::DistributedInsertSelect(p) => well_formed(*p.input, ready),
        PhysicalPlan::ExchangeSource(_) => true,
        PhysicalPlan::ExchangeSink(p) => well_formed(*p.input, ready),
        PhysicalPlan::DeletePartial(_) => true,
        PhysicalPlan::DeleteFinal(p) => well_formed(*p.input, ready),
        PhysicalPlan::DistributedCopyIntoTable(_) => true,
    }
}

/// A plan that can be built can also be built by a builder that is ready for
/// a runtime-filter source.
pub proof fn lemma_well_formed_ready(plan: PhysicalPlan, a: bool, b: bool)
    requires
        well_formed(plan, a),
        a ==> b,
    ensures
        well_formed(plan, b),
    decreases plan,
{
    match plan {
        PhysicalPlan::TableScan(_) => {},
        PhysicalPlan::Filter(p) => lemma_well_formed_ready(*p.input, a, b),
        PhysicalPlan::Project(p) => lemma_well_formed_ready(*p.input, a, b),
        PhysicalPlan::EvalScalar(p) => lemma_well_formed_ready(*p.input, a, b),
        PhysicalPlan::ProjectSet(p) => lemma_well_formed_ready(*p.input, a, b),
        PhysicalPlan::AggregateExpand(p) => lemma_well_formed_ready(*p.input, a, b),
        PhysicalPlan::AggregatePartial(p) => lemma_well_formed_ready(*p.input, a, b),
        PhysicalPlan::AggregateFinal(p) => lemma_well_formed_ready(*p.input, a, b),
        PhysicalPlan::Window(p) => lemma_well_formed_ready(*p.input, a, b),
        PhysicalPlan::Sort(p) => lemma_well_formed_ready(*p.input, a, b),
        PhysicalPlan::Limit(p) => lemma_well_formed_ready(*p.input, a, b),
        PhysicalPlan::RowFetch(p) => lemma_well_formed_ready(*p.input, a, b),
        PhysicalPlan::HashJoin(p) => lemma_well_formed_ready(
            *p.probe,
            a || p.contain_runtime_filter,
            b || p.contain_runtime_filter,
        ),
        PhysicalPlan::RangeJoin(p) => lemma_well_formed_ready(*p.left, a, b),
        PhysicalPlan::Exchange(_) => {},
        PhysicalPlan::UnionAll(p) => lemma_well_formed_ready(*p.left, a, b),
        PhysicalPlan::RuntimeFilterSource(p) => lemma_well_formed_ready(*p.left_side, a, b),
        PhysicalPlan::DistributedInsertSelect(p) => lemma_well_formed_ready(*p.input, a, b),
        PhysicalPlan::ExchangeSource(_) => {},
        PhysicalPlan::ExchangeSink(p) => lemma_well_formed_ready(*p.input, a, b),
        PhysicalPlan::DeletePartial(_) => {},
        PhysicalPlan::DeleteFinal(p) => lemma_well_formed_ready(*p.input, a, b),
        PhysicalPlan::DistributedCopyIntoTable(_) => {},
    }
}

/// Whether the builder, as it walks `plan`, meets an exchange that was not
/// split into a source and a sink.
pub open spec fn walks_exchange(plan: PhysicalPlan) -> bool
    decreases plan,
{
    match plan {
        PhysicalPlan::TableScan(_) => false,
        PhysicalPlan::Filter(p) => walks_exchange(*p.input),
        PhysicalPlan::Project(p) => walks_exchange(*p.input),
        PhysicalPlan::EvalScalar(p) => walks_exchange(*p.input),
        PhysicalPlan::ProjectSet(p) => walks_exchange(*p.input),
        PhysicalPlan::AggregateExpand(p) => walks_exchange(*p.input),
        PhysicalPlan::AggregatePartial(p) => walks_exchange(*p.input),
        PhysicalPlan::AggregateFinal(p) => walks_exchange(*p.input),
        PhysicalPlan::Window(p) => walks_exchange(*p.input),
        PhysicalPlan::Sort(p) => walks_exchange(*p.input),
        PhysicalPlan::Limit(p) => walks_exchange(*p.input),
        PhysicalPlan::RowFetch(p) => walks_exchange(*p.input),
        PhysicalPlan::HashJoin(p) => walks_exchange(*p.build) || walks_exchange(*p.probe),
        PhysicalPlan::RangeJoin(p) => walks_exchange(*p.right) || walks_exchange(*p.left),
        PhysicalPlan::Exchange(_) => true,
        PhysicalPlan::UnionAll(p) => walks_exchange(*p.left) || walks_exchange(*p.right),
        PhysicalPlan::RuntimeFilterSource(p) => walks_exchange(*p.left_side),
        PhysicalPlan::DistributedInsertSelect(p) => walks_exchange(*p.input),
        PhysicalPlan::ExchangeSource(_) => false,
        PhysicalPlan::ExchangeSink(p) => walks_exchange(*p.input),
        PhysicalPlan::DeletePartial(_) => false,
        PhysicalPlan::DeleteFinal(p) => walks_exchange(*p.input),
        PhysicalPlan::DistributedCopyIntoTable(_) => false,
    }
}

/// A table scan: the sources of the storage engine, then the internal
/// columns if asked for, then a projection if the columns do not come in the
/// order of the table.
#[verifier::opaque]
pub open spec fn scan_step(
    env: BuildEnv,
    st: BuilderView,
    scan: TableScan,
) -> Result<BuilderView, Failure> {
    if scan.source.streams == 0 {
        Err(no_source_ports())
    } else if scan.internal_column is Some && !scan.source.support_row_id_column {
        Err(no_row_id(scan.source.engine@))
    } else {
        let read = st.main.with_source(
            plain(Processor::TableSource { plan_id: scan.plan_id }),
            scan.source.streams as int,
        );
        let filled = if scan.internal_column is Some {
            read.with_transform(
                counted(env, Processor::FillInternalColumn { plan_id: scan.plan_id }, scan.plan_id),
                None,
            )
        } else {
            read
        };
        match scan_projection(
            scan.source.schema@,
            scan.name_mapping@,
            scan.name_mapping@.len() as int,
        ) {
            None => Err(no_field()),
            Some(projection) => if is_sequential(projection, scan.source.schema@.len() as int) {
                Ok(st.with_main(filled))
            } else {
                Ok(
                    st.with_main(
                        filled.with_transform(
                            counted(env, Processor::Project, scan.plan_id),
                            Some(
                                OperatorView::Project {
                                    projection,
                                    num_input_columns: scan.source.schema@.len() as usize,
                                },
                            ),
                        ),
                    ),
                )
            },
        }
    }
}

#[verifier::opaque]
pub open spec fn filter_step(
    env: BuildEnv,
    s: BuilderView,
    filter: Filter,
) -> Result<BuilderView, Failure> {
    if filter.predicates@.len() == 0 {
        Err(empty_predicates())
    } else {
        Ok(
            s.with_main(
                s.main.with_transform(
                    counted(env, Processor::Filter, filter.plan_id),
                    Some(
                        OperatorView::Filter {
                            expr: and_filters(filter.predicates@, filter.predicates@.len() as int),
                            num_input_columns: filter.input.schema().fields@.len() as usize,
                        },
                    ),
                ),
            ),
        )
    }
}

#[verifier::opaque]
pub open spec fn project_step(
    env: BuildEnv,
    s: BuilderView,
    project: Project,
) -> Result<BuilderView, Failure> {
    Ok(
        s.with_main(
            s.main.with_transform(
                counted(env, Processor::Project, project.plan_id),
                Some(
                    OperatorView::Project {
                        projection: project.projections@,
                        num_input_columns: project.input.schema().fields@.len() as usize,
                    },
                ),
            ),
        ),
    )
}

#[verifier::opaque]
pub open spec fn eval_scalar_step(
    env: BuildEnv,
    s: BuilderView,
    eval_scalar: EvalScalar,
) -> Result<BuilderView, Failure> {
    let exprs = computed_exprs(
        eval_scalar.exprs@,
        eval_scalar.input.schema().fields@,
        eval_scalar.exprs@.len() as int,
    );
    if exprs.len() == 0 {
        Ok(s)
    } else {
        Ok(
            s.with_main(
                s.main.with_transform(
                    counted(env, Processor::BlockMap, eval_scalar.plan_id),
                    Some(
                        OperatorView::BlockMap {
                            exprs,
                            num_input_columns: eval_scalar.input.schema().fields@.len() as usize,
                        },
                    ),
                ),
            ),
        )
    }
}

#[verifier::opaque]
pub open spec fn project_set_step(
    env: BuildEnv,
    s: BuilderView,
    project_set: ProjectSet,
) -> Result<BuilderView, Failure> {
    Ok(
        s.with_main(
            s.main.with_transform(
                counted(env, Processor::FlatMap, project_set.plan_id),
                Some(
                    OperatorView::FlatMap {
                        srf_exprs: exprs_of(project_set.srf_exprs@),
                        num_input_columns: project_set.input.schema().fields@.len() as usize,
                    },
                ),
            ),
        ),
    )
}

#[verifier::opaque]
pub open spec fn aggregate_expand_step(
    env: BuildEnv,
    s: BuilderView,
    expand: AggregateExpand,
) -> Result<BuilderView, Failure> {
    match grouping(expand) {
        None => Err(no_field()),
        Some(found) => Ok(
            s.with_main(
                s.main.with_transform(
                    counted(env, Processor::ExpandGroupingSets, expand.plan_id),
                    Some(
                        OperatorView::ExpandGroupingSets {
                            group_bys: found.0,
                            grouping_ids: found.1,
                        },
                    ),
                ),
            ),
        ),
    }
}

#[verifier::opaque]
pub open spec fn aggregate_partial_step(
    env: BuildEnv,
    s: BuilderView,
    aggregate: AggregatePartial,
) -> Result<BuilderView, Failure> {
    match aggregator_params(
        aggregate.input.schema().fields@,
        aggregate.group_by@,
        aggregate.agg_funcs@.len() as usize,
        None,
    ) {
        None => Err(no_field()),
        Some(params) => if params.group_columns.len() == 0 {
            Ok(
                s.with_main(
                    s.main.with_transform(
                        counted(env, Processor::PartialSingleStateAggregator, aggregate.plan_id),
                        Some(OperatorView::Aggregator { params }),
                    ),
                ),
            )
        } else {
            let method = hash_method(
                params.group_data_types,
                env.settings.efficiently_memory_group_by,
            );
            let with_states = params.aggregate_functions != 0;
            let partial = s.main.with_transform(
                counted(
                    env,
                    if with_states {
                        Processor::PartialAggregate { method }
                    } else {
                        Processor::PartialGroupBy { method }
                    },
                    aggregate.plan_id,
                ),
                Some(OperatorView::Aggregator { params }),
            );
            let spilling = if env.cluster_is_empty && env.settings.spilling_bytes_threshold_per_proc
                != 0 {
                if with_states {
                    partial.with_transform(
                        counted(env, Processor::AggregateSpillWriter { method }, aggregate.plan_id),
                        Some(
                            OperatorView::SpillWriter {
                                location_prefix: spill_prefix(env.tenant),
                                aggregator: Some(params),
                            },
                        ),
                    )
                } else {
                    partial.with_transform(
                        counted(env, Processor::GroupBySpillWriter { method }, aggregate.plan_id),
                        Some(
                            OperatorView::SpillWriter {
                                location_prefix: spill_prefix(env.tenant),
                                aggregator: None,
                            },
                        ),
                    )
                }
            } else {
                partial
            };
            Ok(
                s.with_main(spilling).with_injector(
                    ExchangeInjector::Aggregate { method, with_states },
                ),
            )
        },
    }
}

/// The injector under which the input of a final aggregation is built: that
/// of the aggregation if the input arrives from an exchange, else the one in
/// place.
pub open spec fn final_injector(
    env: BuildEnv,
    st: BuilderView,
    aggregate: AggregateFinal,
) -> ExchangeInjector {
    match aggregator_params(
        aggregate.before_group_by_schema.fields@,
        aggregate.group_by@,
        aggregate.agg_funcs@.len() as usize,
        aggregate.limit,
    ) {
        Some(params) => if params.group_columns.len() != 0 && *aggregate.input
            is ExchangeSource {
            ExchangeInjector::Aggregate {
                method: hash_method(
                    params.group_data_types,
                    env.settings.efficiently_memory_group_by,
                ),
                with_states: params.aggregate_functions != 0,
            }
        } else {
            st.injector
        },
        None => st.injector,
    }
}

/// A final aggregation, once its input is built into `s`; `before` is the
/// injector that was in place before the input was built.
#[verifier::opaque]
pub open spec fn aggregate_final_step(
    env: BuildEnv,
    s: BuilderView,
    aggregate: AggregateFinal,
    before: ExchangeInjector,
) -> Result<BuilderView, Failure> {
    match aggregator_params(
        aggregate.before_group_by_schema.fields@,
        aggregate.group_by@,
        aggregate.agg_funcs@.len() as usize,
        aggregate.limit,
    ) {
        None => Err(no_field()),
        Some(params) => if params.group_columns.len() == 0 {
            match try_resized(s.main, 1) {
                Err(e) => Err(e),
                Ok(single) => Ok(
                    s.with_main(
                        single.with_transform(
                            counted(env, Processor::FinalSingleStateAggregator, aggregate.plan_id),
                            Some(OperatorView::Aggregator { params }),
                        ),
                    ),
                ),
            }
        } else {
            match partition_bucket(
                s.main,
                hash_method(params.group_data_types, env.settings.efficiently_memory_group_by),
                params,
            ) {
                Err(e) => Err(e),
                Ok(merged) => Ok(s.with_main(merged).with_injector(before)),
            }
        },
    }
}

#[verifier::opaque]
pub open spec fn window_step(
    env: BuildEnv,
    s: BuilderView,
    window: Window,
) -> Result<BuilderView, Failure> {
    match window_params(window) {
        None => Err(no_field()),
        Some(params) => {
            let sorted = if params.partition_by.len() != 0 || params.order_by.len() != 0 {
                sort_pipeline(env, s.main, params.sort_desc, window.plan_id, None, false)
            } else {
                Ok(s.main)
            };
            match sorted {
                Err(e) => Err(e),
                Ok(p) => match try_resized(p, 1) {
                    Err(e) => Err(e),
                    Ok(single) => match try_resized(
                        single.with_transform(
                            counted(
                                env,
                                Processor::Window { plan_id: window.plan_id, frame: params.frame },
                                window.plan_id,
                            ),
                            Some(
                                OperatorView::Window {
                                    partition_by: params.partition_by,
                                    order_by: params.order_by,
                                    start_bound: window.start_bound,
                                    end_bound: window.end_bound,
                                },
                            ),
                        ),
                        s.main.output_len(),
                    ) {
                        Err(e) => Err(e),
                        Ok(spread) => Ok(s.with_main(spread)),
                    },
                },
            }
        },
    }
}

#[verifier::opaque]
pub open spec fn sort_step(
    env: BuildEnv,
    s: BuilderView,
    sort: Sort,
) -> Result<BuilderView, Failure> {
    let fields = sort.input.schema().fields@;
    match offsets_of(fields, sort_keys(sort.order_by@), sort.order_by@.len() as int) {
        None => Err(no_field()),
        Some(offsets) => match sort_pipeline(
            env,
            s.main,
            sort_description(fields, sort.order_by@, offsets),
            sort.plan_id,
            sort.limit,
            sort.after_exchange,
        ) {
            Err(e) => Err(e),
            Ok(sorted) => Ok(s.with_main(sorted)),
        },
    }
}

#[verifier::opaque]
pub open spec fn limit_step(
    env: BuildEnv,
    s: BuilderView,
    limit: Limit,
) -> Result<BuilderView, Failure> {
    match try_resized(s.main, 1) {
        Err(e) => Err(e),
        Ok(single) => Ok(
            s.with_main(
                single.with_transform(
                    counted(
                        env,
                        Processor::Limit { limit: limit.limit, offset: limit.offset },
                        limit.plan_id,
                    ),
                    None,
                ),
            ),
        ),
    }
}

#[verifier::opaque]
pub open spec fn row_fetch_step(
    env: BuildEnv,
    s: BuilderView,
    row_fetch: RowFetch,
) -> Result<BuilderView, Failure> {
    Ok(
        s.with_main(
            s.main.with_transform(
                counted(env, Processor::RowFetcher { plan_id: row_fetch.plan_id }, row_fetch.plan_id),
                None,
            ),
        ),
    )
}

/// The build side of a hash join, once it is built on its own into `built`:
/// with a runtime filter its outputs are doubled and left open for the
/// runtime-filter source, which the builder remembers the join for; without
/// one they get their sinks at once.
#[verifier::opaque]
pub open spec fn build_side_step(
    env: BuildEnv,
    st: BuilderView,
    join: HashJoin,
    built: BuildResultView,
) -> Result<BuilderView, Failure> {
    if join.contain_runtime_filter {
        if built.main.can_duplicate() {
            Ok(
                BuilderView {
                    join_state: Some(join.plan_id),
                    index: Some(st.sides.len() as usize),
                    ..st.with_side(built.main.duplicated(false), built.sources)
                },
            )
        } else {
            Err(cannot_duplicate())
        }
    } else {
        Ok(
            st.with_side(
                built.main.with_sink(
                    counted(env, Processor::HashJoinBuild { join: join.plan_id }, join.plan_id),
                ),
                built.sources,
            ),
        )
    }
}

#[verifier::opaque]
pub open spec fn join_probe_step(
    env: BuildEnv,
    s: BuilderView,
    join: HashJoin,
) -> Result<BuilderView, Failure> {
    let probed = s.main.with_transform(
        counted(
            env,
            Processor::HashJoinProbe {
                join: join.plan_id,
                join_type: join.join_type,
                has_non_equi_conditions: join.non_equi_conditions@.len() != 0,
            },
            join.plan_id,
        ),
        None,
    );
    if join.join_type == JoinType::LeftMark {
        match try_resized(probed, 1) {
            Err(e) => Err(e),
            Ok(single) => Ok(
                s.with_main(
                    single.with_transform(
                        counted(env, Processor::MarkJoin { join: join.plan_id }, join.plan_id),
                        None,
                    ),
                ),
            ),
        }
    } else {
        Ok(s.with_main(probed))
    }
}

#[verifier::opaque]
pub open spec fn range_join_right_step(
    env: BuildEnv,
    st: BuilderView,
    range_join: RangeJoin,
    built: BuildResultView,
) -> BuilderView {
    st.with_side(
        built.main.with_sink(
            counted(
                env,
                Processor::RangeJoinRight { join: range_join.plan_id },
                range_join.plan_id,
            ),
        ),
        built.sources,
    )
}

#[verifier::opaque]
pub open spec fn range_join_left_step(env: BuildEnv, s: BuilderView,
    range_join: RangeJoin) -> Result<BuilderView, Failure> {
    match try_resized(s.main, env.settings.max_threads) {
        Err(e) => Err(e),
        Ok(spread) => Ok(
            s.with_main(
                spread.with_transform(
                    counted(
                        env,
                        Processor::RangeJoinLeft { join: range_join.plan_id },
                        range_join.plan_id,
                    ),
                    None,
                ),
            ),
        ),
    }
}

/// The right side of a union, once it is built on its own into `built`, and
/// the processor that merges it into the left.
#[verifier::opaque]
pub open spec fn union_step(
    env: BuildEnv,
    s: BuilderView,
    union_all: UnionAll,
    built: BuildResultView,
) -> BuilderView {
    let sent = s.with_side(
        built.main.with_sink(
            counted(
                env,
                Processor::UnionReceiveSink { union: union_all.plan_id },
                union_all.plan_id,
            ),
        ),
        built.sources,
    );
    sent.with_main(
        sent.main.with_transform(
            counted(env, Processor::MergeBlock { union: union_all.plan_id }, union_all.plan_id),
            Some(
                OperatorView::MergeBlock {
                    left_fields: union_all.left.schema().fields@,
                    right_fields: union_all.right.schema().fields@,
                    pairs: union_all.pairs@,
                },
            ),
        ),
    )
}

/// What receives the output of the fragment behind `exchange_source`: one
/// source for each stream in which it arrives, reading as `injector` has it,
/// and no pipeline on the side; `Internal` if it arrives in no stream.
pub open spec fn fragment_source(
    exchange_source: ExchangeSource,
    injector: ExchangeInjector,
) -> Result<BuildResultView, Failure> {
    if exchange_source.streams == 0 {
        Err(no_source_ports())
    } else {
        Ok(
            BuildResultView {
                main: empty_pipeline().with_source(
                    plain(
                        Processor::ExchangeSource {
                            fragment_id: exchange_source.source_fragment_id,
                            injector,
                        },
                    ),
                    exchange_source.streams as int,
                ),
                sources: Seq::empty(),
                injector,
            },
        )
    }
}

/// A builder with `fragment` put in place: its main pipeline becomes the
/// main pipeline, and its side pipelines are added to those of the builder.
pub open spec fn exchange_source_step(st: BuilderView, fragment: BuildResultView) -> BuilderView {
    BuilderView { main: fragment.main, sides: st.sides + fragment.sources, ..st }
}

/// A builder that is `ready`, with the sinks of runtime-filter source
/// `source` put behind the build side that waits for them.
#[verifier::opaque]
pub open spec fn runtime_filter_sinks_step(st: BuilderView, source: u32) -> BuilderView {
    BuilderView {
        sides: st.sides.update(
            st.index->0 as int,
            st.sides[st.index->0 as int].with_pipe(
                runtime_filter_sinks(
                    st.join_state->0,
                    source,
                    st.sides[st.index->0 as int].output_len(),
                ),
            ),
        ),
        ..st
    }
}

#[verifier::opaque]
pub open spec fn runtime_filter_step(
    env: BuildEnv,
    s: BuilderView,
    runtime_filter_source: RuntimeFilterSource,
) -> Result<BuilderView, Failure> {
    Ok(
        s.with_main(
            s.main.with_transform(
                counted(
                    env,
                    Processor::RuntimeFilter { source: runtime_filter_source.plan_id },
                    runtime_filter_source.plan_id,
                ),
                None,
            ),
        ),
    )
}

/// What rendering a result set adds to `pipeline`: a sink that drops
/// everything if the result is ignored, else a projection onto the result
/// columns; `BadArguments` if the schema lacks one of them.
#[verifier::opaque]
pub open spec fn rendered(
    pipeline: PipelineView,
    fields: Seq<DataField>,
    result_columns: Seq<crate::executor::ColumnBinding>,
    ignore_result: bool,
) -> Result<PipelineView, Failure> {
    if ignore_result {
        Ok(pipeline.with_sink(plain(Processor::EmptySink)))
    } else {
        match offsets_of(fields, binding_indexes(result_columns), result_columns.len() as int) {
            None => Err(no_field()),
            Some(projection) => Ok(
                pipeline.with_transform(
                    plain(Processor::Project),
                    Some(
                        OperatorView::Project {
                            projection,
                            num_input_columns: fields.len() as usize,
                        },
                    ),
                ),
            ),
        }
    }
}

#[verifier::opaque]
pub open spec fn insert_select_step(
    env: BuildEnv,
    s: BuilderView,
    insert_select: DistributedInsertSelect,
) -> Result<BuilderView, Failure> {
    match rendered(
        s.main,
        insert_select.input.schema().fields@,
        insert_select.select_column_bindings@,
        false,
    ) {
        Err(e) => Err(e),
        Ok(selected) => {
            let cast = if insert_select.cast_needed {
                selected.with_transform(
                    counted(
                        env,
                        Processor::CastSchema { plan_id: insert_select.plan_id },
                        insert_select.plan_id,
                    ),
                    None,
                )
            } else {
                selected
            };
            Ok(
                s.with_main(
                    cast.with_transform(
                        counted(
                            env,
                            Processor::FillMissingColumns { plan_id: insert_select.plan_id },
                            insert_select.plan_id,
                        ),
                        None,
                    ).with_sink(plain(Processor::AppendSink { plan_id: insert_select.plan_id })),
                ),
            )
        },
    }
}

#[verifier::opaque]
pub open spec fn delete_partial_step(env: BuildEnv, st: BuilderView,
    delete: DeletePartial) -> Result<BuilderView, Failure> {
    if delete.streams == 0 {
        Err(no_source_ports())
    } else {
        Ok(
            st.with_main(
                st.main.with_source(
                    plain(Processor::MutationSource { plan_id: delete.plan_id }),
                    delete.streams as int,
                ).with_transform(
                    counted(env, Processor::SerializeData { plan_id: delete.plan_id }, delete.plan_id),
                    None,
                ),
            ),
        )
    }
}

#[verifier::opaque]
pub open spec fn delete_final_step(
    env: BuildEnv,
    s: BuilderView,
    delete: DeleteFinal,
) -> Result<BuilderView, Failure> {
    match try_resized(s.main, 1) {
        Err(e) => Err(e),
        Ok(single) => Ok(
            s.with_main(
                single.with_transform(
                    counted(
                        env,
                        Processor::MutationAggregator { plan_id: delete.plan_id },
                        delete.plan_id,
                    ),
                    None,
                ).with_sink(plain(Processor::CommitSink { plan_id: delete.plan_id })),
            ),
        ),
    }
}

#[verifier::opaque]
pub open spec fn copy_into_table_step(
    env: BuildEnv,
    st: BuilderView,
    copy: DistributedCopyIntoTable,
) -> Result<BuilderView, Failure> {
    if copy.streams == 0 {
        Err(no_source_ports())
    } else {
        Ok(
            st.with_main(
                st.main.with_source(
                    plain(Processor::StageSource { plan_id: copy.plan_id }),
                    copy.streams as int,
                ).with_sink(plain(Processor::AppendSink { plan_id: copy.plan_id })),
            ),
        )
    }
}

/// Every pipeline of `sides` is complete.
pub open spec fn all_complete(sides: Seq<PipelineView>) -> bool {
    forall|i: int| 0 <= i < sides.len() ==> (#[trigger] sides[i]).is_complete()
}

/// What a finished build hands over: what was built, if every side pipeline
/// is complete; else `Internal`.
pub open spec fn handed_over(
    built: Result<BuilderView, Failure>,
) -> Result<BuildResultView, Failure> {
    match built {
        Err(e) => Err(e),
        Ok(s) => if all_complete(s.sides) {
            Ok(BuildResultView { main: s.main, sources: s.sides, injector: s.injector })
        } else {
            Err(open_side())
        },
    }
}

/// What building `plan` makes of a builder: the builder afterwards, or the
/// failure that the build ends with.
pub open spec fn built(
    env: BuildEnv,
    st: BuilderView,
    plan: PhysicalPlan,
) -> Result<BuilderView, Failure>
    decreases plan,
{
    match plan {
        PhysicalPlan::TableScan(p) => scan_step(env, st, p),
        PhysicalPlan::Filter(p) => match built(env, st, *p.input) {
            Err(e) => Err(e),
            Ok(s) => filter_step(env, s, p),
        },
        PhysicalPlan::Project(p) => match built(env, st, *p.input) {
            Err(e) => Err(e),
            Ok(s) => project_step(env, s, p),
        },
        PhysicalPlan::EvalScalar(p) => match built(env, st, *p.input) {
            Err(e) => Err(e),
            Ok(s) => eval_scalar_step(env, s, p),
        },
        PhysicalPlan::ProjectSet(p) => match built(env, st, *p.input) {
            Err(e) => Err(e),
            Ok(s) => project_set_step(env, s, p),
        },
        PhysicalPlan::AggregateExpand(p) => match built(env, st, *p.input) {
            Err(e) => Err(e),
            Ok(s) => aggregate_expand_step(env, s, p),
        },
        PhysicalPlan::AggregatePartial(p) => match built(env, st, *p.input) {
            Err(e) => Err(e),
            Ok(s) => aggregate_partial_step(env, s, p),
        },
        PhysicalPlan::AggregateFinal(p) => if aggregator_params(
            p.before_group_by_schema.fields@,
            p.group_by@,
            p.agg_funcs@.len() as usize,
            p.limit,
        ) is None {
            Err(no_field())
        } else {
            match built(env, st.with_injector(final_injector(env, st, p)), *p.input) {
                Err(e) => Err(e),
                Ok(s) => aggregate_final_step(env, s, p, st.injector),
            }
        },
        PhysicalPlan::Window(p) => match built(env, st, *p.input) {
            Err(e) => Err(e),
            Ok(s) => window_step(env, s, p),
        },
        PhysicalPlan::Sort(p) => match built(env, st, *p.input) {
            Err(e) => Err(e),
            Ok(s) => sort_step(env, s, p),
        },
        PhysicalPlan::Limit(p) => match built(env, st, *p.input) {
            Err(e) => Err(e),
            Ok(s) => limit_step(env, s, p),
        },
        PhysicalPlan::RowFetch(p) => match built(env, st, *p.input) {
            Err(e) => Err(e),
            Ok(s) => row_fetch_step(env, s, p),
        },
        PhysicalPlan::HashJoin(p) => match handed_over(built(env, fresh(), *p.build)) {
            Err(e) => Err(e),
            Ok(side) => match build_side_step(env, st, p, side) {
                Err(e) => Err(e),
                Ok(waiting) => match built(env, waiting, *p.probe) {
                    Err(e) => Err(e),
                    Ok(s) => join_probe_step(env, s, p),
                },
            },
        },
        PhysicalPlan::RangeJoin(p) => match handed_over(built(env, fresh(), *p.right)) {
            Err(e) => Err(e),
            Ok(side) => match built(env, range_join_right_step(env, st, p, side), *p.left) {
                Err(e) => Err(e),
                Ok(s) => range_join_left_step(env, s, p),
            },
        },
        PhysicalPlan::Exchange(_) => Err(bare_exchange()),
        PhysicalPlan::UnionAll(p) => match built(env, st, *p.left) {
            Err(e) => Err(e),
            Ok(s) => match handed_over(built(env, fresh(), *p.right)) {
                Err(e) => Err(e),
                Ok(side) => Ok(union_step(env, s, p, side)),
            },
        },
        PhysicalPlan::RuntimeFilterSource(p) => match built(
            env,
            runtime_filter_sinks_step(st, p.plan_id),
            *p.left_side,
        ) {
            Err(e) => Err(e),
            Ok(s) => runtime_filter_step(env, s, p),
        },
        PhysicalPlan::DistributedInsertSelect(p) => match built(env, st, *p.input) {
            Err(e) => Err(e),
            Ok(s) => insert_select_step(env, s, p),
        },
        PhysicalPlan::ExchangeSource(p) => match fragment_source(p, st.injector) {
            Err(e) => Err(e),
            Ok(fragment) => Ok(exchange_source_step(st, fragment)),
        },
        PhysicalPlan::ExchangeSink(p) => built(env, st, *p.input),
        PhysicalPlan::DeletePartial(p) => delete_partial_step(env, st, p),
        PhysicalPlan::DeleteFinal(p) => match built(env, st, *p.input) {
            Err(e) => Err(e),
            Ok(s) => delete_final_step(env, s, p),
        },
        PhysicalPlan::DistributedCopyIntoTable(p) => copy_into_table_step(env, st, p),
    }
}

/// The result of an operation on a builder is as `expected` says: it
/// succeeded and left the builder as told, or failed with the failure told.
pub open spec fn agrees(
    r: Result<(), ErrorCode>,
    after: BuilderView,
    expected: Result<BuilderView, Failure>,
) -> bool {
    match expected {
        Ok(s) => r is Ok && after == s,
        Err(f) => r matches Err(e) && e@ == f,
    }
}

} // verus!

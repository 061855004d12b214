//! The builder that lays a physical plan out as pipelines.
//!
//! The builder walks the plan from the root. What a node reads from is built
//! first, into the main pipeline; the node then adds its own processors to the
//! end of it. Inputs that feed shared state, such as the build side of a hash
//! join or the right side of a union, are built by a builder of their own, are
//! closed with sinks, and go to the list of pipelines that must run first.

use crate::exception::ErrorCode;
use crate::exception::Failure;
use crate::expression::no_field;
use crate::executor::AggregateExpand;
use crate::executor::AggregateFinal;
use crate::executor::AggregateFunctionDesc;
use crate::executor::AggregatePartial;
use crate::executor::ColumnBinding;
use crate::executor::DeleteFinal;
use crate::executor::DeletePartial;
use crate::executor::DistributedCopyIntoTable;
use crate::executor::DistributedInsertSelect;
use crate::executor::EvalScalar;
use crate::executor::ExchangeSink;
use crate::executor::ExchangeSource;
use crate::executor::Filter;
use crate::executor::HashJoin;
use crate::executor::Limit;
use crate::executor::PhysicalPlan;
use crate::executor::Project;
use crate::executor::ProjectSet;
use crate::executor::RangeJoin;
use crate::executor::RowFetch;
use crate::executor::RuntimeFilterSource;
use crate::executor::Sort;
use crate::executor::TableScan;
use crate::executor::UnionAll;
use crate::executor::Window;
use crate::expression::DataField;
use crate::expression::DataSchema;
use crate::expression::FunctionContext;
use crate::expression::IndexType;
use crate::pipelines::builder_spec::BuildEnv;
use crate::pipelines::builder_spec::BuildResultView;
use crate::pipelines::builder_spec::BuilderView;
use crate::pipelines::builder_spec::aggregate_expand_step;
use crate::pipelines::builder_spec::aggregate_final_step;
use crate::pipelines::builder_spec::aggregate_partial_step;
use crate::pipelines::builder_spec::aggregator_params;
use crate::pipelines::builder_spec::agrees;
use crate::pipelines::builder_spec::window_step;
use crate::pipelines::builder_spec::union_step;
use crate::pipelines::builder_spec::sort_step;
use crate::pipelines::builder_spec::scan_step;
use crate::pipelines::builder_spec::sides_wf;
use crate::pipelines::builder_spec::row_fetch_step;
use crate::pipelines::builder_spec::project_step;
use crate::pipelines::builder_spec::project_set_step;
use crate::pipelines::builder_spec::limit_step;
use crate::pipelines::builder_spec::insert_select_step;
use crate::pipelines::builder_spec::filter_step;
use crate::pipelines::builder_spec::exchange_source_step;
use crate::pipelines::builder_spec::fragment_source;
use crate::pipelines::builder_spec::eval_scalar_step;
use crate::pipelines::builder_spec::delete_partial_step;
use crate::pipelines::builder_spec::delete_final_step;
use crate::pipelines::builder_spec::copy_into_table_step;
use crate::pipelines::builder_spec::all_complete;
use crate::pipelines::builder_spec::bare_exchange;
use crate::pipelines::builder_spec::no_row_id;
use crate::pipelines::builder_spec::build_side_step;
use crate::pipelines::builder_spec::built;
use crate::pipelines::builder_spec::counted;
use crate::pipelines::builder_spec::empty_pipeline;
use crate::pipelines::builder_spec::fresh;
use crate::pipelines::builder_spec::full_sort;
use crate::pipelines::builder_spec::gives_rows;
use crate::pipelines::builder_spec::handed_over;
use crate::pipelines::builder_spec::join_probe_step;
use crate::pipelines::builder_spec::lemma_well_formed_ready;
use crate::pipelines::builder_spec::partition_bucket;
use crate::pipelines::builder_spec::range_join_left_step;
use crate::pipelines::builder_spec::range_join_right_step;
use crate::pipelines::builder_spec::rendered;
use crate::pipelines::builder_spec::runtime_filter_sinks;
use crate::pipelines::builder_spec::runtime_filter_sinks_step;
use crate::pipelines::builder_spec::runtime_filter_step;
use crate::pipelines::builder_spec::sort_pipeline;
use crate::pipelines::builder_spec::spill_prefix;
use crate::pipelines::builder_spec::walks_exchange;
use crate::pipelines::builder_spec::well_formed;
use crate::pipelines::operators::binding_indexes;
use crate::pipelines::operators::build_computed_exprs;
use crate::pipelines::operators::build_grouping;
use crate::pipelines::operators::build_window_params;
use crate::pipelines::operators::build_exprs;
use crate::pipelines::operators::build_scan_projection;
use crate::pipelines::operators::build_sort_description;
use crate::pipelines::operators::check_sequential;
use crate::pipelines::operators::choose_hash_method;
use crate::pipelines::operators::lemma_offsets_of;
use crate::pipelines::operators::lookup_all;
use crate::pipelines::operators::reduce_and_filters;
use crate::pipelines::pipeline::AggregatorParams;
use crate::pipelines::pipeline::ExchangeInjector;
use crate::pipelines::pipeline::HashMethodKind;
use crate::pipelines::pipeline::JoinType;
use crate::pipelines::pipeline::OperatorParams;
use crate::pipelines::pipeline::OperatorView;
use crate::pipelines::pipeline::Pipe;
use crate::pipelines::pipeline::PipeItem;
use crate::pipelines::pipeline::Pipeline;
use crate::pipelines::pipeline::PipelineView;
use crate::pipelines::pipeline::Processor;
use crate::pipelines::pipeline::ProcessorPtr;
use crate::pipelines::pipeline::ProfileWrapper;
use crate::pipelines::pipeline::SharedProcessorProfiles;
use crate::pipelines::pipeline::SortColumnDescription;
use crate::pipelines::pipeline::lemma_no_pipes_wf;
use crate::pipelines::pipeline::lemma_uniform_ports;
use crate::pipelines::pipeline::lemma_with_pipe_wf;
use crate::sessions::QueryContext;
use vstd::prelude::*;

verus! {

/// What a finished build hands over: the main pipeline, the pipelines that
/// must run before it, where their processors report to, and the injector
/// for the exchange that may follow.
#[derive(Debug)]
pub struct PipelineBuildResult {
    pub main_pipeline: Pipeline,
    pub sources_pipelines: Vec<Pipeline>,
    pub prof_span_set: SharedProcessorProfiles,
    pub exchange_injector: ExchangeInjector,
}

/// The views of a list of pipelines.
pub open spec fn pipelines_view(pipelines: Seq<Pipeline>) -> Seq<PipelineView> {
    pipelines.map_values(|p: Pipeline| p@)
}

impl View for PipelineBuildResult {
    type V = BuildResultView;

    open spec fn view(&self) -> BuildResultView {
        BuildResultView {
            main: self.main_pipeline@,
            sources: pipelines_view(self.sources_pipelines@),
            injector: self.exchange_injector,
        }
    }
}

pub struct PipelineBuilder {
    pub ctx: QueryContext,
    pub main_pipeline: Pipeline,
    pub pipelines: Vec<Pipeline>,
    /// The hash join whose build side waits for a runtime-filter source.
    pub join_state: Option<u32>,
    /// Where the build side of that join stands in `pipelines`.
    pub index: Option<usize>,
    pub enable_profiling: bool,
    /// Where the processors that are counted report to.
    pub prof_span_set: SharedProcessorProfiles,
    pub exchange_injector: ExchangeInjector,
}

impl View for PipelineBuilder {
    type V = BuilderView;

    open spec fn view(&self) -> BuilderView {
        BuilderView {
            main: self.main_pipeline@,
            sides: pipelines_view(self.pipelines@),
            join_state: self.join_state,
            index: self.index,
            injector: self.exchange_injector,
        }
    }
}

/// Adds the pipelines of `more` to `pipelines`, in their order.
fn extend_pipelines(pipelines: &mut Vec<Pipeline>, more: Vec<Pipeline>)
    ensures
        pipelines_view(final(pipelines)@) == pipelines_view(old(pipelines)@) + pipelines_view(more@),
{
    let mut more = more;
    let ghost all = pipelines_view(more@);
    let ghost start = pipelines_view(pipelines@);
    let mut reversed: Vec<Pipeline> = Vec::new();
    while more.len() > 0
        invariant
            pipelines_view(more@) + pipelines_view(reversed@).reverse() =~= all,
        decreases more@.len(),
    {
        let ghost before = pipelines_view(more@);
        let ghost done = pipelines_view(reversed@);
        let p = more.pop().unwrap();
        reversed.push(p);
        assert(pipelines_view(more@) =~= before.drop_last());
        assert(pipelines_view(reversed@) =~= done.push(p@));
        assert(pipelines_view(reversed@).reverse() =~= seq![p@] + done.reverse());
    }
    assert(pipelines_view(more@) =~= Seq::empty());
    assert(pipelines_view(reversed@).reverse() =~= all);
    while reversed.len() > 0
        invariant
            pipelines_view(pipelines@) + pipelines_view(reversed@).reverse() =~= start + all,
        decreases reversed@.len(),
    {
        let ghost before = pipelines_view(reversed@);
        let ghost done = pipelines_view(pipelines@);
        let p = reversed.pop().unwrap();
        pipelines.push(p);
        assert(pipelines_view(reversed@) =~= before.drop_last());
        assert(pipelines_view(pipelines@) =~= done.push(p@));
        assert(before.reverse() =~= seq![p@] + before.drop_last().reverse());
    }
    assert(pipelines_view(reversed@).reverse() =~= Seq::empty());
    assert(pipelines_view(pipelines@) =~= start + all);
}

/// Adds the full sort of what `pipeline` gives.
pub fn build_full_sort_pipeline(
    pipeline: &mut Pipeline,
    sort_desc: Vec<SortColumnDescription>,
    limit: Option<usize>,
    partial_block_size: usize,
    final_block_size: usize,
    prof_info: Option<ProfileWrapper>,
    after_exchange: bool,
) -> (r: Result<(), ErrorCode>)
    ensures
        (match full_sort(
            old(pipeline)@,
            OperatorView::Sort {
                sort_desc: sort_desc@,
                limit,
                partial_block_size,
                final_block_size,
            },
            limit is Some,
            after_exchange,
            prof_info,
        ) {
            Ok(sorted) => r is Ok && final(pipeline)@ == sorted,
            Err(f) => r matches Err(e) && e@ == f,
        }),
        r is Ok ==> (old(pipeline)@.output_len() != 0 <==> final(pipeline)@.output_len() != 0),
        r is Ok && old(pipeline)@.wf() ==> final(pipeline)@.wf(),
{
    proof {
        reveal(full_sort);
    }
    // Partial sort
    if limit.is_none() || !after_exchange {
        pipeline.add_transform(
            ProcessorPtr { processor: Processor::SortPartial, profile: prof_info },
            Some(OperatorParams::Sort {
                sort_desc: sort_desc.clone(),
                limit,
                partial_block_size,
                final_block_size,
            }),
        )?;
    }
    // Merge sort
    let need_multi_merge = pipeline.output_len() > 1;
    pipeline.add_transform(
        ProcessorPtr { processor: Processor::SortMerge, profile: prof_info },
        Some(OperatorParams::Sort {
                sort_desc: sort_desc.clone(),
                limit,
                partial_block_size,
                final_block_size,
            }),
    )?;
    if need_multi_merge {
        // Multi-pipelines merge sort
        let last_pipe_size = pipeline.output_len();
        if last_pipe_size == 0 {
            return Err(ErrorCode::Internal("Cannot resize empty pipe.".to_string()));
        }
        if last_pipe_size > 1 {
            pipeline.add_merge(
                ProcessorPtr { processor: Processor::MultiSortMerge, profile: prof_info },
                Some(OperatorParams::Sort {
                    sort_desc,
                    limit,
                    partial_block_size,
                    final_block_size,
                }),
            );
        }
    }
    Ok(())
}

/// Adds the merge of partial aggregation states.
pub fn build_partition_bucket(
    pipeline: &mut Pipeline,
    method: HashMethodKind,
    params: AggregatorParams,
) -> (r: Result<(), ErrorCode>)
    ensures
        (match partition_bucket(old(pipeline)@, method, params@) {
            Ok(merged) => r is Ok && final(pipeline)@ == merged,
            Err(f) => r matches Err(e) && e@ == f,
        }),
        r is Ok ==> final(pipeline)@.output_len() == old(pipeline)@.output_len(),
        r is Ok && old(pipeline)@.wf() ==> final(pipeline)@.wf(),
{
    proof {
        reveal(partition_bucket);
    }
    let with_states = params.aggregate_functions != 0;
    let input_nums = pipeline.output_len();
    pipeline.add_merge(
        ProcessorPtr::create(Processor::PartitionBucket { method, with_states }),
        None,
    );
    pipeline.try_resize(input_nums)?;
    pipeline.add_transform(
        ProcessorPtr::create(
            if with_states {
                Processor::AggregateSpillReader
            } else {
                Processor::GroupBySpillReader
            },
        ),
        None,
    )?;
    pipeline.add_transform(
        ProcessorPtr::create(
            if with_states {
                Processor::FinalAggregate { method }
            } else {
                Processor::FinalGroupBy { method }
            },
        ),
        Some(OperatorParams::Aggregator { params }),
    )
}

impl PipelineBuilder {
    /// What the builder runs under.
    pub open spec fn env(&self) -> BuildEnv {
        BuildEnv {
            settings: self.ctx.settings,
            cluster_is_empty: self.ctx.cluster_is_empty,
            tenant: self.ctx.tenant@,
            function_context: self.ctx.function_context,
            enable_profiling: self.enable_profiling,
            prof_span_set: self.prof_span_set,
        }
    }

    pub fn create(
        ctx: QueryContext,
        enable_profiling: bool,
        prof_span_set: SharedProcessorProfiles,
    ) -> (builder: PipelineBuilder)
        ensures
            builder@ == fresh(),
            builder.ctx == ctx,
            builder.enable_profiling == enable_profiling,
            builder.prof_span_set == prof_span_set,
    {
        let builder = PipelineBuilder {
            enable_profiling,
            prof_span_set,
            ctx,
            pipelines: Vec::new(),
            join_state: None,
            main_pipeline: Pipeline::create(),
            exchange_injector: ExchangeInjector::Default,
            index: None,
        };
        assert(builder@.sides =~= Seq::empty());
        assert(builder@.main.pipes =~= Seq::empty());
        assert(builder@.main.operators =~= Seq::empty());
        builder
    }

    /// `processor`, counted for `plan_id` if profiling is on.
    fn counted(&self, processor: Processor, plan_id: u32) -> (ptr: ProcessorPtr)
        ensures
            ptr == counted(self.env(), processor, plan_id),
    {
        ProcessorPtr::profiled(processor, self.enable_profiling, plan_id, self.prof_span_set)
    }

    /// Builds `plan` and hands the pipelines over; `Internal` if a side
    /// pipeline was left open.
    pub fn finalize(self, plan: &PhysicalPlan) -> (r: Result<PipelineBuildResult, ErrorCode>)
        requires
            self.ctx.settings.max_threads >= 1,
            well_formed(*plan, self@.ready()),
        ensures
            (match handed_over(built(self.env(), self@, *plan)) {
                Ok(handed) => r matches Ok(out) && out@ == handed,
                Err(f) => r matches Err(e) && e@ == f,
            }),
            r matches Ok(out) ==> out.prof_span_set == self.prof_span_set,
            r matches Ok(out) ==> all_complete(out@.sources) && !walks_exchange(*plan) && (
            gives_rows(*plan) <==> out@.main.is_pulling()),
            r matches Ok(out) ==> (self@.main.pipes.len() == 0 && sides_wf(self@.sides)
                ==> out@.main.wf() && sides_wf(out@.sources)),
        decreases *plan, 1nat,
    {
        let mut builder = self;
        builder.build_pipeline(plan)?;
        let mut i: usize = 0;
        while i < builder.pipelines.len()
            invariant
                0 <= i <= builder.pipelines@.len(),
                built(self.env(), self@, *plan) == Ok::<BuilderView, Failure>(builder@),
                !walks_exchange(*plan),
                gives_rows(*plan) <==> builder@.main.is_pulling(),
                self@.main.pipes.len() == 0 && sides_wf(self@.sides) ==> builder@.shaped(),
                forall|k: int| 0 <= k < i ==> (#[trigger] builder@.sides[k]).is_complete(),
            decreases builder.pipelines@.len() - i,
        {
            assert(builder@.sides[i as int] == builder.pipelines@[i as int]@);
            if !builder.pipelines[i].is_complete_pipeline()? {
                return Err(
                    ErrorCode::Internal("Source pipeline must be complete pipeline.".to_string()),
                );
            }
            i += 1;
        }
        Ok(
            PipelineBuildResult {
                main_pipeline: builder.main_pipeline,
                sources_pipelines: builder.pipelines,
                prof_span_set: builder.prof_span_set,
                exchange_injector: builder.exchange_injector,
            },
        )
    }

    /// Builds `plan` into this builder. An exchange that was not split into a
    /// source and a sink fails the build and leaves the builder as it was. A
    /// final aggregation by keys leaves the injector that was in place, whether
    /// it succeeds or fails. A filter without a predicate fails once its input
    /// is built, and adds nothing to it.
    pub fn build_pipeline(&mut self, plan: &PhysicalPlan) -> (r: Result<(), ErrorCode>)
        requires
            old(self).ctx.settings.max_threads >= 1,
            well_formed(*plan, old(self)@.ready()),
        ensures
            final(self).env() == old(self).env(),
            agrees(r, final(self)@, built(old(self).env(), old(self)@, *plan)),
            *plan is Exchange ==> (r matches Err(e) && e@ == bare_exchange()) && final(self)@
                == old(self)@,
            *plan matches PhysicalPlan::AggregateFinal(aggregate) ==> (aggregate.group_by@.len()
                != 0 ==> final(self)@.injector == old(self)@.injector),
            *plan matches PhysicalPlan::Filter(filter) ==> (filter.predicates@.len() == 0 ==> (
            built(old(self).env(), old(self)@, *filter.input) matches Ok(s) ==> final(self)@
                == s)),
            r is Ok ==> !walks_exchange(*plan) && (old(self)@.ready() ==> final(self)@.ready())
                && (gives_rows(*plan) <==> final(self)@.main.is_pulling()),
            r is Ok && old(self)@.main.pipes.len() == 0 && sides_wf(old(self)@.sides)
                ==> final(self)@.shaped(),
        decreases *plan, 0nat,
    {
        match plan {
            PhysicalPlan::TableScan(scan) => self.build_table_scan(scan),
            PhysicalPlan::Filter(filter) => self.build_filter(filter),
            PhysicalPlan::Project(project) => self.build_project(project),
            PhysicalPlan::EvalScalar(eval_scalar) => self.build_eval_scalar(eval_scalar),
            PhysicalPlan::AggregateExpand(aggregate) => self.build_aggregate_expand(aggregate),
            PhysicalPlan::AggregatePartial(aggregate) => self.build_aggregate_partial(aggregate),
            PhysicalPlan::AggregateFinal(aggregate) => self.build_aggregate_final(aggregate),
            PhysicalPlan::Window(window) => self.build_window(window),
            PhysicalPlan::Sort(sort) => self.build_sort(sort),
            PhysicalPlan::Limit(limit) => self.build_limit(limit),
            PhysicalPlan::RowFetch(row_fetch) => self.build_row_fetch(row_fetch),
            PhysicalPlan::HashJoin(join) => self.build_join(join),
            PhysicalPlan::ExchangeSink(sink) => self.build_exchange_sink(sink),
            PhysicalPlan::ExchangeSource(source) => {
                let fragment = get_fragment_source(
                    source,
                    self.prof_span_set,
                    self.exchange_injector,
                )?;
                proof {
                    if self@.main.pipes.len() == 0 {
                        lemma_no_pipes_wf(empty_pipeline());
                    }
                    assert(self@.sides + fragment@.sources =~= self@.sides);
                }
                self.build_exchange_source(source, fragment)
            },
            PhysicalPlan::UnionAll(union_all) => self.build_union_all(union_all),
            PhysicalPlan::DistributedInsertSelect(insert_select) => {
                self.build_distributed_insert_select(insert_select)
            },
            PhysicalPlan::ProjectSet(project_set) => self.build_project_set(project_set),
            PhysicalPlan::Exchange(_) => Err(
                ErrorCode::Internal("Invalid physical plan with PhysicalPlan::Exchange".to_string()),
            ),
            PhysicalPlan::RuntimeFilterSource(runtime_filter_source) => {
                self.build_runtime_filter_source(runtime_filter_source)
            },
            PhysicalPlan::DeletePartial(delete) => self.build_delete_partial(delete),
            PhysicalPlan::DeleteFinal(delete) => self.build_delete_final(delete),
            PhysicalPlan::RangeJoin(range_join) => self.build_range_join(range_join),
            PhysicalPlan::DistributedCopyIntoTable(distributed_plan) => {
                self.build_distributed_copy_into_table(distributed_plan)
            },
        }
    }

    fn build_distributed_copy_into_table(&mut self,
        distributed_plan: &DistributedCopyIntoTable) -> (r:
        Result<(), ErrorCode>)
        ensures
            final(self).env() == old(self).env(),
            agrees(
                r,
                final(self)@,
                built(
                    old(self).env(),
                    old(self)@,
                    PhysicalPlan::DistributedCopyIntoTable(*distributed_plan),
                ),
            ),
            r is Ok ==> (old(self)@.ready() ==> final(self)@.ready()),
            r is Ok && old(self)@.main.pipes.len() == 0 && sides_wf(old(self)@.sides)
                ==> final(self)@.shaped(),
            r is Ok ==> !final(self)@.main.is_pulling(),
    {
        proof {
            if self@.main.pipes.len() == 0 {
                lemma_no_pipes_wf(self@.main);
            }
        }
        proof {
            reveal(copy_into_table_step);
        }
        self.main_pipeline.add_source(
            ProcessorPtr::create(Processor::StageSource { plan_id: distributed_plan.plan_id }),
            distributed_plan.streams,
        )?;
        // append data
        self.main_pipeline.add_sink(
            ProcessorPtr::create(Processor::AppendSink { plan_id: distributed_plan.plan_id }),
        )?;
        Ok(())
    }

    /// The sources of the deletion, each followed by the processor that
    /// serializes what it found.
    fn build_delete_partial(&mut self, delete: &DeletePartial) -> (r: Result<(), ErrorCode>)
        ensures
            final(self).env() == old(self).env(),
            agrees(
                r,
                final(self)@,
                built(old(self).env(), old(self)@, PhysicalPlan::DeletePartial(*delete)),
            ),
            r is Ok ==> (old(self)@.ready() ==> final(self)@.ready())
                && (gives_rows(PhysicalPlan::DeletePartial(*delete))
                <==> final(self)@.main.is_pulling()),
            r is Ok && old(self)@.main.pipes.len() == 0 && sides_wf(old(self)@.sides)
                ==> final(self)@.shaped(),
    {
        proof {
            if self@.main.pipes.len() == 0 {
                lemma_no_pipes_wf(self@.main);
            }
        }
        proof {
            reveal(delete_partial_step);
        }
        self.main_pipeline.add_source(
            ProcessorPtr::create(Processor::MutationSource { plan_id: delete.plan_id }),
            delete.streams,
        )?;
        self.main_pipeline.add_transform(
            self.counted(Processor::SerializeData { plan_id: delete.plan_id }, delete.plan_id),
            None,
        )?;
        Ok(())
    }

    /// One processor gathers the mutations, and a sink commits them.
    fn build_delete_final(&mut self, delete: &DeleteFinal) -> (r: Result<(), ErrorCode>)
        requires
            old(self).ctx.settings.max_threads >= 1,
            well_formed(PhysicalPlan::DeleteFinal(*delete), old(self)@.ready()),
        ensures
            final(self).env() == old(self).env(),
            agrees(
                r,
                final(self)@,
                built(old(self).env(), old(self)@, PhysicalPlan::DeleteFinal(*delete)),
            ),
            r is Ok ==> !walks_exchange(PhysicalPlan::DeleteFinal(*delete)) && (old(self)@.ready()
                ==> final(self)@.ready()),
            r is Ok && old(self)@.main.pipes.len() == 0 && sides_wf(old(self)@.sides)
                ==> final(self)@.shaped(),
            r is Ok ==> !final(self)@.main.is_pulling(),
        decreases *delete, 0nat,
    {
        proof {
            reveal(delete_final_step);
        }
        self.build_pipeline(&delete.input)?;
        self.main_pipeline.try_resize(1)?;
        self.main_pipeline.add_transform(
            self.counted(Processor::MutationAggregator { plan_id: delete.plan_id }, delete.plan_id),
            None,
        )?;
        self.main_pipeline.add_sink(
            ProcessorPtr::create(Processor::CommitSink { plan_id: delete.plan_id }),
        )?;
        Ok(())
    }

    fn build_range_join(&mut self, range_join: &RangeJoin) -> (r: Result<(), ErrorCode>)
        requires
            old(self).ctx.settings.max_threads >= 1,
            well_formed(PhysicalPlan::RangeJoin(*range_join), old(self)@.ready()),
        ensures
            final(self).env() == old(self).env(),
            agrees(
                r,
                final(self)@,
                built(old(self).env(), old(self)@, PhysicalPlan::RangeJoin(*range_join)),
            ),
            r is Ok ==> !walks_exchange(PhysicalPlan::RangeJoin(*range_join))
                && (old(self)@.ready() ==> final(self)@.ready()) && (gives_rows(
                PhysicalPlan::RangeJoin(*range_join),
            ) <==> final(self)@.main.is_pulling()),
            r is Ok && old(self)@.main.pipes.len() == 0 && sides_wf(old(self)@.sides)
                ==> final(self)@.shaped(),
        decreases *range_join, 1nat,
    {
        self.expand_right_side_pipeline(range_join)?;
        proof {
            lemma_well_formed_ready(*range_join.left, old(self)@.ready(), self@.ready());
        }
        self.build_left_side(range_join)
    }

    fn build_left_side(&mut self, range_join: &RangeJoin) -> (r: Result<(), ErrorCode>)
        requires
            old(self).ctx.settings.max_threads >= 1,
            well_formed(*range_join.left, old(self)@.ready()),
        ensures
            final(self).env() == old(self).env(),
            agrees(
                r,
                final(self)@,
                match built(old(self).env(), old(self)@, *range_join.left) {
                    Err(e) => Err(e),
                    Ok(s) => range_join_left_step(old(self).env(), s, *range_join),
                },
            ),
            r is Ok ==> !walks_exchange(*range_join.left) && (old(self)@.ready()
                ==> final(self)@.ready()) && gives_rows(*range_join.left)
                && final(self)@.main.is_pulling(),
            r is Ok && old(self)@.main.pipes.len() == 0 && sides_wf(old(self)@.sides)
                ==> final(self)@.shaped(),
        decreases *range_join, 0nat,
    {
        proof {
            reveal(range_join_left_step);
        }
        self.build_pipeline(&range_join.left)?;
        let max_threads = self.ctx.get_settings().max_threads;
        self.main_pipeline.try_resize(max_threads)?;
        self.main_pipeline.add_transform(
            self.counted(Processor::RangeJoinLeft { join: range_join.plan_id }, range_join.plan_id),
            None,
        )?;
        Ok(())
    }

    fn expand_right_side_pipeline(&mut self, range_join: &RangeJoin) -> (r: Result<(), ErrorCode>)
        requires
            old(self).ctx.settings.max_threads >= 1,
            well_formed(*range_join.right, false),
        ensures
            final(self).env() == old(self).env(),
            agrees(
                r,
                final(self)@,
                match handed_over(built(old(self).env(), fresh(), *range_join.right)) {
                    Err(e) => Err(e),
                    Ok(side) => Ok(range_join_right_step(old(self).env(), old(self)@, *range_join,
                        side)),
                },
            ),
            r is Ok ==> !walks_exchange(*range_join.right) && (old(self)@.ready()
                ==> final(self)@.ready()),
            r is Ok ==> final(self)@.main == old(self)@.main && (sides_wf(old(self)@.sides)
                ==> sides_wf(final(self)@.sides)),
        decreases *range_join, 0nat,
    {
        proof {
            reveal(range_join_right_step);
        }
        let right_side_context = QueryContext::create_from(&self.ctx);
        let right_side_builder = PipelineBuilder::create(
            right_side_context,
            self.enable_profiling,
            self.prof_span_set,
        );
        let mut right_res = right_side_builder.finalize(&range_join.right)?;
        right_res.main_pipeline.add_sink(
            self.counted(Processor::RangeJoinRight { join: range_join.plan_id },
                range_join.plan_id),
        )?;
        self.add_side(right_res);
        Ok(())
    }

    /// Takes over the pipelines of a finished side build.
    fn add_side(&mut self, side: PipelineBuildResult)
        ensures
            final(self).env() == old(self).env(),
            final(self)@ == old(self)@.with_side(side@.main, side@.sources),
            old(self)@.ready() ==> final(self)@.ready(),
            sides_wf(old(self)@.sides) && side@.main.wf() && sides_wf(side@.sources)
                ==> sides_wf(final(self)@.sides),
            final(self)@.main == old(self)@.main,
    {
        let ghost before = pipelines_view(self.pipelines@);
        self.pipelines.push(side.main_pipeline);
        assert(pipelines_view(self.pipelines@) =~= before.push(side@.main));
        extend_pipelines(&mut self.pipelines, side.sources_pipelines);
    }

    fn build_join(&mut self, join: &HashJoin) -> (r: Result<(), ErrorCode>)
        requires
            old(self).ctx.settings.max_threads >= 1,
            well_formed(PhysicalPlan::HashJoin(*join), old(self)@.ready()),
        ensures
            final(self).env() == old(self).env(),
            agrees(
                r,
                final(self)@,
                built(old(self).env(), old(self)@, PhysicalPlan::HashJoin(*join)),
            ),
            r is Ok ==> !walks_exchange(PhysicalPlan::HashJoin(*join)) && (old(self)@.ready()
                ==> final(self)@.ready()) && (gives_rows(PhysicalPlan::HashJoin(*join))
                <==> final(self)@.main.is_pulling()),
            r is Ok && old(self)@.main.pipes.len() == 0 && sides_wf(old(self)@.sides)
                ==> final(self)@.shaped(),
        decreases *join, 1nat,
    {
        let state = self.build_join_state(join)?;
        self.expand_build_side_pipeline(&join.build, join, state)?;
        proof {
            lemma_well_formed_ready(
                *join.probe,
                old(self)@.ready() || join.contain_runtime_filter,
                self@.ready(),
            );
        }
        self.build_join_probe(join, state)
    }

    /// The state that the build side and the probe side of `join` share: it
    /// goes by the join's plan id.
    fn build_join_state(&mut self, join: &HashJoin) -> (r: Result<u32, ErrorCode>)
        ensures
            *final(self) == *old(self),
            r == Ok::<u32, ErrorCode>(join.plan_id),
    {
        Ok(join.plan_id)
    }

    fn expand_build_side_pipeline(
        &mut self,
        build: &PhysicalPlan,
        hash_join_plan: &HashJoin,
        join_state: u32,
    ) -> (r: Result<(), ErrorCode>)
        requires
            old(self).ctx.settings.max_threads >= 1,
            *build == *hash_join_plan.build,
            join_state == hash_join_plan.plan_id,
            gives_rows(*build),
            well_formed(*build, false),
        ensures
            final(self).env() == old(self).env(),
            agrees(
                r,
                final(self)@,
                match handed_over(built(old(self).env(), fresh(), *build)) {
                    Err(e) => Err(e),
                    Ok(side) => build_side_step(old(self).env(), old(self)@, *hash_join_plan, side),
                },
            ),
            r is Ok ==> !walks_exchange(*build) && (old(self)@.ready()
                || hash_join_plan.contain_runtime_filter ==> final(self)@.ready()),
            r is Ok ==> final(self)@.main == old(self)@.main && (sides_wf(old(self)@.sides)
                ==> sides_wf(final(self)@.sides)),
        decreases *hash_join_plan, 0nat,
    {
        proof {
            reveal(build_side_step);
        }
        let build_side_context = QueryContext::create_from(&self.ctx);
        let build_side_builder = PipelineBuilder::create(
            build_side_context,
            self.enable_profiling,
            self.prof_span_set,
        );
        let mut build_res = build_side_builder.finalize(build)?;
        if hash_join_plan.contain_runtime_filter {
            build_res.main_pipeline.duplicate(false)?;
            self.join_state = Some(join_state);
            self.index = Some(self.pipelines.len());
        } else {
            build_res.main_pipeline.add_sink(
                self.counted(Processor::HashJoinBuild { join: join_state }, hash_join_plan.plan_id),
            )?;
        }
        self.add_side(build_res);
        Ok(())
    }

    /// Adds to `pipeline` what shows a result set: a sink that drops
    /// everything if the result is ignored, else a projection onto
    /// `result_columns`.
    pub fn render_result_set(
        func_ctx: &FunctionContext,
        input_schema: &DataSchema,
        result_columns: &Vec<ColumnBinding>,
        pipeline: &mut Pipeline,
        ignore_result: bool,
    ) -> (r: Result<(), ErrorCode>)
        ensures
            (match rendered(old(pipeline)@, input_schema.fields@, result_columns@, ignore_result) {
                Ok(shown) => r is Ok && final(pipeline)@ == shown,
                Err(f) => r matches Err(e) && e@ == f,
            }),
            r is Ok && old(pipeline)@.wf() ==> final(pipeline)@.wf(),
    {
        proof {
            reveal(rendered);
        }
        if ignore_result {
            return pipeline.add_sink(ProcessorPtr::create(Processor::EmptySink));
        }
        let mut indexes: Vec<IndexType> = Vec::with_capacity(result_columns.len());
        let mut k: usize = 0;
        while k < result_columns.len()
            invariant
                0 <= k <= result_columns@.len(),
                indexes@.len() == k,
                forall|i: int| 0 <= i < k ==> #[trigger] indexes@[i] == result_columns@[i].index,
            decreases result_columns@.len() - k,
        {
            indexes.push(result_columns[k].index);
            k += 1;
        }
        assert(indexes@ =~= binding_indexes(result_columns@));
        let projections = lookup_all(input_schema, &indexes)?;
        let num_input_columns = input_schema.num_fields();
        pipeline.add_transform(
            ProcessorPtr::create(Processor::Project),
            Some(OperatorParams::Project { projection: projections, num_input_columns }),
        )?;
        Ok(())
    }

    fn build_table_scan(&mut self, scan: &TableScan) -> (r: Result<(), ErrorCode>)
        ensures
            final(self).env() == old(self).env(),
            agrees(
                r,
                final(self)@,
                built(old(self).env(), old(self)@, PhysicalPlan::TableScan(*scan)),
            ),
            r is Ok ==> (old(self)@.ready() ==> final(self)@.ready())
                && (gives_rows(PhysicalPlan::TableScan(*scan))
                <==> final(self)@.main.is_pulling()),
            r is Ok && old(self)@.main.pipes.len() == 0 && sides_wf(old(self)@.sides)
                ==> final(self)@.shaped(),
    {
        proof {
            if self@.main.pipes.len() == 0 {
                lemma_no_pipes_wf(self@.main);
            }
        }
        proof {
            reveal(scan_step);
        }
        self.main_pipeline.add_source(
            ProcessorPtr::create(Processor::TableSource { plan_id: scan.plan_id }),
            scan.source.streams,
        )?;
        // Fill internal columns if needed.
        if scan.internal_column.is_some() {
            if scan.source.support_row_id_column {
                self.main_pipeline.add_transform(
                    self.counted(
                        Processor::FillInternalColumn { plan_id: scan.plan_id },
                        scan.plan_id,
                    ),
                    None,
                )?;
            } else {
                return Err(engine_without_row_id(&scan.source.engine));
            }
        }
        let projection = build_scan_projection(&scan.source.schema, &scan.name_mapping)?;
        // if projection is sequential, no need to add projection
        let num_input_columns = scan.source.schema.len();
        if !check_sequential(&projection, num_input_columns) {
            self.main_pipeline.add_transform(
                self.counted(Processor::Project, scan.plan_id),
                Some(OperatorParams::Project { projection, num_input_columns }),
            )?;
        }
        Ok(())
    }

    fn build_filter(&mut self, filter: &Filter) -> (r: Result<(), ErrorCode>)
        requires
            old(self).ctx.settings.max_threads >= 1,
            well_formed(PhysicalPlan::Filter(*filter), old(self)@.ready()),
        ensures
            final(self).env() == old(self).env(),
            agrees(
                r,
                final(self)@,
                built(old(self).env(), old(self)@, PhysicalPlan::Filter(*filter)),
            ),
            filter.predicates@.len() == 0 ==> (built(old(self).env(), old(self)@, *filter.input)
                matches Ok(s) ==> final(self)@ == s),
            r is Ok ==> !walks_exchange(PhysicalPlan::Filter(*filter)) && (old(self)@.ready()
                ==> final(self)@.ready()) && (gives_rows(PhysicalPlan::Filter(*filter))
                <==> final(self)@.main.is_pulling()),
            r is Ok && old(self)@.main.pipes.len() == 0 && sides_wf(old(self)@.sides)
                ==> final(self)@.shaped(),
        decreases *filter, 0nat,
    {
        proof {
            reveal(filter_step);
        }
        self.build_pipeline(&filter.input)?;
        let predicate = reduce_and_filters(&filter.predicates)?;
        let num_input_columns = filter.input.output_schema().num_fields();
        self.main_pipeline.add_transform(
            self.counted(Processor::Filter, filter.plan_id),
            Some(OperatorParams::Filter { expr: predicate, num_input_columns }),
        )?;
        Ok(())
    }

    fn build_project(&mut self, project: &Project) -> (r: Result<(), ErrorCode>)
        requires
            old(self).ctx.settings.max_threads >= 1,
            well_formed(PhysicalPlan::Project(*project), old(self)@.ready()),
        ensures
            final(self).env() == old(self).env(),
            agrees(
                r,
                final(self)@,
                built(old(self).env(), old(self)@, PhysicalPlan::Project(*project)),
            ),
            r is Ok ==> !walks_exchange(PhysicalPlan::Project(*project)) && (old(self)@.ready()
                ==> final(self)@.ready()) && (gives_rows(PhysicalPlan::Project(*project))
                <==> final(self)@.main.is_pulling()),
            r is Ok && old(self)@.main.pipes.len() == 0 && sides_wf(old(self)@.sides)
                ==> final(self)@.shaped(),
        decreases *project, 0nat,
    {
        proof {
            reveal(project_step);
        }
        self.build_pipeline(&project.input)?;
        let num_input_columns = project.input.output_schema().num_fields();
        self.main_pipeline.add_transform(
            self.counted(Processor::Project, project.plan_id),
            Some(
                OperatorParams::Project {
                    projection: project.projections.clone(),
                    num_input_columns,
                },
            ),
        )
    }

    fn build_eval_scalar(&mut self, eval_scalar: &EvalScalar) -> (r: Result<(), ErrorCode>)
        requires
            old(self).ctx.settings.max_threads >= 1,
            well_formed(PhysicalPlan::EvalScalar(*eval_scalar), old(self)@.ready()),
        ensures
            final(self).env() == old(self).env(),
            agrees(
                r,
                final(self)@,
                built(old(self).env(), old(self)@, PhysicalPlan::EvalScalar(*eval_scalar)),
            ),
            r is Ok ==> !walks_exchange(PhysicalPlan::EvalScalar(*eval_scalar))
                && (old(self)@.ready() ==> final(self)@.ready()) && (gives_rows(
                PhysicalPlan::EvalScalar(*eval_scalar),
            ) <==> final(self)@.main.is_pulling()),
            r is Ok && old(self)@.main.pipes.len() == 0 && sides_wf(old(self)@.sides)
                ==> final(self)@.shaped(),
        decreases *eval_scalar, 0nat,
    {
        proof {
            reveal(eval_scalar_step);
        }
        self.build_pipeline(&eval_scalar.input)?;
        let input_schema = eval_scalar.input.output_schema();
        let exprs = build_computed_exprs(&eval_scalar.exprs, input_schema);
        if exprs.len() == 0 {
            return Ok(());
        }
        let num_input_columns = input_schema.num_fields();
        self.main_pipeline.add_transform(
            self.counted(Processor::BlockMap, eval_scalar.plan_id),
            Some(OperatorParams::BlockMap { exprs, num_input_columns }),
        )?;
        Ok(())
    }

    fn build_project_set(&mut self, project_set: &ProjectSet) -> (r: Result<(), ErrorCode>)
        requires
            old(self).ctx.settings.max_threads >= 1,
            well_formed(PhysicalPlan::ProjectSet(*project_set), old(self)@.ready()),
        ensures
            final(self).env() == old(self).env(),
            agrees(
                r,
                final(self)@,
                built(old(self).env(), old(self)@, PhysicalPlan::ProjectSet(*project_set)),
            ),
            r is Ok ==> !walks_exchange(PhysicalPlan::ProjectSet(*project_set))
                && (old(self)@.ready() ==> final(self)@.ready()) && (gives_rows(
                PhysicalPlan::ProjectSet(*project_set),
            ) <==> final(self)@.main.is_pulling()),
            r is Ok && old(self)@.main.pipes.len() == 0 && sides_wf(old(self)@.sides)
                ==> final(self)@.shaped(),
        decreases *project_set, 0nat,
    {
        proof {
            reveal(project_set_step);
        }
        self.build_pipeline(&project_set.input)?;
        let srf_exprs = build_exprs(&project_set.srf_exprs);
        let num_input_columns = project_set.input.output_schema().num_fields();
        self.main_pipeline.add_transform(
            self.counted(Processor::FlatMap, project_set.plan_id),
            Some(OperatorParams::FlatMap { srf_exprs, num_input_columns }),
        )
    }

    fn build_limit(&mut self, limit: &Limit) -> (r: Result<(), ErrorCode>)
        requires
            old(self).ctx.settings.max_threads >= 1,
            well_formed(PhysicalPlan::Limit(*limit), old(self)@.ready()),
        ensures
            final(self).env() == old(self).env(),
            agrees(
                r,
                final(self)@,
                built(old(self).env(), old(self)@, PhysicalPlan::Limit(*limit)),
            ),
            r is Ok ==> !walks_exchange(PhysicalPlan::Limit(*limit)) && (old(self)@.ready()
                ==> final(self)@.ready()) && (gives_rows(PhysicalPlan::Limit(*limit))
                <==> final(self)@.main.is_pulling()),
            r is Ok && old(self)@.main.pipes.len() == 0 && sides_wf(old(self)@.sides)
                ==> final(self)@.shaped(),
        decreases *limit, 0nat,
    {
        proof {
            reveal(limit_step);
        }
        self.build_pipeline(&limit.input)?;
        self.main_pipeline.try_resize(1)?;
        self.main_pipeline.add_transform(
            self.counted(
                Processor::Limit { limit: limit.limit, offset: limit.offset },
                limit.plan_id,
            ),
            None,
        )
    }

    fn build_row_fetch(&mut self, row_fetch: &RowFetch) -> (r: Result<(), ErrorCode>)
        requires
            old(self).ctx.settings.max_threads >= 1,
            well_formed(PhysicalPlan::RowFetch(*row_fetch), old(self)@.ready()),
        ensures
            final(self).env() == old(self).env(),
            agrees(
                r,
                final(self)@,
                built(old(self).env(), old(self)@, PhysicalPlan::RowFetch(*row_fetch)),
            ),
            r is Ok ==> !walks_exchange(PhysicalPlan::RowFetch(*row_fetch)) && (old(self)@.ready()
                ==> final(self)@.ready()) && (gives_rows(PhysicalPlan::RowFetch(*row_fetch))
                <==> final(self)@.main.is_pulling()),
            r is Ok && old(self)@.main.pipes.len() == 0 && sides_wf(old(self)@.sides)
                ==> final(self)@.shaped(),
        decreases *row_fetch, 0nat,
    {
        proof {
            reveal(row_fetch_step);
        }
        self.build_pipeline(&row_fetch.input)?;
        self.main_pipeline.add_transform(
            self.counted(Processor::RowFetcher { plan_id: row_fetch.plan_id }, row_fetch.plan_id),
            None,
        )
    }

    fn build_join_probe(&mut self, join: &HashJoin, state: u32) -> (r: Result<(), ErrorCode>)
        requires
            old(self).ctx.settings.max_threads >= 1,
            state == join.plan_id,
            well_formed(*join.probe, old(self)@.ready()),
        ensures
            final(self).env() == old(self).env(),
            agrees(
                r,
                final(self)@,
                match built(old(self).env(), old(self)@, *join.probe) {
                    Err(e) => Err(e),
                    Ok(s) => join_probe_step(old(self).env(), s, *join),
                },
            ),
            r is Ok ==> !walks_exchange(*join.probe) && (old(self)@.ready()
                ==> final(self)@.ready()) && (gives_rows(*join.probe)
                <==> final(self)@.main.is_pulling()),
            r is Ok && old(self)@.main.pipes.len() == 0 && sides_wf(old(self)@.sides)
                ==> final(self)@.shaped(),
        decreases *join, 0nat,
    {
        proof {
            reveal(join_probe_step);
        }
        self.build_pipeline(&join.probe)?;
        self.main_pipeline.add_transform(
            self.counted(
                Processor::HashJoinProbe {
                    join: state,
                    join_type: join.join_type,
                    has_non_equi_conditions: join.non_equi_conditions.len() != 0,
                },
                join.plan_id,
            ),
            None,
        )?;
        if join.join_type == JoinType::LeftMark {
            self.main_pipeline.try_resize(1)?;
            self.main_pipeline.add_transform(
                self.counted(Processor::MarkJoin { join: state }, join.plan_id),
                None,
            )?;
        }
        Ok(())
    }

    fn build_aggregate_expand(&mut self, expand: &AggregateExpand) -> (r: Result<(), ErrorCode>)
        requires
            old(self).ctx.settings.max_threads >= 1,
            well_formed(PhysicalPlan::AggregateExpand(*expand), old(self)@.ready()),
        ensures
            final(self).env() == old(self).env(),
            agrees(
                r,
                final(self)@,
                built(old(self).env(), old(self)@, PhysicalPlan::AggregateExpand(*expand)),
            ),
            r is Ok ==> !walks_exchange(PhysicalPlan::AggregateExpand(*expand))
                && (old(self)@.ready() ==> final(self)@.ready()) && (gives_rows(
                PhysicalPlan::AggregateExpand(*expand),
            ) <==> final(self)@.main.is_pulling()),
            r is Ok && old(self)@.main.pipes.len() == 0 && sides_wf(old(self)@.sides)
                ==> final(self)@.shaped(),
        decreases *expand, 0nat,
    {
        proof {
            reveal(aggregate_expand_step);
        }
        self.build_pipeline(&expand.input)?;
        let (group_bys, grouping_ids) = build_grouping(expand)?;
        self.main_pipeline.add_transform(
            self.counted(Processor::ExpandGroupingSets, expand.plan_id),
            Some(OperatorParams::ExpandGroupingSets { group_bys, grouping_ids }),
        )
    }

    fn build_aggregate_partial(&mut self, aggregate: &AggregatePartial) -> (r: Result<(),
        ErrorCode>)
        requires
            old(self).ctx.settings.max_threads >= 1,
            well_formed(PhysicalPlan::AggregatePartial(*aggregate), old(self)@.ready()),
        ensures
            final(self).env() == old(self).env(),
            agrees(
                r,
                final(self)@,
                built(old(self).env(), old(self)@, PhysicalPlan::AggregatePartial(*aggregate)),
            ),
            r is Ok ==> !walks_exchange(PhysicalPlan::AggregatePartial(*aggregate))
                && (old(self)@.ready() ==> final(self)@.ready()) && (gives_rows(
                PhysicalPlan::AggregatePartial(*aggregate),
            ) <==> final(self)@.main.is_pulling()),
            r is Ok && old(self)@.main.pipes.len() == 0 && sides_wf(old(self)@.sides)
                ==> final(self)@.shaped(),
        decreases *aggregate, 0nat,
    {
        proof {
            reveal(aggregate_partial_step);
        }
        self.build_pipeline(&aggregate.input)?;
        let params = Self::build_aggregator_params(
            aggregate.input.output_schema(),
            &aggregate.group_by,
            &aggregate.agg_funcs,
            None,
        )?;
        if params.group_columns.len() == 0 {
            return self.main_pipeline.add_transform(
                self.counted(Processor::PartialSingleStateAggregator, aggregate.plan_id),
                Some(OperatorParams::Aggregator { params }),
            );
        }
        let settings = self.ctx.get_settings();
        let efficiently_memory = settings.efficiently_memory_group_by;
        let method = choose_hash_method(&params.group_data_types, efficiently_memory)?;
        let with_states = params.aggregate_functions != 0;
        self.main_pipeline.add_transform(
            self.counted(
                if with_states {
                    Processor::PartialAggregate { method }
                } else {
                    Processor::PartialGroupBy { method }
                },
                aggregate.plan_id,
            ),
            Some(OperatorParams::Aggregator { params: params.clone() }),
        )?;
        // If cluster mode, spill write will be completed in exchange serialize, because we need scatter the block data first
        if self.ctx.cluster_is_empty && !is_zero(settings.spilling_bytes_threshold_per_proc) {
            let location_prefix = spill_location_prefix(&self.ctx.tenant);
            if with_states {
                self.main_pipeline.add_transform(
                    self.counted(Processor::AggregateSpillWriter { method }, aggregate.plan_id),
                    Some(OperatorParams::SpillWriter { location_prefix, aggregator: Some(params) }),
                )?;
            } else {
                self.main_pipeline.add_transform(
                    self.counted(Processor::GroupBySpillWriter { method }, aggregate.plan_id),
                    Some(OperatorParams::SpillWriter { location_prefix, aggregator: None }),
                )?;
            }
        }
        self.exchange_injector = ExchangeInjector::Aggregate { method, with_states };
        Ok(())
    }

    fn build_aggregate_final(&mut self, aggregate: &AggregateFinal) -> (r: Result<(), ErrorCode>)
        requires
            old(self).ctx.settings.max_threads >= 1,
            well_formed(PhysicalPlan::AggregateFinal(*aggregate), old(self)@.ready()),
        ensures
            final(self).env() == old(self).env(),
            agrees(
                r,
                final(self)@,
                built(old(self).env(), old(self)@, PhysicalPlan::AggregateFinal(*aggregate)),
            ),
            aggregate.group_by@.len() != 0 ==> final(self)@.injector == old(self)@.injector,
            r is Ok ==> !walks_exchange(PhysicalPlan::AggregateFinal(*aggregate))
                && (old(self)@.ready() ==> final(self)@.ready()) && (gives_rows(
                PhysicalPlan::AggregateFinal(*aggregate),
            ) <==> final(self)@.main.is_pulling()),
            r is Ok && old(self)@.main.pipes.len() == 0 && sides_wf(old(self)@.sides)
                ==> final(self)@.shaped(),
        decreases *aggregate, 0nat,
    {
        proof {
            reveal(aggregate_final_step);
        }
        let params = Self::build_aggregator_params(
            &aggregate.before_group_by_schema,
            &aggregate.group_by,
            &aggregate.agg_funcs,
            aggregate.limit,
        )?;
        if params.group_columns.len() == 0 {
            self.build_pipeline(&aggregate.input)?;
            self.main_pipeline.try_resize(1)?;
            return self.main_pipeline.add_transform(
                self.counted(Processor::FinalSingleStateAggregator, aggregate.plan_id),
                Some(OperatorParams::Aggregator { params }),
            );
        }
        let settings = self.ctx.get_settings();
        let efficiently_memory = settings.efficiently_memory_group_by;
        let method = choose_hash_method(&params.group_data_types, efficiently_memory)?;
        let old_inject = self.exchange_injector;
        let from_exchange = match &*aggregate.input {
            PhysicalPlan::ExchangeSource(_) => true,
            _ => false,
        };
        if from_exchange {
            self.exchange_injector = ExchangeInjector::Aggregate {
                method,
                with_states: params.aggregate_functions != 0,
            };
        }
        let input_built = self.build_pipeline(&aggregate.input);
        // the injector that was in place comes back, whatever became of the
        // input
        self.exchange_injector = old_inject;
        match input_built {
            Ok(()) => build_partition_bucket(&mut self.main_pipeline, method, params),
            Err(e) => Err(e),
        }
    }

    /// What an aggregation works from: where its keys stand in the input,
    /// and their fields; `BadArguments` if the input lacks a key.
    pub fn build_aggregator_params(
        input_schema: &DataSchema,
        group_by: &Vec<IndexType>,
        agg_funcs: &Vec<AggregateFunctionDesc>,
        limit: Option<usize>,
    ) -> (r: Result<AggregatorParams, ErrorCode>)
        ensures
            (match aggregator_params(
                input_schema.fields@,
                group_by@,
                agg_funcs@.len() as usize,
                limit,
            ) {
                Some(params) => r matches Ok(v) && v@ == params,
                None => r matches Err(e) && e@ == no_field(),
            }),
    {
        let group_columns = lookup_all(input_schema, group_by)?;
        let input_fields = input_schema.num_fields();
        proof {
            lemma_offsets_of(input_schema.fields@, group_by@, group_by@.len() as int);
        }
        let mut group_data_types: Vec<DataField> = Vec::with_capacity(group_columns.len());
        let mut k: usize = 0;
        while k < group_columns.len()
            invariant
                0 <= k <= group_columns@.len(),
                forall|i: int|
                    0 <= i < group_columns@.len() ==> (#[trigger] group_columns@[i])
                        < input_schema.fields@.len(),
                group_data_types@.len() == k,
                forall|i: int|
                    0 <= i < k ==> #[trigger] group_data_types@[i]
                        == input_schema.fields@[group_columns@[i] as int],
            decreases group_columns@.len() - k,
        {
            group_data_types.push(input_schema.fields[group_columns[k]]);
            k += 1;
        }
        let params = AggregatorParams {
            input_fields,
            group_columns,
            group_data_types,
            aggregate_functions: agg_funcs.len(),
            limit,
        };
        assert(params@.group_data_types =~= aggregator_params(
            input_schema.fields@,
            group_by@,
            agg_funcs@.len() as usize,
            limit,
        )->0.group_data_types);
        Ok(params)
    }

    fn build_window(&mut self, window: &Window) -> (r: Result<(), ErrorCode>)
        requires
            old(self).ctx.settings.max_threads >= 1,
            well_formed(PhysicalPlan::Window(*window), old(self)@.ready()),
        ensures
            final(self).env() == old(self).env(),
            agrees(
                r,
                final(self)@,
                built(old(self).env(), old(self)@, PhysicalPlan::Window(*window)),
            ),
            r is Ok ==> !walks_exchange(PhysicalPlan::Window(*window)) && (old(self)@.ready()
                ==> final(self)@.ready()) && (gives_rows(PhysicalPlan::Window(*window))
                <==> final(self)@.main.is_pulling()),
            r is Ok && old(self)@.main.pipes.len() == 0 && sides_wf(old(self)@.sides)
                ==> final(self)@.shaped(),
        decreases *window, 0nat,
    {
        proof {
            reveal(window_step);
        }
        self.build_pipeline(&window.input)?;
        let params = build_window_params(window)?;
        let old_output_len = self.main_pipeline.output_len();
        if params.partition_by.len() != 0 || params.order_by.len() != 0 {
            self.build_sort_pipeline(params.sort_desc, window.plan_id, None, false)?;
        }
        // `TransformWindow` is a pipeline breaker.
        self.main_pipeline.try_resize(1)?;
        self.main_pipeline.add_transform(
            self.counted(
                Processor::Window { plan_id: window.plan_id, frame: params.frame },
                window.plan_id,
            ),
            Some(
                OperatorParams::Window {
                    partition_by: params.partition_by,
                    order_by: params.order_by,
                    start_bound: window.start_bound,
                    end_bound: window.end_bound,
                },
            ),
        )?;
        self.main_pipeline.try_resize(old_output_len)
    }

    fn build_sort(&mut self, sort: &Sort) -> (r: Result<(), ErrorCode>)
        requires
            old(self).ctx.settings.max_threads >= 1,
            well_formed(PhysicalPlan::Sort(*sort), old(self)@.ready()),
        ensures
            final(self).env() == old(self).env(),
            agrees(r, final(self)@, built(old(self).env(), old(self)@, PhysicalPlan::Sort(*sort))),
            r is Ok ==> !walks_exchange(PhysicalPlan::Sort(*sort)) && (old(self)@.ready()
                ==> final(self)@.ready()) && (gives_rows(PhysicalPlan::Sort(*sort))
                <==> final(self)@.main.is_pulling()),
            r is Ok && old(self)@.main.pipes.len() == 0 && sides_wf(old(self)@.sides)
                ==> final(self)@.shaped(),
        decreases *sort, 0nat,
    {
        proof {
            reveal(sort_step);
        }
        self.build_pipeline(&sort.input)?;
        let input_schema = sort.input.output_schema();
        let sort_desc = build_sort_description(input_schema, &sort.order_by)?;
        self.build_sort_pipeline(sort_desc, sort.plan_id, sort.limit, sort.after_exchange)
    }

    fn build_sort_pipeline(
        &mut self,
        sort_desc: Vec<SortColumnDescription>,
        plan_id: u32,
        limit: Option<usize>,
        after_exchange: bool,
    ) -> (r: Result<(), ErrorCode>)
        requires
            old(self).ctx.settings.max_threads >= 1,
        ensures
            final(self).env() == old(self).env(),
            agrees(
                r,
                final(self)@,
                match sort_pipeline(
                    old(self).env(),
                    old(self)@.main,
                    sort_desc@,
                    plan_id,
                    limit,
                    after_exchange,
                ) {
                    Err(e) => Err(e),
                    Ok(sorted) => Ok(old(self)@.with_main(sorted)),
                },
            ),
            r is Ok ==> (old(self)@.main.is_pulling() <==> final(self)@.main.is_pulling()),
            r is Ok ==> final(self)@.sides == old(self)@.sides && (old(self)@.main.wf()
                ==> final(self)@.main.wf()),
    {
        proof {
            reveal(sort_pipeline);
        }
        let block_size = self.ctx.get_settings().max_block_size;
        let max_threads = self.ctx.get_settings().max_threads;
        // a single stream is spread before it is sorted
        if self.main_pipeline.output_len() == 1 {
            self.main_pipeline.try_resize(max_threads)?;
        }
        let prof_info = if self.enable_profiling {
            Some(ProfileWrapper { plan_id, prof_span_set: self.prof_span_set })
        } else {
            None
        };
        build_full_sort_pipeline(
            &mut self.main_pipeline,
            sort_desc,
            limit,
            block_size,
            block_size,
            prof_info,
            after_exchange,
        )
    }

    /// Puts `fragment`, which receives what runs elsewhere, in place of
    /// `exchange_source`: its main pipeline becomes the main pipeline, and its
    /// side pipelines are added to those of the builder.
    pub fn build_exchange_source(
        &mut self,
        exchange_source: &ExchangeSource,
        fragment: PipelineBuildResult,
    ) -> (r: Result<(), ErrorCode>)
        ensures
            r is Ok,
            final(self).env() == old(self).env(),
            final(self)@ == exchange_source_step(old(self)@, fragment@),
            final(self)@.main == fragment@.main,
            final(self)@.sides == old(self)@.sides + fragment@.sources,
            final(self)@.injector == old(self)@.injector,
            old(self)@.ready() ==> final(self)@.ready(),
            sides_wf(old(self)@.sides) && fragment@.main.wf() && sides_wf(fragment@.sources)
                ==> final(self)@.shaped(),
    {
        self.main_pipeline = fragment.main_pipeline;
        extend_pipelines(&mut self.pipelines, fragment.sources_pipelines);
        Ok(())
    }

    /// The sink of an exchange is added by whoever sends the fragment off;
    /// here its input is built.
    pub fn build_exchange_sink(&mut self, exchange_sink: &ExchangeSink) -> (r: Result<(),
        ErrorCode>)
        requires
            old(self).ctx.settings.max_threads >= 1,
            well_formed(PhysicalPlan::ExchangeSink(*exchange_sink), old(self)@.ready()),
        ensures
            final(self).env() == old(self).env(),
            agrees(
                r,
                final(self)@,
                built(old(self).env(), old(self)@, PhysicalPlan::ExchangeSink(*exchange_sink)),
            ),
            r is Ok ==> !walks_exchange(PhysicalPlan::ExchangeSink(*exchange_sink))
                && (old(self)@.ready() ==> final(self)@.ready()) && (gives_rows(
                PhysicalPlan::ExchangeSink(*exchange_sink),
            ) <==> final(self)@.main.is_pulling()),
            r is Ok && old(self)@.main.pipes.len() == 0 && sides_wf(old(self)@.sides)
                ==> final(self)@.shaped(),
        decreases *exchange_sink, 0nat,
    {
        self.build_pipeline(&exchange_sink.input)
    }

    fn expand_union_all(&mut self, input: &PhysicalPlan, union_plan: &UnionAll) -> (r: Result<
        u32,
        ErrorCode,
    >)
        requires
            old(self).ctx.settings.max_threads >= 1,
            *input == *union_plan.right,
            gives_rows(*input),
            well_formed(*input, false),
        ensures
            final(self).env() == old(self).env(),
            (match handed_over(built(old(self).env(), fresh(), *input)) {
                Err(f) => r matches Err(e) && e@ == f,
                Ok(side) => r == Ok::<u32, ErrorCode>(union_plan.plan_id)
                    && final(self)@ == old(self)@.with_side(
                    side.main.with_sink(
                        counted(
                            old(self).env(),
                            Processor::UnionReceiveSink { union: union_plan.plan_id },
                            union_plan.plan_id,
                        ),
                    ),
                    side.sources,
                ),
            }),
            r is Ok ==> !walks_exchange(*input) && (old(self)@.ready() ==> final(self)@.ready()),
            r is Ok ==> final(self)@.main == old(self)@.main && (sides_wf(old(self)@.sides)
                ==> sides_wf(final(self)@.sides)),
        decreases *union_plan, 0nat,
    {
        let union_ctx = QueryContext::create_from(&self.ctx);
        let pipeline_builder = PipelineBuilder::create(
            union_ctx,
            self.enable_profiling,
            self.prof_span_set,
        );
        let mut build_res = pipeline_builder.finalize(input)?;
        build_res.main_pipeline.add_sink(
            self.counted(
                Processor::UnionReceiveSink { union: union_plan.plan_id },
                union_plan.plan_id,
            ),
        )?;
        self.add_side(build_res);
        Ok(union_plan.plan_id)
    }

    pub fn build_union_all(&mut self, union_all: &UnionAll) -> (r: Result<(), ErrorCode>)
        requires
            old(self).ctx.settings.max_threads >= 1,
            well_formed(PhysicalPlan::UnionAll(*union_all), old(self)@.ready()),
        ensures
            final(self).env() == old(self).env(),
            agrees(
                r,
                final(self)@,
                built(old(self).env(), old(self)@, PhysicalPlan::UnionAll(*union_all)),
            ),
            r is Ok ==> !walks_exchange(PhysicalPlan::UnionAll(*union_all)) && (old(self)@.ready()
                ==> final(self)@.ready()) && (gives_rows(PhysicalPlan::UnionAll(*union_all))
                <==> final(self)@.main.is_pulling()),
            r is Ok && old(self)@.main.pipes.len() == 0 && sides_wf(old(self)@.sides)
                ==> final(self)@.shaped(),
        decreases *union_all, 1nat,
    {
        proof {
            reveal(union_step);
        }
        self.build_pipeline(&union_all.left)?;
        let union_all_receiver = self.expand_union_all(&union_all.right, union_all)?;
        let left_fields = union_all.left.output_schema().fields.clone();
        let right_fields = union_all.right.output_schema().fields.clone();
        let pairs = union_all.pairs.clone();
        assert(left_fields@ =~= union_all.left.schema().fields@);
        assert(right_fields@ =~= union_all.right.schema().fields@);
        assert(pairs@ =~= union_all.pairs@);
        self.main_pipeline.add_transform(
            self.counted(Processor::MergeBlock { union: union_all_receiver }, union_all.plan_id),
            Some(OperatorParams::MergeBlock { left_fields, right_fields, pairs }),
        )?;
        Ok(())
    }

    pub fn build_distributed_insert_select(&mut self,
        insert_select: &DistributedInsertSelect) -> (r:
        Result<(), ErrorCode>)
        requires
            old(self).ctx.settings.max_threads >= 1,
            well_formed(PhysicalPlan::DistributedInsertSelect(*insert_select), old(self)@.ready()),
        ensures
            final(self).env() == old(self).env(),
            agrees(
                r,
                final(self)@,
                built(
                    old(self).env(),
                    old(self)@,
                    PhysicalPlan::DistributedInsertSelect(*insert_select),
                ),
            ),
            r is Ok ==> !walks_exchange(PhysicalPlan::DistributedInsertSelect(*insert_select)) && (
            old(self)@.ready() ==> final(self)@.ready()),
            r is Ok && old(self)@.main.pipes.len() == 0 && sides_wf(old(self)@.sides)
                ==> final(self)@.shaped(),
            r is Ok ==> !final(self)@.main.is_pulling(),
        decreases *insert_select, 0nat,
    {
        proof {
            reveal(insert_select_step);
        }
        self.build_pipeline(&insert_select.input)?;
        // should render result for select
        PipelineBuilder::render_result_set(
            &self.ctx.function_context,
            insert_select.input.output_schema(),
            &insert_select.select_column_bindings,
            &mut self.main_pipeline,
            false,
        )?;
        if insert_select.cast_needed {
            self.main_pipeline.add_transform(
                self.counted(
                    Processor::CastSchema { plan_id: insert_select.plan_id },
                    insert_select.plan_id,
                ),
                None,
            )?;
        }
        self.main_pipeline.add_transform(
            self.counted(
                Processor::FillMissingColumns { plan_id: insert_select.plan_id },
                insert_select.plan_id,
            ),
            None,
        )?;
        self.main_pipeline.add_sink(
            ProcessorPtr::create(Processor::AppendSink { plan_id: insert_select.plan_id }),
        )?;
        Ok(())
    }

    pub fn build_runtime_filter_source(&mut self,
        runtime_filter_source: &RuntimeFilterSource) -> (r:
        Result<(), ErrorCode>)
        requires
            old(self).ctx.settings.max_threads >= 1,
            well_formed(
                PhysicalPlan::RuntimeFilterSource(*runtime_filter_source),
                old(self)@.ready(),
            ),
        ensures
            final(self).env() == old(self).env(),
            agrees(
                r,
                final(self)@,
                built(
                    old(self).env(),
                    old(self)@,
                    PhysicalPlan::RuntimeFilterSource(*runtime_filter_source),
                ),
            ),
            r is Ok ==> !walks_exchange(PhysicalPlan::RuntimeFilterSource(*runtime_filter_source))
                && (old(self)@.ready() ==> final(self)@.ready()) && (gives_rows(
                PhysicalPlan::RuntimeFilterSource(*runtime_filter_source),
            ) <==> final(self)@.main.is_pulling()),
            r is Ok && old(self)@.main.pipes.len() == 0 && sides_wf(old(self)@.sides)
                ==> final(self)@.shaped(),
        decreases *runtime_filter_source, 1nat,
    {
        let state = self.build_runtime_filter_state(runtime_filter_source)?;
        self.expand_runtime_filter_source(&runtime_filter_source.right_side, state)?;
        self.build_runtime_filter(&runtime_filter_source.left_side, runtime_filter_source, state)?;
        Ok(())
    }

    fn expand_runtime_filter_source(&mut self, _right_side: &PhysicalPlan,
        state: u32) -> (r: Result<
        (),
        ErrorCode,
    >)
        requires
            old(self)@.ready(),
        ensures
            final(self).env() == old(self).env(),
            r is Ok,
            final(self)@ == runtime_filter_sinks_step(old(self)@, state),
            final(self)@.ready(),
            r is Ok ==> final(self)@.main == old(self)@.main && (sides_wf(old(self)@.sides)
                ==> sides_wf(final(self)@.sides)),
    {
        proof {
            reveal(runtime_filter_sinks_step);
        }
        let index = self.index.unwrap();
        let join = self.join_state.unwrap();
        let ghost before = pipelines_view(self.pipelines@);
        let output_size = {
            assert(before[index as int] == self.pipelines@[index as int]@);
            self.pipelines[index].output_len()
        };
        let mut items: Vec<PipeItem> = Vec::with_capacity(output_size);
        let ghost sinks = runtime_filter_sinks(join, state, output_size);
        let mut k: usize = 0;
        while k < output_size / 2
            invariant
                0 <= k <= output_size / 2,
                sinks == runtime_filter_sinks(join, state, output_size),
                items@.len() == 2 * k,
                forall|i: int| 0 <= i < items@.len() ==> #[trigger] items@[i] == sinks.items[i],
            decreases output_size / 2 - k,
        {
            items.push(
                PipeItem::create(
                    ProcessorPtr::create(Processor::HashJoinBuild { join }),
                    None,
                    1,
                    0,
                ),
            );
            items.push(
                PipeItem::create(
                    ProcessorPtr::create(Processor::SinkRuntimeFilterSource { source: state }),
                    None,
                    1,
                    0,
                ),
            );
            k += 1;
        }
        assert(items@ =~= sinks.items);
        proof {
            if sides_wf(before) {
                lemma_uniform_ports(sinks.items, 1, 0);
                lemma_with_pipe_wf(before[index as int], sinks);
            }
        }
        let mut pipeline = Pipeline::create();
        std::mem::swap(&mut pipeline, &mut self.pipelines[index]);
        pipeline.add_pipe(Pipe::create(output_size, 0, items));
        self.pipelines.set(index, pipeline);
        assert(pipelines_view(self.pipelines@) =~= before.update(
            index as int,
            before[index as int].with_pipe(sinks),
        ));
        Ok(())
    }

    fn build_runtime_filter(
        &mut self,
        left_side: &PhysicalPlan,
        runtime_filter_source: &RuntimeFilterSource,
        state: u32,
    ) -> (r: Result<(), ErrorCode>)
        requires
            old(self).ctx.settings.max_threads >= 1,
            *left_side == *runtime_filter_source.left_side,
            state == runtime_filter_source.plan_id,
            well_formed(*left_side, old(self)@.ready()),
        ensures
            final(self).env() == old(self).env(),
            agrees(
                r,
                final(self)@,
                match built(old(self).env(), old(self)@, *left_side) {
                    Err(e) => Err(e),
                    Ok(s) => runtime_filter_step(old(self).env(), s, *runtime_filter_source),
                },
            ),
            r is Ok ==> !walks_exchange(*left_side) && (old(self)@.ready()
                ==> final(self)@.ready()) && (gives_rows(*left_side)
                <==> final(self)@.main.is_pulling()),
            r is Ok && old(self)@.main.pipes.len() == 0 && sides_wf(old(self)@.sides)
                ==> final(self)@.shaped(),
        decreases *runtime_filter_source, 0nat,
    {
        proof {
            reveal(runtime_filter_step);
        }
        self.build_pipeline(left_side)?;
        self.main_pipeline.add_transform(
            self.counted(Processor::RuntimeFilter { source: state }, state),
            None,
        )?;
        Ok(())
    }

    /// The state that the sinks and the filters of `runtime_filter_source`
    /// share: it goes by the plan id of the source.
    fn build_runtime_filter_state(&self, runtime_filter_source: &RuntimeFilterSource) -> (r: Result<
        u32,
        ErrorCode,
    >)
        ensures
            r == Ok::<u32, ErrorCode>(runtime_filter_source.plan_id),
    {
        Ok(runtime_filter_source.plan_id)
    }
}

/// Calls `petgraph::matrix_graph::Zero::is_zero` on a `usize`, which compares
/// its argument with 0.
#[verifier::external_body]
fn is_zero(value: usize) -> (zero: bool)
    ensures
        zero == (value == 0),
{
    petgraph::matrix_graph::Zero::is_zero(&value)
}

/// What receives the output of the fragment behind `exchange_source`: one
/// source for each stream in which it arrives, reading as `injector` has it;
/// `Internal` if it arrives in no stream.
pub fn get_fragment_source(
    exchange_source: &ExchangeSource,
    prof_span_set: SharedProcessorProfiles,
    injector: ExchangeInjector,
) -> (r: Result<PipelineBuildResult, ErrorCode>)
    ensures
        (match fragment_source(*exchange_source, injector) {
            Ok(fragment) => r matches Ok(out) && out@ == fragment,
            Err(f) => r matches Err(e) && e@ == f,
        }),
        r matches Ok(out) ==> out.prof_span_set == prof_span_set && out@.main.wf()
            && out@.main.is_pulling(),
{
    let mut main_pipeline = Pipeline::create();
    assert(main_pipeline@ == empty_pipeline()) by {
        assert(main_pipeline@.pipes =~= Seq::empty());
        assert(main_pipeline@.operators =~= Seq::empty());
    }
    proof {
        lemma_no_pipes_wf(main_pipeline@);
    }
    main_pipeline.add_source(
        ProcessorPtr::create(
            Processor::ExchangeSource {
                fragment_id: exchange_source.source_fragment_id,
                injector,
            },
        ),
        exchange_source.streams,
    )?;
    let out = PipelineBuildResult {
        main_pipeline,
        sources_pipelines: Vec::new(),
        prof_span_set,
        exchange_injector: injector,
    };
    assert(out@.sources =~= Seq::empty());
    Ok(out)
}

/// The prefix of the keys under which the aggregations of `tenant` spill.
pub fn spill_location_prefix(tenant: &String) -> (prefix: String)
    ensures
        prefix@ == spill_prefix(tenant@),
{
    String::from_str("_aggregate_spill/").concat(tenant.as_str())
}

/// The failure of a scan that asks for row ids on a table of `engine`.
fn engine_without_row_id(engine: &String) -> (e: ErrorCode)
    ensures
        e@ == no_row_id(engine@),
{
    ErrorCode::TableEngineNotSupported(
        String::from_str("Table engine `").concat(engine.as_str()).concat(
            "` does not support virtual column _row_id",
        ),
    )
}

} // verus!

//! A pipeline: layers of processors, each layer feeding the next.
//!
//! A pipeline is a description. A processor is named by its kind and by the
//! plan node or shared state it works for; what a processor computes from is
//! held once, in the pipeline's list of operators, and the processors that
//! were made from it point there.

use crate::exception::ErrorCode;
use crate::exception::ErrorKind;
use crate::exception::Failure;
use crate::exception::failure;
use crate::expression::DataField;
use crate::expression::DataType;
use crate::expression::Expr;
use crate::executor::ColumnPair;
use crate::executor::WindowFuncFrameBound;
use crate::expression::FieldIndex;
use crate::expression::NumberDataType;
use vstd::prelude::*;

verus! {

/// How the keys of a group-by are hashed.
#[derive(Clone, Copy, Debug, PartialEq, Eq, Structural)]
pub enum HashMethodKind {
    Serializer,
    SingleString,
    KeysU8,
    KeysU16,
    KeysU32,
    KeysU64,
    KeysU128,
    KeysU256,
    DictionarySerializer,
}

/// How blocks are scattered and merged where a pipeline crosses nodes.
#[derive(Clone, Copy, Debug, PartialEq, Eq, Structural)]
pub enum ExchangeInjector {
    /// Scatter by the exchange's own keys.
    Default,
    /// Scatter aggregation states by the hash method of the aggregation;
    /// `with_states` says that there are aggregate functions besides the keys.
    Aggregate { method: HashMethodKind, with_states: bool },
}

/// The join types that the pipeline tells apart.
#[derive(Clone, Copy, Debug, PartialEq, Eq, Structural)]
pub enum JoinType {
    Cross,
    Inner,
    Left,
    Right,
    Full,
    LeftSemi,
    RightSemi,
    LeftAnti,
    RightAnti,
    LeftMark,
    RightMark,
    LeftSingle,
    RightSingle,
}

/// How a window frame counts.
#[derive(Clone, Copy, Debug, PartialEq, Eq, Structural)]
pub enum WindowFrame {
    /// By rows; bounds are row counts.
    Rows,
    /// By value; bounds are values of the given numeric type.
    Range(NumberDataType),
}

/// The kinds of processor.
#[derive(Clone, Copy, Debug, PartialEq, Eq, Structural)]
pub enum Processor {
    /// Reads the table of a scan; made by the storage engine.
    TableSource { plan_id: u32 },
    /// Reads staged files; made by the storage engine.
    StageSource { plan_id: u32 },
    /// Reads the rows that a deletion touches; made by the storage engine.
    MutationSource { plan_id: u32 },
    /// Receives the output of a fragment that runs elsewhere.
    ExchangeSource { fragment_id: usize, injector: ExchangeInjector },
    FillInternalColumn { plan_id: u32 },
    /// Keeps and reorders columns.
    Project,
    /// Keeps the rows for which a predicate holds.
    Filter,
    /// Appends computed columns.
    BlockMap,
    /// Appends the rows of set-returning functions.
    FlatMap,
    ExpandGroupingSets,
    PartialSingleStateAggregator,
    FinalSingleStateAggregator,
    PartialGroupBy { method: HashMethodKind },
    PartialAggregate { method: HashMethodKind },
    GroupBySpillWriter { method: HashMethodKind },
    AggregateSpillWriter { method: HashMethodKind },
    PartitionBucket { method: HashMethodKind, with_states: bool },
    GroupBySpillReader,
    AggregateSpillReader,
    FinalGroupBy { method: HashMethodKind },
    FinalAggregate { method: HashMethodKind },
    SortPartial,
    SortMerge,
    MultiSortMerge,
    Window { plan_id: u32, frame: WindowFrame },
    Limit { limit: Option<usize>, offset: usize },
    RowFetcher { plan_id: u32 },
    /// Feeds the build side of hash join `join`.
    HashJoinBuild { join: u32 },
    HashJoinProbe { join: u32, join_type: JoinType, has_non_equi_conditions: bool },
    MarkJoin { join: u32 },
    RangeJoinLeft { join: u32 },
    RangeJoinRight { join: u32 },
    /// Sends blocks into the channel of union `union`.
    UnionReceiveSink { union: u32 },
    /// Merges what it reads with what comes out of the channel of `union`.
    MergeBlock { union: u32 },
    CastSchema { plan_id: u32 },
    FillMissingColumns { plan_id: u32 },
    /// Appends to the target table.
    AppendSink { plan_id: u32 },
    RuntimeFilter { source: u32 },
    SinkRuntimeFilterSource { source: u32 },
    SerializeData { plan_id: u32 },
    /// Gathers the mutations of a statement and commits them.
    MutationAggregator { plan_id: u32 },
    CommitSink { plan_id: u32 },
    Resize,
    Duplicate { force_finish_together: bool },
    EmptySink,
}

/// Where the processors of a build report what they are counted for.
#[derive(Clone, Copy, Debug, PartialEq, Eq, Structural)]
pub struct SharedProcessorProfiles {
    pub handle: u64,
}

/// What wraps a processor whose work is counted: the plan node that it is
/// counted for, and where it reports.
#[derive(Clone, Copy, Debug, PartialEq, Eq, Structural)]
pub struct ProfileWrapper {
    pub plan_id: u32,
    pub prof_span_set: SharedProcessorProfiles,
}

/// A processor as it is put into a pipe: its kind and, where its work is
/// counted, what it is wrapped in.
#[derive(Clone, Copy, Debug, PartialEq, Eq, Structural)]
pub struct ProcessorPtr {
    pub processor: Processor,
    pub profile: Option<ProfileWrapper>,
}

impl ProcessorPtr {
    pub fn create(processor: Processor) -> (ptr: Self)
        ensures
            ptr == (ProcessorPtr { processor, profile: None }),
    {
        ProcessorPtr { processor, profile: None }
    }

    /// `processor`, with its work counted for `plan_id` and reported to
    /// `prof_span_set` if `enable_profiling`.
    pub fn profiled(
        processor: Processor,
        enable_profiling: bool,
        plan_id: u32,
        prof_span_set: SharedProcessorProfiles,
    ) -> (ptr: Self)
        ensures
            ptr == Self::spec_profiled(processor, enable_profiling, plan_id, prof_span_set),
    {
        if enable_profiling {
            ProcessorPtr { processor, profile: Some(ProfileWrapper { plan_id, prof_span_set }) }
        } else {
            ProcessorPtr { processor, profile: None }
        }
    }

    pub open spec fn spec_profiled(
        processor: Processor,
        enable_profiling: bool,
        plan_id: u32,
        prof_span_set: SharedProcessorProfiles,
    ) -> Self {
        ProcessorPtr {
            processor,
            profile: if enable_profiling {
                Some(ProfileWrapper { plan_id, prof_span_set })
            } else {
                None
            },
        }
    }
}

/// How one column is sorted.
#[derive(Clone, Copy, Debug, PartialEq, Eq, Structural)]
pub struct SortColumnDescription {
    pub offset: usize,
    pub asc: bool,
    pub nulls_first: bool,
    pub is_nullable: bool,
}

/// What the aggregators of one group-by work from.
#[derive(Debug)]
pub struct AggregatorParams {
    /// Number of fields of the input.
    pub input_fields: usize,
    /// Where the keys stand in the input.
    pub group_columns: Vec<usize>,
    /// The fields of the keys: their types, and whether they can be null.
    pub group_data_types: Vec<DataField>,
    /// Number of aggregate functions.
    pub aggregate_functions: usize,
    pub limit: Option<usize>,
}

pub struct AggregatorParamsView {
    pub input_fields: usize,
    pub group_columns: Seq<usize>,
    pub group_data_types: Seq<DataField>,
    pub aggregate_functions: usize,
    pub limit: Option<usize>,
}

impl View for AggregatorParams {
    type V = AggregatorParamsView;

    open spec fn view(&self) -> AggregatorParamsView {
        AggregatorParamsView {
            input_fields: self.input_fields,
            group_columns: self.group_columns@,
            group_data_types: self.group_data_types@,
            aggregate_functions: self.aggregate_functions,
            limit: self.limit,
        }
    }
}

impl Clone for AggregatorParams {
    fn clone(&self) -> (res: Self)
        ensures
            res@ == self@,
    {
        AggregatorParams {
            input_fields: self.input_fields,
            group_columns: self.group_columns.clone(),
            group_data_types: self.group_data_types.clone(),
            aggregate_functions: self.aggregate_functions,
            limit: self.limit,
        }
    }
}

/// What the processors of one layer were made from.
#[derive(Debug)]
pub enum OperatorParams {
    Project { projection: Vec<FieldIndex>, num_input_columns: usize },
    Filter { expr: Expr, num_input_columns: usize },
    BlockMap { exprs: Vec<Expr>, num_input_columns: usize },
    FlatMap { srf_exprs: Vec<Expr>, num_input_columns: usize },
    ExpandGroupingSets { group_bys: Vec<(usize, DataType)>, grouping_ids: Vec<usize> },
    Aggregator { params: AggregatorParams },
    /// What the processors of a sort work from: the keys, the limit, and the
    /// rows per block of the pieces and of the merged result.
    Sort {
        sort_desc: Vec<SortColumnDescription>,
        limit: Option<usize>,
        partial_block_size: usize,
        final_block_size: usize,
    },
    Window {
        partition_by: Vec<usize>,
        order_by: Vec<SortColumnDescription>,
        start_bound: WindowFuncFrameBound,
        end_bound: WindowFuncFrameBound,
    },
    /// What a spill writer works from: the prefix of the keys that it
    /// spills under and, where it spills aggregation states, what the
    /// aggregators work from.
    SpillWriter { location_prefix: String, aggregator: Option<AggregatorParams> },
    /// What the merge of a union works from: the fields of its two sides,
    /// and which columns of them make up each column of the result.
    MergeBlock {
        left_fields: Vec<DataField>,
        right_fields: Vec<DataField>,
        pairs: Vec<ColumnPair>,
    },
}

pub enum OperatorView {
    Project { projection: Seq<FieldIndex>, num_input_columns: usize },
    Filter { expr: Expr, num_input_columns: usize },
    BlockMap { exprs: Seq<Expr>, num_input_columns: usize },
    FlatMap { srf_exprs: Seq<Expr>, num_input_columns: usize },
    ExpandGroupingSets { group_bys: Seq<(usize, DataType)>, grouping_ids: Seq<usize> },
    Aggregator { params: AggregatorParamsView },
    Sort {
        sort_desc: Seq<SortColumnDescription>,
        limit: Option<usize>,
        partial_block_size: usize,
        final_block_size: usize,
    },
    Window {
        partition_by: Seq<usize>,
        order_by: Seq<SortColumnDescription>,
        start_bound: WindowFuncFrameBound,
        end_bound: WindowFuncFrameBound,
    },
    SpillWriter { location_prefix: Seq<char>, aggregator: Option<AggregatorParamsView> },
    MergeBlock {
        left_fields: Seq<DataField>,
        right_fields: Seq<DataField>,
        pairs: Seq<ColumnPair>,
    },
}

impl View for OperatorParams {
    type V = OperatorView;

    open spec fn view(&self) -> OperatorView {
        match self {
            OperatorParams::Project { projection, num_input_columns } => OperatorView::Project {
                projection: projection@,
                num_input_columns: *num_input_columns,
            },
            OperatorParams::Filter { expr, num_input_columns } => OperatorView::Filter {
                expr: *expr,
                num_input_columns: *num_input_columns,
            },
            OperatorParams::BlockMap { exprs, num_input_columns } => OperatorView::BlockMap {
                exprs: exprs@,
                num_input_columns: *num_input_columns,
            },
            OperatorParams::FlatMap { srf_exprs, num_input_columns } => OperatorView::FlatMap {
                srf_exprs: srf_exprs@,
                num_input_columns: *num_input_columns,
            },
            OperatorParams::ExpandGroupingSets {
                group_bys,
                grouping_ids,
            } => OperatorView::ExpandGroupingSets {
                group_bys: group_bys@,
                grouping_ids: grouping_ids@,
            },
            OperatorParams::Aggregator { params } => OperatorView::Aggregator { params: params@ },
            OperatorParams::Sort {
                sort_desc,
                limit,
                partial_block_size,
                final_block_size,
            } => OperatorView::Sort {
                sort_desc: sort_desc@,
                limit: *limit,
                partial_block_size: *partial_block_size,
                final_block_size: *final_block_size,
            },
            OperatorParams::Window {
                partition_by,
                order_by,
                start_bound,
                end_bound,
            } => OperatorView::Window {
                partition_by: partition_by@,
                order_by: order_by@,
                start_bound: *start_bound,
                end_bound: *end_bound,
            },
            OperatorParams::MergeBlock {
                left_fields,
                right_fields,
                pairs,
            } => OperatorView::MergeBlock {
                left_fields: left_fields@,
                right_fields: right_fields@,
                pairs: pairs@,
            },
            OperatorParams::SpillWriter {
                location_prefix,
                aggregator,
            } => OperatorView::SpillWriter {
                location_prefix: location_prefix@,
                aggregator: match aggregator {
                    Some(p) => Some(p@),
                    None => None,
                },
            },
        }
    }
}

/// The view of operator parameters that may be there.
pub open spec fn operator_view(params: Option<OperatorParams>) -> Option<OperatorView> {
    match params {
        Some(p) => Some(p@),
        None => None,
    }
}

/// One processor in a pipe, with the number of its input and output ports
/// and, if it was made from operator parameters, their place in the
/// pipeline's list.
#[derive(Clone, Copy, Debug, PartialEq, Eq, Structural)]
pub struct PipeItem {
    pub processor: ProcessorPtr,
    pub params: Option<usize>,
    pub inputs_port: usize,
    pub outputs_port: usize,
}

impl PipeItem {
    pub fn create(
        processor: ProcessorPtr,
        params: Option<usize>,
        inputs_port: usize,
        outputs_port: usize,
    ) -> (item: Self)
        ensures
            item == (PipeItem { processor, params, inputs_port, outputs_port }),
    {
        PipeItem { processor, params, inputs_port, outputs_port }
    }
}

/// One layer of a pipeline.
#[derive(Debug)]
pub struct Pipe {
    pub items: Vec<PipeItem>,
    pub input_length: usize,
    pub output_length: usize,
}

pub struct PipeView {
    pub items: Seq<PipeItem>,
    pub input_length: usize,
    pub output_length: usize,
}

impl View for Pipe {
    type V = PipeView;

    open spec fn view(&self) -> PipeView {
        PipeView {
            items: self.items@,
            input_length: self.input_length,
            output_length: self.output_length,
        }
    }
}

impl Pipe {
    pub fn create(inputs: usize, outputs: usize, items: Vec<PipeItem>) -> (pipe: Self)
        ensures
            pipe@ == (PipeView { items: items@, input_length: inputs, output_length: outputs }),
    {
        Pipe { items, input_length: inputs, output_length: outputs }
    }
}

/// The input ports of `items`, counted.
pub open spec fn input_ports(items: Seq<PipeItem>) -> int
    decreases items.len(),
{
    if items.len() == 0 {
        0
    } else {
        input_ports(items.drop_last()) + items.last().inputs_port
    }
}

/// The output ports of `items`, counted.
pub open spec fn output_ports(items: Seq<PipeItem>) -> int
    decreases items.len(),
{
    if items.len() == 0 {
        0
    } else {
        output_ports(items.drop_last()) + items.last().outputs_port
    }
}

/// `n` processors alike.
pub open spec fn alike(item: PipeItem, n: int) -> Seq<PipeItem> {
    Seq::new(n as nat, |i: int| item)
}

pub proof fn lemma_alike_ports(item: PipeItem, n: int)
    requires
        0 <= n,
    ensures
        input_ports(alike(item, n)) == n * item.inputs_port,
        output_ports(alike(item, n)) == n * item.outputs_port,
    decreases n,
{
    if n > 0 {
        lemma_alike_ports(item, n - 1);
        assert(alike(item, n).drop_last() =~= alike(item, n - 1));
        assert(alike(item, n).last() == item);
        assert(n * item.inputs_port == (n - 1) * item.inputs_port + item.inputs_port)
            by (nonlinear_arith);
        assert(n * item.outputs_port == (n - 1) * item.outputs_port + item.outputs_port)
            by (nonlinear_arith);
    } else {
        assert(alike(item, n).len() == 0);
        assert(n * item.inputs_port == 0 && n * item.outputs_port == 0) by (nonlinear_arith)
            requires
                n == 0,
        ;
    }
}

/// What a pipeline holds: its pipes, first to last, and its operators.
pub struct PipelineView {
    pub pipes: Seq<PipeView>,
    pub operators: Seq<OperatorView>,
}

impl PipelineView {
    /// Open output ports at the end of the pipeline.
    pub open spec fn output_len(self) -> usize {
        if self.pipes.len() == 0 {
            0
        } else {
            self.pipes.last().output_length
        }
    }

    /// The pipeline has pipes and leaves output ports open.
    pub open spec fn is_pulling(self) -> bool {
        self.output_len() != 0
    }

    /// The pipeline has pipes and open input ports at its start.
    pub open spec fn is_pushing(self) -> bool {
        self.pipes.len() > 0 && self.pipes[0].input_length != 0
    }

    /// The pipeline has pipes, starts with sources and ends with sinks.
    pub open spec fn is_complete(self) -> bool {
        self.pipes.len() > 0 && !self.is_pushing() && !self.is_pulling()
    }

    /// Each pipe counts its ports rightly and has as many input ports as the
    /// pipe before it has output ports; the first pipe has none; and every
    /// processor that points at an operator points at one that is there.
    #[verifier::opaque]
    pub open spec fn wf(self) -> bool {
        &&& forall|i: int|
            0 <= i < self.pipes.len() ==> {
                &&& (#[trigger] self.pipes[i]).input_length == input_ports(self.pipes[i].items)
                &&& self.pipes[i].output_length == output_ports(self.pipes[i].items)
                &&& self.pipes[i].input_length == (if i == 0 {
                    0
                } else {
                    self.pipes[i - 1].output_length
                })
            }
        &&& forall|i: int, k: int|
            0 <= i < self.pipes.len() && 0 <= k < self.pipes[i].items.len() ==> ((
            #[trigger] self.pipes[i].items[k]).params matches Some(p) ==> p < self.operators.len())
    }

    /// This pipeline with `pipe` as its new last pipe.
    pub open spec fn with_pipe(self, pipe: PipeView) -> PipelineView {
        PipelineView { pipes: self.pipes.push(pipe), operators: self.operators }
    }

    /// The place that the next operator will get.
    pub open spec fn next_operator(self, params: Option<OperatorView>) -> Option<usize> {
        match params {
            Some(_) => Some(self.operators.len() as usize),
            None => None,
        }
    }

    /// This pipeline with `params`, if any, added to its operators.
    pub open spec fn with_operator(self, params: Option<OperatorView>) -> PipelineView {
        match params {
            Some(p) => PipelineView { pipes: self.pipes, operators: self.operators.push(p) },
            None => self,
        }
    }

    /// This pipeline with one more pipe: `width` processors alike, made from
    /// `params`, each with `inputs` input ports and `outputs` output ports.
    #[verifier::opaque]
    pub open spec fn with_layer(
        self,
        processor: ProcessorPtr,
        params: Option<OperatorView>,
        width: int,
        inputs: usize,
        outputs: usize,
    ) -> PipelineView {
        self.with_operator(params).with_pipe(
            PipeView {
                items: alike(
                    PipeItem {
                        processor,
                        params: self.next_operator(params),
                        inputs_port: inputs,
                        outputs_port: outputs,
                    },
                    width,
                ),
                input_length: (width * inputs) as usize,
                output_length: (width * outputs) as usize,
            },
        )
    }

    /// This pipeline with `numbers` sources at its end.
    pub open spec fn with_source(self, processor: ProcessorPtr, numbers: int) -> PipelineView {
        self.with_layer(processor, None, numbers, 0, 1)
    }

    /// This pipeline with one `processor` put behind each open output port.
    pub open spec fn with_transform(
        self,
        processor: ProcessorPtr,
        params: Option<OperatorView>,
    ) -> PipelineView {
        self.with_layer(processor, params, self.output_len() as int, 1, 1)
    }

    /// This pipeline with each open output port closed by a `processor`.
    pub open spec fn with_sink(self, processor: ProcessorPtr) -> PipelineView {
        self.with_layer(processor, None, self.output_len() as int, 1, 0)
    }

    /// Whether the pipeline has output ports to spread anew.
    pub open spec fn can_resize(self) -> bool {
        self.output_len() != 0
    }

    /// This pipeline with its open output ports spread over `new_size` ports:
    /// unchanged if it has that many, else with one processor that takes all
    /// and feeds `new_size`.
    pub open spec fn resized(self, new_size: usize) -> PipelineView {
        if self.output_len() == new_size {
            self
        } else {
            self.with_layer(ProcessorPtr { processor: Processor::Resize, profile: None }, None, 1,
                self.output_len(), new_size)
        }
    }

    /// Whether the pipeline has output ports, and few enough to double them.
    pub open spec fn can_duplicate(self) -> bool {
        self.can_resize() && self.output_len() <= usize::MAX / 2
    }

    /// This pipeline with every open output port doubled.
    pub open spec fn duplicated(self, force_finish_together: bool) -> PipelineView {
        self.with_layer(
            ProcessorPtr {
                processor: Processor::Duplicate { force_finish_together },
                profile: None,
            },
            None,
            self.output_len() as int,
            1,
            2,
        )
    }
}

/// A new layer leaves as many output ports open as its processors have.
pub proof fn lemma_with_layer(
    pipeline: PipelineView,
    processor: ProcessorPtr,
    params: Option<OperatorView>,
    width: int,
    inputs: usize,
    outputs: usize,
)
    ensures
        pipeline.with_layer(processor, params, width, inputs, outputs).output_len() == (width
            * outputs) as usize,
        pipeline.with_layer(processor, params, width, inputs, outputs).pipes.len()
            == pipeline.pipes.len() + 1,
        pipeline.pipes.len() > 0 ==> pipeline.with_layer(
            processor,
            params,
            width,
            inputs,
            outputs,
        ).pipes[0] == pipeline.pipes[0],
        pipeline.pipes.len() == 0 ==> pipeline.with_layer(
            processor,
            params,
            width,
            inputs,
            outputs,
        ).pipes[0].input_length == (width * inputs) as usize,
{
    reveal(PipelineView::with_layer);
}

/// Processors that all have `inputs` input ports and `outputs` output ports
/// have, together, as many times as many.
pub proof fn lemma_uniform_ports(items: Seq<PipeItem>, inputs: usize, outputs: usize)
    requires
        forall|k: int|
            0 <= k < items.len() ==> (#[trigger] items[k]).inputs_port == inputs
                && items[k].outputs_port == outputs,
    ensures
        input_ports(items) == items.len() * inputs,
        output_ports(items) == items.len() * outputs,
    decreases items.len(),
{
    if items.len() > 0 {
        let rest = items.drop_last();
        assert forall|k: int| 0 <= k < rest.len() implies (#[trigger] rest[k]).inputs_port
            == inputs && rest[k].outputs_port == outputs by {
            assert(rest[k] == items[k]);
        }
        lemma_uniform_ports(rest, inputs, outputs);
        assert(items[items.len() - 1].inputs_port == inputs);
        assert(items.len() * inputs == (items.len() - 1) * inputs + inputs) by (nonlinear_arith);
        assert(items.len() * outputs == (items.len() - 1) * outputs + outputs)
            by (nonlinear_arith);
    } else {
        assert(items.len() * inputs == 0 && items.len() * outputs == 0) by (nonlinear_arith)
            requires
                items.len() == 0,
        ;
    }
}

/// A pipeline without pipes is well formed.
pub proof fn lemma_no_pipes_wf(pipeline: PipelineView)
    requires
        pipeline.pipes.len() == 0,
    ensures
        pipeline.wf(),
{
    reveal(PipelineView::wf);
}

/// A pipe that counts its ports rightly, takes what the pipeline leaves open
/// and points at operators that are there keeps the pipeline well formed.
pub proof fn lemma_with_pipe_wf(pipeline: PipelineView, pipe: PipeView)
    requires
        pipeline.wf(),
        pipe.input_length == input_ports(pipe.items),
        pipe.output_length == output_ports(pipe.items),
        pipe.input_length == pipeline.output_len(),
        forall|k: int|
            0 <= k < pipe.items.len() ==> ((#[trigger] pipe.items[k]).params matches Some(p) ==> p
                < pipeline.operators.len()),
    ensures
        pipeline.with_pipe(pipe).wf(),
{
    reveal(PipelineView::wf);
    let after = pipeline.with_pipe(pipe);
    assert forall|i: int| 0 <= i < after.pipes.len() implies {
        &&& (#[trigger] after.pipes[i]).input_length == input_ports(after.pipes[i].items)
        &&& after.pipes[i].output_length == output_ports(after.pipes[i].items)
        &&& after.pipes[i].input_length == (if i == 0 {
            0
        } else {
            after.pipes[i - 1].output_length
        })
    } by {
        if i < pipeline.pipes.len() {
            assert(after.pipes[i] == pipeline.pipes[i]);
            if i > 0 {
                assert(after.pipes[i - 1] == pipeline.pipes[i - 1]);
            }
        } else if i > 0 {
            assert(after.pipes[i - 1] == pipeline.pipes[i - 1]);
        }
    }
    assert forall|i: int, k: int|
        0 <= i < after.pipes.len() && 0 <= k < after.pipes[i].items.len() implies ((
    #[trigger] after.pipes[i].items[k]).params matches Some(p) ==> p < after.operators.len()) by {
        if i < pipeline.pipes.len() {
            assert(after.pipes[i] == pipeline.pipes[i]);
        }
    }
}

/// A layer that takes what the pipeline leaves open keeps it well formed.
pub proof fn lemma_with_layer_wf(
    pipeline: PipelineView,
    processor: ProcessorPtr,
    params: Option<OperatorView>,
    width: int,
    inputs: usize,
    outputs: usize,
)
    requires
        pipeline.wf(),
        0 <= width,
        width * inputs <= usize::MAX,
        width * outputs <= usize::MAX,
        width * inputs == pipeline.output_len(),
    ensures
        pipeline.with_layer(processor, params, width, inputs, outputs).wf(),
{
    reveal(PipelineView::with_layer);
    let grown = pipeline.with_operator(params);
    assert(grown.wf()) by {
        reveal(PipelineView::wf);
    }
    let item = PipeItem {
        processor,
        params: pipeline.next_operator(params),
        inputs_port: inputs,
        outputs_port: outputs,
    };
    lemma_alike_ports(item, width);
    lemma_with_pipe_wf(
        grown,
        PipeView {
            items: alike(item, width),
            input_length: (width * inputs) as usize,
            output_length: (width * outputs) as usize,
        },
    );
}

/// A graph of processors: pipes in a row, and the operators that the
/// processors were made from.
#[derive(Debug)]
pub struct Pipeline {
    pub pipes: Vec<Pipe>,
    pub operators: Vec<OperatorParams>,
}

impl View for Pipeline {
    type V = PipelineView;

    open spec fn view(&self) -> PipelineView {
        PipelineView {
            pipes: self.pipes@.map_values(|p: Pipe| p@),
            operators: self.operators@.map_values(|o: OperatorParams| o@),
        }
    }
}

/// What a pipeline fails with when it is to get sources without an output
/// port.
pub open spec fn no_source_ports() -> Failure {
    failure(ErrorKind::Internal, "Source output port numbers cannot be zero."@)
}

/// What a pipeline fails with when it has no open output port to spread.
pub open spec fn cannot_resize() -> Failure {
    failure(ErrorKind::Internal, "Cannot resize empty pipe."@)
}

/// What a pipeline fails with when it has no open output port to double, or
/// more than can be doubled.
pub open spec fn cannot_duplicate() -> Failure {
    failure(ErrorKind::Internal, "Cannot duplicate empty pipe."@)
}

impl Pipeline {
    pub fn create() -> (pipeline: Self)
        ensures
            pipeline@.pipes.len() == 0,
            pipeline@.operators.len() == 0,
            pipeline@.wf(),
    {
        let pipeline = Pipeline { pipes: Vec::new(), operators: Vec::new() };
        proof {
            lemma_no_pipes_wf(pipeline@);
        }
        pipeline
    }

    pub fn is_empty(&self) -> (b: bool)
        ensures
            b == (self@.pipes.len() == 0),
    {
        self.pipes.len() == 0
    }

    /// Whether data must be pushed into this pipeline; `Internal` when it has
    /// no pipe.
    pub fn is_pushing_pipeline(&self) -> (r: Result<bool, ErrorCode>)
        ensures
            self@.pipes.len() == 0 ==> (r matches Err(e) && e@ == failure(
                ErrorKind::Internal,
                "Logical error, call is_pushing on empty pipeline."@,
            )),
            self@.pipes.len() > 0 ==> r == Ok::<bool, ErrorCode>(self@.is_pushing()),
    {
        if self.pipes.len() == 0 {
            Err(ErrorCode::Internal("Logical error, call is_pushing on empty pipeline.".to_string()))
        } else {
            assert(self@.pipes[0] == self.pipes@[0]@);
            Ok(self.pipes[0].input_length != 0)
        }
    }

    /// Whether data must be pulled out of this pipeline; `Internal` when it
    /// has no pipe.
    pub fn is_pulling_pipeline(&self) -> (r: Result<bool, ErrorCode>)
        ensures
            self@.pipes.len() == 0 ==> (r matches Err(e) && e@ == failure(
                ErrorKind::Internal,
                "Logical error, call is_pulling on empty pipeline."@,
            )),
            self@.pipes.len() > 0 ==> r == Ok::<bool, ErrorCode>(self@.is_pulling()),
    {
        if self.pipes.len() == 0 {
            Err(ErrorCode::Internal("Logical error, call is_pulling on empty pipeline.".to_string()))
        } else {
            assert(self@.pipes.last() == self.pipes@.last()@);
            Ok(self.pipes[self.pipes.len() - 1].output_length != 0)
        }
    }

    /// Whether this pipeline only needs to be run.
    pub fn is_complete_pipeline(&self) -> (r: Result<bool, ErrorCode>)
        ensures
            r == Ok::<bool, ErrorCode>(self@.is_complete()),
    {
        if self.pipes.len() == 0 {
            return Ok(false);
        }
        let pushing = self.is_pushing_pipeline()?;
        let pulling = self.is_pulling_pipeline()?;
        Ok(!pushing && !pulling)
    }

    pub fn output_len(&self) -> (n: usize)
        ensures
            n == self@.output_len(),
    {
        if self.pipes.len() == 0 {
            0
        } else {
            assert(self@.pipes.last() == self.pipes@.last()@);
            self.pipes[self.pipes.len() - 1].output_length
        }
    }

    pub fn add_pipe(&mut self, pipe: Pipe)
        ensures
            final(self)@ == old(self)@.with_pipe(pipe@),
    {
        self.pipes.push(pipe);
        assert(self@.pipes =~= old(self)@.pipes.push(pipe@));
    }

    /// Adds the operator `params`, if any, and says where it stands.
    fn add_operator(&mut self, params: Option<OperatorParams>) -> (place: Option<usize>)
        ensures
            final(self)@ == old(self)@.with_operator(
                operator_view(params),
            ),
            place == old(self)@.next_operator(
                operator_view(params),
            ),
    {
        match params {
            Some(p) => {
                let place = self.operators.len();
                self.operators.push(p);
                assert(self@.operators =~= old(self)@.operators.push(p@));
                Some(place)
            },
            None => None,
        }
    }

    /// Adds a pipe of `width` processors alike.
    fn add_layer(
        &mut self,
        processor: ProcessorPtr,
        params: Option<OperatorParams>,
        width: usize,
        inputs: usize,
        outputs: usize,
    )
        requires
            width * inputs <= usize::MAX,
            width * outputs <= usize::MAX,
        ensures
            final(self)@ == old(self)@.with_layer(
                processor,
                operator_view(params),
                width as int,
                inputs,
                outputs,
            ),
    {
        proof {
            reveal(PipelineView::with_layer);
        }
        let place = self.add_operator(params);
        let item = PipeItem::create(processor, place, inputs, outputs);
        let mut items: Vec<PipeItem> = Vec::with_capacity(width);
        let mut i: usize = 0;
        while i < width
            invariant
                0 <= i <= width,
                items@ == alike(item, i as int),
            decreases width - i,
        {
            items.push(item);
            i += 1;
            assert(items@ =~= alike(item, i as int));
        }
        self.add_pipe(Pipe::create(width * inputs, width * outputs, items));
    }

    /// Adds one processor that takes every open output port and feeds one.
    pub fn add_merge(&mut self, processor: ProcessorPtr, params: Option<OperatorParams>)
        ensures
            final(self)@ == old(self)@.with_layer(
                processor,
                operator_view(params),
                1,
                old(self)@.output_len(),
                1,
            ),
            final(self)@.output_len() == 1,
            old(self)@.wf() ==> final(self)@.wf(),
    {
        let width = self.output_len();
        assert(1 * width == width && 1 * 1 == 1) by (nonlinear_arith);
        proof {
            if self@.wf() {
                lemma_with_layer_wf(self@, processor, operator_view(params), 1, width, 1);
            }
            lemma_with_layer(
                self@,
                processor,
                operator_view(params),
                1,
                width,
                1,
            );
        }
        self.add_layer(processor, params, 1, width, 1);
    }

    /// Adds `numbers` sources; `Internal` when `numbers` is 0.
    pub fn add_source(&mut self, processor: ProcessorPtr, numbers: usize) -> (r: Result<
        (),
        ErrorCode,
    >)
        ensures
            numbers == 0 ==> (r matches Err(e) && e@ == no_source_ports()) && final(self)@
                == old(self)@,
            numbers > 0 ==> r is Ok && final(self)@ == old(self)@.with_source(
                processor,
                numbers as int,
            ) && final(self)@.output_len() == numbers,
            numbers > 0 && old(self)@.wf() && old(self)@.output_len() == 0 ==> final(self)@.wf(),
    {
        if numbers == 0 {
            return Err(
                ErrorCode::Internal("Source output port numbers cannot be zero.".to_string()),
            );
        }
        assert(numbers * 0 == 0 && numbers * 1 == numbers) by (nonlinear_arith);
        proof {
            lemma_with_layer(self@, processor, None, numbers as int, 0, 1);
            if self@.wf() && self@.output_len() == 0 {
                lemma_with_layer_wf(self@, processor, None, numbers as int, 0, 1);
            }
        }
        self.add_layer(processor, None, numbers, 0, 1);
        Ok(())
    }

    /// Puts one `processor`, made from `params`, behind each open output
    /// port.
    pub fn add_transform(&mut self, processor: ProcessorPtr, params: Option<OperatorParams>) -> (r:
        Result<(), ErrorCode>)
        ensures
            r is Ok,
            final(self)@ == old(self)@.with_transform(
                processor,
                operator_view(params),
            ),
            final(self)@.output_len() == old(self)@.output_len(),
            old(self)@.wf() ==> final(self)@.wf(),
    {
        let width = self.output_len();
        assert(width * 1 == width) by (nonlinear_arith);
        proof {
            if self@.wf() {
                lemma_with_layer_wf(self@, processor, operator_view(params), width as int, 1, 1);
            }
            lemma_with_layer(
                self@,
                processor,
                operator_view(params),
                width as int,
                1,
                1,
            );
        }
        self.add_layer(processor, params, width, 1, 1);
        Ok(())
    }

    /// Closes each open output port with a `processor`.
    pub fn add_sink(&mut self, processor: ProcessorPtr) -> (r: Result<(), ErrorCode>)
        ensures
            r is Ok,
            final(self)@ == old(self)@.with_sink(processor),
            final(self)@.output_len() == 0,
            final(self)@.pipes.len() > 0,
            old(self)@.pipes.len() > 0 ==> final(self)@.pipes[0] == old(self)@.pipes[0],
            old(self)@.wf() ==> final(self)@.wf(),
    {
        let width = self.output_len();
        assert(width * 1 == width && width * 0 == 0) by (nonlinear_arith);
        proof {
            if self@.wf() {
                lemma_with_layer_wf(self@, processor, None, width as int, 1, 0);
            }
            lemma_with_layer(self@, processor, None, width as int, 1, 0);
        }
        self.add_layer(processor, None, width, 1, 0);
        Ok(())
    }

    /// Spreads the open output ports over `new_size` ports; `Internal` when
    /// there is none to spread.
    pub fn try_resize(&mut self, new_size: usize) -> (r: Result<(), ErrorCode>)
        ensures
            !old(self)@.can_resize() ==> (r matches Err(e) && e@ == cannot_resize())
                && final(self)@ == old(self)@,
            old(self)@.can_resize() ==> r is Ok && final(self)@ == old(self)@.resized(new_size)
                && final(self)@.output_len() == new_size,
            old(self)@.wf() ==> final(self)@.wf(),
    {
        let width = self.output_len();
        if width == 0 {
            return Err(ErrorCode::Internal("Cannot resize empty pipe.".to_string()));
        }
        if width == new_size {
            return Ok(());
        }
        assert(1 * width == width && 1 * new_size == new_size) by (nonlinear_arith);
        proof {
            if self@.wf() {
                lemma_with_layer_wf(
                    self@,
                    ProcessorPtr { processor: Processor::Resize, profile: None },
                    None,
                    1,
                    width,
                    new_size,
                );
            }
            lemma_with_layer(
                self@,
                ProcessorPtr { processor: Processor::Resize, profile: None },
                None,
                1,
                width,
                new_size,
            );
        }
        self.add_layer(ProcessorPtr::create(Processor::Resize), None, 1, width, new_size);
        Ok(())
    }

    /// Doubles every open output port; `Internal` when there is none, or
    /// more than can be doubled.
    pub fn duplicate(&mut self, force_finish_together: bool) -> (r: Result<(), ErrorCode>)
        ensures
            !old(self)@.can_duplicate() ==> (r matches Err(e) && e@ == cannot_duplicate())
                && final(self)@ == old(self)@,
            old(self)@.can_duplicate() ==> r is Ok && final(self)@ == old(self)@.duplicated(
                force_finish_together,
            ) && final(self)@.output_len() == old(self)@.output_len() * 2,
            old(self)@.wf() ==> final(self)@.wf(),
    {
        let width = self.output_len();
        if width == 0 || width > usize::MAX / 2 {
            return Err(ErrorCode::Internal("Cannot duplicate empty pipe.".to_string()));
        }
        assert(width * 1 == width) by (nonlinear_arith);
        proof {
            if self@.wf() {
                lemma_with_layer_wf(
                    self@,
                    ProcessorPtr {
                        processor: Processor::Duplicate { force_finish_together },
                        profile: None,
                    },
                    None,
                    width as int,
                    1,
                    2,
                );
            }
            lemma_with_layer(
                self@,
                ProcessorPtr {
                    processor: Processor::Duplicate { force_finish_together },
                    profile: None,
                },
                None,
                width as int,
                1,
                2,
            );
        }
        self.add_layer(
            ProcessorPtr::create(Processor::Duplicate { force_finish_together }),
            None,
            width,
            1,
            2,
        );
        Ok(())
    }
}

} // verus!

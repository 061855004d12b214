//! Physical plans: what the optimizer hands to the pipeline builder.

use crate::expression::DataSchema;
use crate::expression::FieldIndex;
use crate::expression::IndexType;
use crate::expression::RemoteExpr;
use crate::expression::Scalar;
use crate::pipelines::pipeline::JoinType;
use vstd::prelude::*;

verus! {

/// A field of a table, by its name in the table.
#[derive(Debug)]
pub struct TableField {
    pub name: String,
}

/// What the storage engine needs to read a table, and what planning needs to
/// know of the engine.
#[derive(Debug)]
pub struct DataSourcePlan {
    /// The fields of the table, in the order in which the engine returns them.
    pub schema: Vec<TableField>,
    /// The streams that the engine reads the source into.
    pub streams: usize,
    pub engine: String,
    pub support_row_id_column: bool,
}

#[derive(Debug)]
pub struct TableScan {
    pub plan_id: u32,
    pub output_schema: DataSchema,
    /// The columns to read, by name, in the order of their names, each with
    /// the identifier that the binder gave it.
    pub name_mapping: Vec<(String, IndexType)>,
    pub source: DataSourcePlan,
    /// The internal columns to fill in, if any.
    pub internal_column: Option<Vec<FieldIndex>>,
}

#[derive(Debug)]
pub struct Filter {
    pub plan_id: u32,
    pub output_schema: DataSchema,
    pub input: Box<PhysicalPlan>,
    pub predicates: Vec<RemoteExpr>,
}

#[derive(Debug)]
pub struct Project {
    pub plan_id: u32,
    pub output_schema: DataSchema,
    pub input: Box<PhysicalPlan>,
    pub projections: Vec<FieldIndex>,
}

#[derive(Debug)]
pub struct EvalScalar {
    pub plan_id: u32,
    pub output_schema: DataSchema,
    pub input: Box<PhysicalPlan>,
    /// Each expression with the identifier of the column it defines.
    pub exprs: Vec<(RemoteExpr, IndexType)>,
}

#[derive(Debug)]
pub struct ProjectSet {
    pub plan_id: u32,
    pub output_schema: DataSchema,
    pub input: Box<PhysicalPlan>,
    pub srf_exprs: Vec<(RemoteExpr, IndexType)>,
}

#[derive(Debug)]
pub struct AggregateExpand {
    pub plan_id: u32,
    pub output_schema: DataSchema,
    pub input: Box<PhysicalPlan>,
    /// The keys; the last one is the virtual column that tells the grouping
    /// sets apart.
    pub group_bys: Vec<IndexType>,
    pub grouping_sets: Vec<Vec<IndexType>>,
}

/// One aggregate function of a plan: the function, as the registry knows it,
/// and the columns it reads.
#[derive(Debug)]
pub struct AggregateFunctionDesc {
    pub function: u64,
    pub args: Vec<usize>,
}

#[derive(Debug)]
pub struct AggregatePartial {
    pub plan_id: u32,
    pub output_schema: DataSchema,
    pub input: Box<PhysicalPlan>,
    pub group_by: Vec<IndexType>,
    pub agg_funcs: Vec<AggregateFunctionDesc>,
}

#[derive(Debug)]
pub struct AggregateFinal {
    pub plan_id: u32,
    pub output_schema: DataSchema,
    pub input: Box<PhysicalPlan>,
    pub group_by: Vec<IndexType>,
    pub agg_funcs: Vec<AggregateFunctionDesc>,
    pub before_group_by_schema: DataSchema,
    pub limit: Option<usize>,
}

#[derive(Clone, Copy, Debug, PartialEq, Eq, Structural)]
pub struct SortDesc {
    pub asc: bool,
    pub nulls_first: bool,
    pub order_by: IndexType,
}

#[derive(Clone, Copy, Debug, PartialEq, Eq, Structural)]
pub enum WindowFuncFrameUnits {
    Rows,
    Range,
}

/// One end of a window frame: the current row, or a number of rows or a
/// distance in value before or after it; without one, the end of the
/// partition on that side.
#[derive(Clone, Copy, Debug, PartialEq, Eq, Structural)]
pub enum WindowFuncFrameBound {
    CurrentRow,
    Preceding(Option<Scalar>),
    Following(Option<Scalar>),
}

#[derive(Debug)]
pub struct Window {
    pub plan_id: u32,
    pub output_schema: DataSchema,
    pub input: Box<PhysicalPlan>,
    pub partition_by: Vec<IndexType>,
    pub order_by: Vec<SortDesc>,
    pub units: WindowFuncFrameUnits,
    pub start_bound: WindowFuncFrameBound,
    pub end_bound: WindowFuncFrameBound,
}

#[derive(Debug)]
pub struct Sort {
    pub plan_id: u32,
    pub output_schema: DataSchema,
    pub input: Box<PhysicalPlan>,
    pub order_by: Vec<SortDesc>,
    pub limit: Option<usize>,
    /// Whether the input arrives from an exchange, sorted piece by piece.
    pub after_exchange: bool,
}

#[derive(Debug)]
pub struct Limit {
    pub plan_id: u32,
    pub output_schema: DataSchema,
    pub input: Box<PhysicalPlan>,
    pub limit: Option<usize>,
    pub offset: usize,
}

#[derive(Debug)]
pub struct RowFetch {
    pub plan_id: u32,
    pub output_schema: DataSchema,
    pub input: Box<PhysicalPlan>,
}

#[derive(Debug)]
pub struct HashJoin {
    pub plan_id: u32,
    pub output_schema: DataSchema,
    pub build: Box<PhysicalPlan>,
    pub probe: Box<PhysicalPlan>,
    pub join_type: JoinType,
    pub non_equi_conditions: Vec<RemoteExpr>,
    pub contain_runtime_filter: bool,
}

#[derive(Debug)]
pub struct RangeJoin {
    pub plan_id: u32,
    pub output_schema: DataSchema,
    pub left: Box<PhysicalPlan>,
    pub right: Box<PhysicalPlan>,
}

#[derive(Debug)]
pub struct Exchange {
    pub plan_id: u32,
    pub output_schema: DataSchema,
    pub input: Box<PhysicalPlan>,
}

#[derive(Debug)]
pub struct ExchangeSource {
    pub plan_id: u32,
    pub output_schema: DataSchema,
    pub query_id: String,
    pub source_fragment_id: usize,
    /// The streams in which the fragment's output arrives.
    pub streams: usize,
}

#[derive(Debug)]
pub struct ExchangeSink {
    pub plan_id: u32,
    pub output_schema: DataSchema,
    pub input: Box<PhysicalPlan>,
}

/// The column of the left side and the column of the right side of a union
/// that make up one column of its result, by name.
#[derive(Clone, Copy, Debug, PartialEq, Eq, Structural)]
pub struct ColumnPair {
    pub left: IndexType,
    pub right: IndexType,
}

#[derive(Debug)]
pub struct UnionAll {
    pub plan_id: u32,
    pub output_schema: DataSchema,
    pub left: Box<PhysicalPlan>,
    pub right: Box<PhysicalPlan>,
    /// For each column of the result, what it is made of.
    pub pairs: Vec<ColumnPair>,
}

#[derive(Debug)]
pub struct RuntimeFilterSource {
    pub plan_id: u32,
    pub output_schema: DataSchema,
    pub left_side: Box<PhysicalPlan>,
    pub right_side: Box<PhysicalPlan>,
}

/// A column of a result, by the identifier that the binder gave it.
#[derive(Clone, Copy, Debug, PartialEq, Eq, Structural)]
pub struct ColumnBinding {
    pub index: IndexType,
}

#[derive(Debug)]
pub struct DistributedInsertSelect {
    pub plan_id: u32,
    pub output_schema: DataSchema,
    pub input: Box<PhysicalPlan>,
    pub select_column_bindings: Vec<ColumnBinding>,
    pub cast_needed: bool,
}

#[derive(Debug)]
pub struct DeletePartial {
    pub plan_id: u32,
    pub output_schema: DataSchema,
    /// The streams in which the engine reads the rows to delete.
    pub streams: usize,
}

#[derive(Debug)]
pub struct DeleteFinal {
    pub plan_id: u32,
    pub output_schema: DataSchema,
    pub input: Box<PhysicalPlan>,
}

#[derive(Debug)]
pub struct DistributedCopyIntoTable {
    pub plan_id: u32,
    pub output_schema: DataSchema,
    /// The streams in which the staged files are read.
    pub streams: usize,
}

/// A physical plan.
#[derive(Debug)]
pub enum PhysicalPlan {
    TableScan(TableScan),
    Filter(Filter),
    Project(Project),
    EvalScalar(EvalScalar),
    ProjectSet(ProjectSet),
    AggregateExpand(AggregateExpand),
    AggregatePartial(AggregatePartial),
    AggregateFinal(AggregateFinal),
    Window(Window),
    Sort(Sort),
    Limit(Limit),
    RowFetch(RowFetch),
    HashJoin(HashJoin),
    RangeJoin(RangeJoin),
    Exchange(Exchange),
    UnionAll(UnionAll),
    RuntimeFilterSource(RuntimeFilterSource),
    DistributedInsertSelect(DistributedInsertSelect),
    ExchangeSource(ExchangeSource),
    ExchangeSink(ExchangeSink),
    DeletePartial(DeletePartial),
    DeleteFinal(DeleteFinal),
    DistributedCopyIntoTable(DistributedCopyIntoTable),
}

impl PhysicalPlan {
    /// The schema of the rows that this plan gives.
    pub open spec fn schema(&self) -> DataSchema {
        match self {
            PhysicalPlan::TableScan(p) => p.output_schema,
            PhysicalPlan::Filter(p) => p.output_schema,
            PhysicalPlan::Project(p) => p.output_schema,
            PhysicalPlan::EvalScalar(p) => p.output_schema,
            PhysicalPlan::ProjectSet(p) => p.output_schema,
            PhysicalPlan::AggregateExpand(p) => p.output_schema,
            PhysicalPlan::AggregatePartial(p) => p.output_schema,
            PhysicalPlan::AggregateFinal(p) => p.output_schema,
            PhysicalPlan::Window(p) => p.output_schema,
            PhysicalPlan::Sort(p) => p.output_schema,
            PhysicalPlan::Limit(p) => p.output_schema,
            PhysicalPlan::RowFetch(p) => p.output_schema,
            PhysicalPlan::HashJoin(p) => p.output_schema,
            PhysicalPlan::RangeJoin(p) => p.output_schema,
            PhysicalPlan::Exchange(p) => p.output_schema,
            PhysicalPlan::UnionAll(p) => p.output_schema,
            PhysicalPlan::RuntimeFilterSource(p) => p.output_schema,
            PhysicalPlan::DistributedInsertSelect(p) => p.output_schema,
            PhysicalPlan::ExchangeSource(p) => p.output_schema,
            PhysicalPlan::ExchangeSink(p) => p.output_schema,
            PhysicalPlan::DeletePartial(p) => p.output_schema,
            PhysicalPlan::DeleteFinal(p) => p.output_schema,
            PhysicalPlan::DistributedCopyIntoTable(p) => p.output_schema,
        }
    }

    pub fn output_schema(&self) -> (schema: &DataSchema)
        ensures
            *schema == self.schema(),
    {
        match self {
            PhysicalPlan::TableScan(p) => &p.output_schema,
            PhysicalPlan::Filter(p) => &p.output_schema,
            PhysicalPlan::Project(p) => &p.output_schema,
            PhysicalPlan::EvalScalar(p) => &p.output_schema,
            PhysicalPlan::ProjectSet(p) => &p.output_schema,
            PhysicalPlan::AggregateExpand(p) => &p.output_schema,
            PhysicalPlan::AggregatePartial(p) => &p.output_schema,
            PhysicalPlan::AggregateFinal(p) => &p.output_schema,
            PhysicalPlan::Window(p) => &p.output_schema,
            PhysicalPlan::Sort(p) => &p.output_schema,
            PhysicalPlan::Limit(p) => &p.output_schema,
            PhysicalPlan::RowFetch(p) => &p.output_schema,
            PhysicalPlan::HashJoin(p) => &p.output_schema,
            PhysicalPlan::RangeJoin(p) => &p.output_schema,
            PhysicalPlan::Exchange(p) => &p.output_schema,
            PhysicalPlan::UnionAll(p) => &p.output_schema,
            PhysicalPlan::RuntimeFilterSource(p) => &p.output_schema,
            PhysicalPlan::DistributedInsertSelect(p) => &p.output_schema,
            PhysicalPlan::ExchangeSource(p) => &p.output_schema,
            PhysicalPlan::ExchangeSink(p) => &p.output_schema,
            PhysicalPlan::DeletePartial(p) => &p.output_schema,
            PhysicalPlan::DeleteFinal(p) => &p.output_schema,
            PhysicalPlan::DistributedCopyIntoTable(p) => &p.output_schema,
        }
    }
}

} // verus!

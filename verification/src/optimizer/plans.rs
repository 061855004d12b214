//! Statements, as the binder hands them to the optimizer.

use crate::optimizer::s_expr::Metadata;
use crate::optimizer::s_expr::SExpr;
use vstd::prelude::*;

verus! {

/// What an `EXPLAIN` shows.
#[derive(Debug)]
pub enum ExplainKind {
    Ast(String),
    Syntax(String),
    Graph,
    Pipeline,
    Fragments,
    Raw,
    Plan,
    /// The memo of the optimizer, as text once the statement is optimized.
    Memo(String),
    Join,
    AnalyzePlan,
}

/// What the binder knows of the names of a statement.
#[derive(Clone, Copy, Debug, PartialEq, Eq, Structural)]
pub struct BindContext {
    pub handle: u64,
}

/// The statement that a query was rewritten from, for the interpreter to
/// present the result accordingly.
#[derive(Clone, Copy, Debug, PartialEq, Eq, Structural)]
pub enum RewriteKind {
    ShowSettings,
    ShowMetrics,
    ShowProcessList,
    ShowEngines,
    ShowCatalogs,
    ShowDatabases,
    ShowTables,
    ShowColumns,
    ShowTablesStatus,
    ShowFunctions,
    ShowTableFunctions,
    ShowUsers,
    ShowStages,
    DescribeStage,
    ListStage,
    ShowRoles,
    Call,
}

#[derive(Debug)]
pub struct CopyIntoLocationPlan {
    pub stage: String,
    pub path: String,
    pub from: Box<Plan>,
}

#[derive(Debug)]
pub struct CopyIntoTablePlan {
    pub no_file_to_copy: bool,
    pub enable_distributed: bool,
    pub table_name: String,
}

#[derive(Debug)]
pub struct MergeInto {
    /// The join of the target table, on the left, with the source.
    pub input: Box<SExpr>,
    pub meta_data: Metadata,
    pub distributed: bool,
    pub change_join_order: bool,
    pub target_table_index: usize,
}

/// A bound statement.
#[derive(Debug)]
pub enum Plan {
    Query {
        s_expr: Box<SExpr>,
        metadata: Metadata,
        bind_context: BindContext,
        rewrite_kind: Option<RewriteKind>,
        formatted_ast: Option<String>,
        ignore_result: bool,
    },
    Explain { kind: ExplainKind, plan: Box<Plan> },
    ExplainAnalyze { plan: Box<Plan> },
    CopyIntoLocation(CopyIntoLocationPlan),
    CopyIntoTable(Box<CopyIntoTablePlan>),
    MergeInto(Box<MergeInto>),
    /// A statement that the optimizer passes through.
    Other { statement: String },
}

} // verus!

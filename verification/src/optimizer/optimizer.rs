//! The driver of query optimization.
//!
//! Optimizing a statement is a walk through stages: rewriting by rules,
//! reordering joins, the cost-based search, the rewrite for distributed
//! execution. What a stage does to an expression is not decided here. The
//! driver decides which stage runs next and on what, and what becomes of the
//! statement in the end. It says so step by step: the caller asks which stage
//! is pending, runs it, and hands in what the stage gave.

use crate::exception::ErrorCode;
use crate::exception::ErrorKind;
use crate::exception::Failure;
use crate::exception::failure;
use crate::expression::IndexType;
use crate::optimizer::memo::CostContext;
use crate::optimizer::memo::Memo;
use crate::optimizer::plans::CopyIntoLocationPlan;
use crate::optimizer::plans::CopyIntoTablePlan;
use crate::optimizer::plans::ExplainKind;
use crate::optimizer::plans::MergeInto;
use crate::optimizer::plans::Plan;
use crate::optimizer::rule::RuleID;
use crate::optimizer::rule::default_rewrite_rules;
use crate::optimizer::rule::residual_rules;
use crate::optimizer::s_expr::Children;
use crate::optimizer::s_expr::Metadata;
use crate::optimizer::s_expr::RelOp;
use crate::optimizer::s_expr::RelOperator;
use crate::optimizer::s_expr::SExpr;
use crate::optimizer::s_expr::check_bound;
use crate::optimizer::s_expr::contains_local_table_scan;
use crate::sessions::Settings;
use std::collections::HashMap;
use vstd::prelude::*;

verus! {

/// Switches that shape an optimization run.
#[derive(Debug, Clone, Copy, Default, PartialEq, Eq, Structural)]
pub struct OptimizerConfig {
    pub enable_distributed_optimization: bool,
}

/// The configuration an optimization run is started with.
#[derive(Debug)]
pub struct OptimizerContext {
    pub config: OptimizerConfig,
}

impl OptimizerContext {
    pub fn new(config: OptimizerConfig) -> (ctx: Self)
        ensures
            ctx.config == config,
    {
        Self { config }
    }
}

/// The lists of rewrite rules that the driver asks for.
#[derive(Clone, Copy, Debug, PartialEq, Eq, Structural)]
pub enum RuleList {
    /// The rewrites before the cost-based search.
    DefaultRewrite,
    /// The rewrites after the cost-based search.
    Residual,
    /// The one rule that removes `EvalScalar` operators that compute
    /// nothing.
    EliminateEvalScalar,
}

impl RuleList {
    /// The rules of the list, in the order in which they are tried.
    pub open spec fn spec_rules(self) -> Seq<RuleID> {
        match self {
            RuleList::DefaultRewrite => seq![
                RuleID::NormalizeScalarFilter,
                RuleID::NormalizeDisjunctiveFilter,
                RuleID::FoldConstant,
                RuleID::EliminateFilter,
                RuleID::MergeFilter,
                RuleID::MergeEvalScalar,
                RuleID::EliminateEvalScalar,
                RuleID::PushDownFilterEvalScalar,
                RuleID::PushDownFilterJoin,
                RuleID::PushDownFilterScan,
                RuleID::PushDownLimitSort,
                RuleID::PushDownLimitScan,
                RuleID::PushDownProjection,
            ],
            RuleList::Residual => seq![RuleID::EliminateEvalScalar, RuleID::CommuteJoin],
            RuleList::EliminateEvalScalar => seq![RuleID::EliminateEvalScalar],
        }
    }

    pub fn rules(self) -> (rules: Vec<RuleID>)
        ensures
            rules@ == self.spec_rules(),
    {
        match self {
            RuleList::DefaultRewrite => default_rewrite_rules(),
            RuleList::Residual => residual_rules(),
            RuleList::EliminateEvalScalar => vec![RuleID::EliminateEvalScalar],
        }
    }
}

/// The stages that the driver asks for.
#[derive(Clone, Copy, Debug, PartialEq, Eq, Structural)]
pub enum Stage {
    /// Prepare the expression for rewriting.
    PreOptimize,
    /// Rewrite by the rules of a list until none applies.
    Rewrite(RuleList),
    /// Prepare, then rewrite by the rules of a list.
    Heuristic(RuleList),
    /// Reorder the joins by dynamic programming over the join graph.
    JoinReorder,
    /// Search the memo for the cheapest physical plan; `join_reordered` says
    /// that the join order is settled and need not be explored.
    Cascades { join_reordered: bool },
    /// Insert exchanges for distributed execution.
    Distribute,
    /// Apply the rule that swaps the sides of the top join where the
    /// cardinalities call for it.
    CommuteJoin,
    /// Rewrite a distributed MERGE INTO so that the source is spread as the
    /// join needs it.
    MergeSource { change_join_order: bool },
    /// Print the memo.
    DisplayMemo,
}

/// What a stage gave.
#[derive(Debug)]
pub enum StageReply {
    /// The expression that came out.
    Expr(SExpr),
    /// The expression that came out of join reordering, and whether the
    /// order was changed.
    Reordered { s_expr: SExpr, optimized: bool },
    /// The memo that the search filled, and the cheapest plan of each group.
    Memo { memo: Memo, best_cost_map: HashMap<IndexType, CostContext> },
    /// The printed memo.
    Text(String),
}

/// Where the optimization of a query stands.
#[derive(Clone, Copy, Debug, PartialEq, Eq, Structural)]
pub enum QueryStep {
    PreOptimize,
    DefaultRewrite,
    JoinReorder,
    Cascades,
    Distribute,
    FinalRewrite,
    Done,
}

/// What decides the stages of the optimization of a query.
#[derive(Clone, Copy, Debug, PartialEq, Eq, Structural)]
pub struct QueryFlags {
    /// Whether joins are reordered before the search.
    pub join_reorder: bool,
    /// Whether the plan is rewritten for distributed execution.
    pub enable_distributed_query: bool,
    pub disable_join_reorder: bool,
}

/// The optimization of one query, stage by stage.
#[derive(Debug)]
pub struct QueryOptimization {
    pub step: QueryStep,
    pub flags: QueryFlags,
    /// The expression that the pending stage runs on; the result, once done.
    pub s_expr: SExpr,
    /// Whether join reordering changed the order.
    pub dphyp_optimized: bool,
    /// The failure that ended the run, if one did.
    pub failure: Option<ErrorCode>,
}

/// The flags of a query under `settings` and `config`: joins are reordered
/// if that is enabled and not disabled again; the plan is distributed if the
/// configuration says so and no table of the query lives on this node only.
pub open spec fn query_flags(
    settings: Settings,
    config: OptimizerConfig,
    contains_local_table_scan: bool,
) -> QueryFlags {
    QueryFlags {
        join_reorder: settings.enable_dphyp && !settings.disable_join_reorder,
        enable_distributed_query: config.enable_distributed_optimization
            && !contains_local_table_scan,
        disable_join_reorder: settings.disable_join_reorder,
    }
}

/// The step after `step`.
pub open spec fn next_query_step(step: QueryStep, flags: QueryFlags) -> QueryStep {
    match step {
        QueryStep::PreOptimize => QueryStep::DefaultRewrite,
        QueryStep::DefaultRewrite => if flags.join_reorder {
            QueryStep::JoinReorder
        } else {
            QueryStep::Cascades
        },
        QueryStep::JoinReorder => QueryStep::Cascades,
        QueryStep::Cascades => if flags.enable_distributed_query {
            QueryStep::Distribute
        } else {
            QueryStep::FinalRewrite
        },
        QueryStep::Distribute => QueryStep::FinalRewrite,
        QueryStep::FinalRewrite => QueryStep::Done,
        QueryStep::Done => QueryStep::Done,
    }
}

/// The stage that runs at `step`.
pub open spec fn query_stage(step: QueryStep, flags: QueryFlags, dphyp_optimized: bool) -> Option<
    Stage,
> {
    match step {
        QueryStep::PreOptimize => Some(Stage::PreOptimize),
        QueryStep::DefaultRewrite => Some(Stage::Rewrite(RuleList::DefaultRewrite)),
        QueryStep::JoinReorder => Some(Stage::JoinReorder),
        QueryStep::Cascades => Some(Stage::Cascades { join_reordered: dphyp_optimized }),
        QueryStep::Distribute => Some(Stage::Distribute),
        QueryStep::FinalRewrite => Some(
            Stage::Rewrite(
                if flags.disable_join_reorder {
                    RuleList::EliminateEvalScalar
                } else {
                    RuleList::Residual
                },
            ),
        ),
        QueryStep::Done => None,
    }
}

/// Whether `reply` is of the kind that `stage` gives.
pub open spec fn fits(stage: Stage, reply: StageReply) -> bool {
    match stage {
        Stage::JoinReorder => reply is Reordered,
        Stage::DisplayMemo => reply is Text,
        _ => reply is Expr,
    }
}

/// Starts the optimization of a query.
pub fn optimize_query(
    settings: &Settings,
    opt_ctx: &OptimizerContext,
    metadata: &Metadata,
    s_expr: SExpr,
) -> (run: QueryOptimization)
    requires
        s_expr.bound_to(metadata.tables@),
    ensures
        run.step == QueryStep::PreOptimize,
        run.flags == query_flags(
            *settings,
            opt_ctx.config,
            s_expr.scans_local_table(metadata.tables@),
        ),
        run.s_expr == s_expr,
        !run.dphyp_optimized,
        run.failure is None,
{
    let contains_local_table_scan = contains_local_table_scan(&s_expr, metadata);
    // So far, we don't have ability to execute distributed query
    // with reading data from local tales(e.g. system tables).
    let enable_distributed_query = opt_ctx.config.enable_distributed_optimization
        && !contains_local_table_scan;
    QueryOptimization {
        step: QueryStep::PreOptimize,
        flags: QueryFlags {
            join_reorder: settings.enable_dphyp && !settings.disable_join_reorder,
            enable_distributed_query,
            disable_join_reorder: settings.disable_join_reorder,
        },
        s_expr,
        dphyp_optimized: false,
        failure: None,
    }
}

impl QueryOptimization {
    /// The stage to run next, on [`Self::s_expr`]; none when the run is over.
    pub open spec fn spec_pending(&self) -> Option<Stage> {
        query_stage(self.step, self.flags, self.dphyp_optimized)
    }

    #[verifier::when_used_as_spec(spec_pending)]
    pub fn pending(&self) -> (stage: Option<Stage>)
        ensures
            stage == self.spec_pending(),
    {
        match self.step {
            QueryStep::PreOptimize => Some(Stage::PreOptimize),
            QueryStep::DefaultRewrite => Some(Stage::Rewrite(RuleList::DefaultRewrite)),
            QueryStep::JoinReorder => Some(Stage::JoinReorder),
            QueryStep::Cascades => Some(Stage::Cascades { join_reordered: self.dphyp_optimized }),
            QueryStep::Distribute => Some(Stage::Distribute),
            QueryStep::FinalRewrite => Some(
                Stage::Rewrite(
                    if self.flags.disable_join_reorder {
                        RuleList::EliminateEvalScalar
                    } else {
                        RuleList::Residual
                    },
                ),
            ),
            QueryStep::Done => None,
        }
    }

    /// Takes in what the pending stage gave. A failure ends the run. The
    /// expression that came out is what the next stage runs on; that of join
    /// reordering only if the order was changed.
    pub fn supply(&mut self, reply: Result<StageReply, ErrorCode>)
        requires
            old(self).step != QueryStep::Done,
            reply matches Ok(r) ==> fits(old(self).pending()->0, r),
        ensures
            *final(self) == old(self).supplied(reply),
            final(self).flags == old(self).flags,
            (match reply {
                Err(e) => final(self).step == QueryStep::Done && final(self).failure == Some(e)
                    && final(self).s_expr == old(self).s_expr && final(self).dphyp_optimized
                    == old(self).dphyp_optimized,
                Ok(StageReply::Reordered { s_expr, optimized }) => final(self).step
                    == next_query_step(old(self).step, old(self).flags) && final(self).failure
                    == old(self).failure && final(self).dphyp_optimized == optimized
                        && final(self).s_expr == (if optimized {
                    s_expr
                } else {
                    old(self).s_expr
                }),
                Ok(StageReply::Expr(s_expr)) => final(self).step == next_query_step(
                    old(self).step,
                    old(self).flags,
                ) && final(self).failure == old(self).failure && final(self).dphyp_optimized
                    == old(self).dphyp_optimized && final(self).s_expr == s_expr,
                Ok(_) => true,
            }),
    {
        let next = match self.step {
            QueryStep::PreOptimize => QueryStep::DefaultRewrite,
            QueryStep::DefaultRewrite => if self.flags.join_reorder {
                QueryStep::JoinReorder
            } else {
                QueryStep::Cascades
            },
            QueryStep::JoinReorder => QueryStep::Cascades,
            QueryStep::Cascades => if self.flags.enable_distributed_query {
                QueryStep::Distribute
            } else {
                QueryStep::FinalRewrite
            },
            QueryStep::Distribute => QueryStep::FinalRewrite,
            _ => QueryStep::Done,
        };
        match reply {
            Err(e) => {
                self.failure = Some(e);
                self.step = QueryStep::Done;
            },
            Ok(StageReply::Reordered { s_expr, optimized }) => {
                if optimized {
                    self.s_expr = s_expr;
                }
                self.dphyp_optimized = optimized;
                self.step = next;
            },
            Ok(StageReply::Expr(s_expr)) => {
                self.s_expr = s_expr;
                self.step = next;
            },
            Ok(_) => {},
        }
    }

    /// The optimized expression, or the failure that ended the run.
    pub fn finish(self) -> (r: Result<SExpr, ErrorCode>)
        requires
            self.step == QueryStep::Done,
        ensures
            r == self.outcome(),
    {
        match self.failure {
            Some(e) => Err(e),
            None => Ok(self.s_expr),
        }
    }
}

/// What a stage does with an expression, as far as the run of a query
/// depends on it: the expression that comes out and, for join reordering,
/// whether the order was changed.
pub open spec fn reply_of(stage: Stage, out: Result<(SExpr, bool), ErrorCode>) -> Result<
    StageReply,
    ErrorCode,
> {
    match out {
        Err(e) => Err(e),
        Ok(o) => match stage {
            Stage::JoinReorder => Ok(StageReply::Reordered { s_expr: o.0, optimized: o.1 }),
            _ => Ok(StageReply::Expr(o.0)),
        },
    }
}

impl QueryOptimization {
    /// This run after `reply` was taken in.
    pub open spec fn supplied(self, reply: Result<StageReply, ErrorCode>) -> QueryOptimization {
        match reply {
            Err(e) => QueryOptimization { step: QueryStep::Done, failure: Some(e), ..self },
            Ok(StageReply::Reordered { s_expr, optimized }) => QueryOptimization {
                step: next_query_step(self.step, self.flags),
                s_expr: if optimized {
                    s_expr
                } else {
                    self.s_expr
                },
                dphyp_optimized: optimized,
                ..self
            },
            Ok(StageReply::Expr(s_expr)) => QueryOptimization {
                step: next_query_step(self.step, self.flags),
                s_expr,
                ..self
            },
            Ok(_) => self,
        }
    }

    /// What the run ends with.
    pub open spec fn outcome(self) -> Result<SExpr, ErrorCode> {
        match self.failure {
            Some(e) => Err(e),
            None => Ok(self.s_expr),
        }
    }

    /// What the run ends with when each pending stage, for at most `fuel`
    /// stages, gives what `stages` says.
    pub open spec fn run(
        self,
        stages: spec_fn(Stage, SExpr) -> Result<(SExpr, bool), ErrorCode>,
        fuel: nat,
    ) -> Result<SExpr, ErrorCode>
        decreases fuel,
    {
        if fuel == 0 || self.step == QueryStep::Done {
            self.outcome()
        } else {
            self.supplied(
                reply_of(self.spec_pending()->0, stages(self.spec_pending()->0, self.s_expr)),
            ).run(stages, (fuel - 1) as nat)
        }
    }
}

/// What optimizing a query comes to, given what the stages do. The
/// expression is prepared and rewritten by the default rules. If joins are
/// reordered and the reordering changes the order, the search runs on the
/// reordered expression and is told so; else it runs on the rewritten one.
/// What the search gives is distributed if the query is, and is rewritten
/// once more: by the residual rules, or, with join reordering disabled, only
/// by the rule that removes idle `EvalScalar` operators. The first stage that
/// fails ends the run with its failure.
pub open spec fn optimized_query(
    flags: QueryFlags,
    s_expr: SExpr,
    stages: spec_fn(Stage, SExpr) -> Result<(SExpr, bool), ErrorCode>,
) -> Result<SExpr, ErrorCode> {
    match stages(Stage::PreOptimize, s_expr) {
        Err(e) => Err(e),
        Ok(prepared) => match stages(Stage::Rewrite(RuleList::DefaultRewrite), prepared.0) {
            Err(e) => Err(e),
            Ok(rewritten) => {
                let reordered = if flags.join_reorder {
                    match stages(Stage::JoinReorder, rewritten.0) {
                        Err(e) => Err(e),
                        Ok(r) => if r.1 {
                            Ok((r.0, true))
                        } else {
                            Ok((rewritten.0, false))
                        },
                    }
                } else {
                    Ok((rewritten.0, false))
                };
                match reordered {
                    Err(e) => Err(e),
                    Ok(joined) => match stages(
                        Stage::Cascades { join_reordered: joined.1 },
                        joined.0,
                    ) {
                        Err(e) => Err(e),
                        Ok(costed) => {
                            let distributed = if flags.enable_distributed_query {
                                stages(Stage::Distribute, costed.0)
                            } else {
                                Ok(costed)
                            };
                            match distributed {
                                Err(e) => Err(e),
                                Ok(spread) => match stages(
                                    Stage::Rewrite(
                                        if flags.disable_join_reorder {
                                            RuleList::EliminateEvalScalar
                                        } else {
                                            RuleList::Residual
                                        },
                                    ),
                                    spread.0,
                                ) {
                                    Err(e) => Err(e),
                                    Ok(last) => Ok(last.0),
                                },
                            }
                        },
                    },
                }
            },
        },
    }
}

/// A run that is driven from its start, each stage giving what `stages`
/// says, is over after at most six stages and ends with what
/// [`optimized_query`] says.
pub proof fn lemma_query_run(
    start: QueryOptimization,
    stages: spec_fn(Stage, SExpr) -> Result<(SExpr, bool), ErrorCode>,
)
    requires
        start.step == QueryStep::PreOptimize,
        !start.dphyp_optimized,
        start.failure is None,
    ensures
        start.run(stages, 6) == optimized_query(start.flags, start.s_expr, stages),
{
    reveal_with_fuel(QueryOptimization::run, 7);
}

/// Whether the stages have nothing left to do on `s_expr`: each gives it
/// back as it is, join reordering possibly by saying that it changed
/// nothing.
pub open spec fn settled(
    stages: spec_fn(Stage, SExpr) -> Result<(SExpr, bool), ErrorCode>,
    s_expr: SExpr,
) -> bool {
    forall|stage: Stage|
        (#[trigger] stages(stage, s_expr)) matches Ok(out) && (out.0 == s_expr || (stage
            is JoinReorder && !out.1))
}

/// Optimizing an optimized query again gives the same expression, if the
/// stages have nothing left to do on what they gave the first time.
pub proof fn lemma_optimized_twice(
    flags: QueryFlags,
    s_expr: SExpr,
    stages: spec_fn(Stage, SExpr) -> Result<(SExpr, bool), ErrorCode>,
)
    requires
        optimized_query(flags, s_expr, stages) matches Ok(optimized) && settled(stages, optimized),
    ensures
        optimized_query(flags, optimized_query(flags, s_expr, stages)->Ok_0, stages)
            == optimized_query(flags, s_expr, stages),
{
    let q = optimized_query(flags, s_expr, stages)->Ok_0;
    let last = if flags.disable_join_reorder {
        RuleList::EliminateEvalScalar
    } else {
        RuleList::Residual
    };
    assert(stages(Stage::PreOptimize, q) is Ok);
    assert(stages(Stage::Rewrite(RuleList::DefaultRewrite), q) is Ok);
    assert(stages(Stage::JoinReorder, q) is Ok);
    assert(stages(Stage::Cascades { join_reordered: false }, q) is Ok);
    assert(stages(Stage::Cascades { join_reordered: true }, q) is Ok);
    assert(stages(Stage::Distribute, q) is Ok);
    assert(stages(Stage::Rewrite(last), q) is Ok);
}

/// Whether `failure` is a failure that says what `said` says.
pub open spec fn failed_as(failure: Option<ErrorCode>, said: Failure) -> bool {
    failure matches Some(f) && f@ == said
}

/// What an expression fails with when it is asked for a child that it does
/// not have.
pub open spec fn no_child() -> Failure {
    failure(ErrorKind::Internal, "Invalid children index"@)
}

/// What `EXPLAIN MEMO` of a statement that is no query fails with.
pub open spec fn memo_of_non_query() -> Failure {
    failure(ErrorKind::BadArguments, "Cannot use EXPLAIN MEMO with a non-query statement"@)
}

/// Where the optimization for `EXPLAIN MEMO` stands.
#[derive(Clone, Copy, Debug, PartialEq, Eq, Structural)]
pub enum MemoStep {
    Heuristic,
    Cascades,
    Done,
}

/// The optimization that fills the memo for `EXPLAIN MEMO`: the default
/// rewrites, then the search, whose memo is kept.
#[derive(Debug)]
pub struct MemoOptimization {
    pub step: MemoStep,
    /// The expression that the pending stage runs on.
    pub s_expr: SExpr,
    /// The memo and the cheapest plan of each group, once the search is done.
    pub memo: Option<(Memo, HashMap<IndexType, CostContext>)>,
    pub failure: Option<ErrorCode>,
}

/// Starts the optimization that fills the memo.
pub fn get_optimized_memo(s_expr: SExpr) -> (run: MemoOptimization)
    ensures
        run.step == MemoStep::Heuristic,
        run.s_expr == s_expr,
        run.memo is None,
        run.failure is None,
{
    MemoOptimization { step: MemoStep::Heuristic, s_expr, memo: None, failure: None }
}

impl MemoOptimization {
    /// The stage to run next, on [`Self::s_expr`]: the default rewrites, then
    /// the search with the join order open.
    pub open spec fn spec_pending(&self) -> Option<Stage> {
        match self.step {
            MemoStep::Heuristic => Some(Stage::Heuristic(RuleList::DefaultRewrite)),
            MemoStep::Cascades => Some(Stage::Cascades { join_reordered: false }),
            MemoStep::Done => None,
        }
    }

    #[verifier::when_used_as_spec(spec_pending)]
    pub fn pending(&self) -> (stage: Option<Stage>)
        ensures
            stage == self.spec_pending(),
    {
        match self.step {
            MemoStep::Heuristic => Some(Stage::Heuristic(RuleList::DefaultRewrite)),
            MemoStep::Cascades => Some(Stage::Cascades { join_reordered: false }),
            MemoStep::Done => None,
        }
    }

    /// Takes in what the pending stage gave: the rewritten expression, then
    /// the memo of the search. A failure ends the run.
    pub fn supply(&mut self, reply: Result<StageReply, ErrorCode>)
        requires
            old(self).step != MemoStep::Done,
            reply matches Ok(r) ==> (if old(self).step == MemoStep::Heuristic {
                r is Expr
            } else {
                r is Memo
            }),
        ensures
            (match reply {
                Err(e) => final(self).step == MemoStep::Done && final(self).failure == Some(e)
                    && final(self).s_expr == old(self).s_expr && final(self).memo == old(self).memo,
                Ok(StageReply::Expr(s_expr)) => final(self).step == MemoStep::Cascades
                    && final(self).s_expr == s_expr && final(self).memo == old(self).memo
                    && final(self).failure
                    == old(self).failure,
                Ok(StageReply::Memo { memo, best_cost_map }) => final(self).step == MemoStep::Done
                    && final(self).s_expr == old(self).s_expr && final(self).memo == Some(
                    (memo, best_cost_map),
                ) && final(self).failure == old(self).failure,
                Ok(_) => true,
            }),
    {
        match reply {
            Err(e) => {
                self.failure = Some(e);
                self.step = MemoStep::Done;
            },
            Ok(StageReply::Expr(s_expr)) => {
                self.s_expr = s_expr;
                self.step = MemoStep::Cascades;
            },
            Ok(StageReply::Memo { memo, best_cost_map }) => {
                self.memo = Some((memo, best_cost_map));
                self.step = MemoStep::Done;
            },
            Ok(_) => {},
        }
    }

    /// The memo and the cheapest plan of each group, or the failure that
    /// ended the run.
    pub fn finish(self) -> (r: Result<(Memo, HashMap<IndexType, CostContext>), ErrorCode>)
        requires
            self.step == MemoStep::Done,
            self.failure is None ==> self.memo is Some,
        ensures
            r == (match self.failure {
                Some(e) => Err::<(Memo, HashMap<IndexType, CostContext>), ErrorCode>(e),
                None => Ok(self.memo->0),
            }),
    {
        match self.failure {
            Some(e) => Err(e),
            None => match self.memo {
                Some(found) => Ok(found),
                None => Err(ErrorCode::Internal("The search left no memo".to_string())),
            },
        }
    }
}

/// The shape that a distributed MERGE INTO must have for its source to be
/// rewritten.
#[derive(Debug)]
pub struct MergeSourceOptimizer {
    pub merge_source_pattern: SExpr,
}

/// An exchange over a join of two exchanges.
pub open spec fn merge_source_pattern() -> SExpr {
    SExpr {
        plan: RelOperator::Pattern { plan_type: RelOp::Exchange },
        children: Children::Unary(
            Box::new(
                SExpr {
                    plan: RelOperator::Pattern { plan_type: RelOp::Join },
                    children: Children::Binary(
                        Box::new(
                            SExpr {
                                plan: RelOperator::Pattern { plan_type: RelOp::Exchange },
                                children: Children::Unary(
                                    Box::new(
                                        SExpr {
                                            plan: RelOperator::Pattern {
                                                plan_type: RelOp::Pattern,
                                            },
                                            children: Children::Leaf,
                                        },
                                    ),
                                ),
                            },
                        ),
                        Box::new(
                            SExpr {
                                plan: RelOperator::Pattern { plan_type: RelOp::Exchange },
                                children: Children::Unary(
                                    Box::new(
                                        SExpr {
                                            plan: RelOperator::Pattern {
                                                plan_type: RelOp::Pattern,
                                            },
                                            children: Children::Leaf,
                                        },
                                    ),
                                ),
                            },
                        ),
                    ),
                },
            ),
        ),
    }
}

impl MergeSourceOptimizer {
    pub fn create() -> (optimizer: Self)
        ensures
            optimizer.merge_source_pattern == merge_source_pattern(),
    {
        let any = RelOperator::Pattern { plan_type: RelOp::Pattern };
        let exchange = RelOperator::Pattern { plan_type: RelOp::Exchange };
        let join = RelOperator::Pattern { plan_type: RelOp::Join };
        MergeSourceOptimizer {
            merge_source_pattern: SExpr::create_unary(
                exchange,
                SExpr::create_binary(
                    join,
                    SExpr::create_unary(exchange, SExpr::create_leaf(any)),
                    SExpr::create_unary(exchange, SExpr::create_leaf(any)),
                ),
            ),
        }
    }
}

/// Where the optimization of a MERGE INTO stands.
#[derive(Clone, Copy, Debug, PartialEq, Eq, Structural)]
pub enum MergeStep {
    /// The source is optimized as a query of its own.
    Source,
    CommuteJoin,
    Distribute,
    MergeSource,
    Done,
}

/// The optimization of one MERGE INTO, stage by stage.
#[derive(Debug)]
pub struct MergeIntoOptimization {
    pub step: MergeStep,
    /// The optimization of the source.
    pub source: QueryOptimization,
    /// The join of the statement, as bound.
    pub join: SExpr,
    /// The expression that the pending stage runs on, once the source is
    /// done; the new input of the statement, once all is done.
    pub s_expr: SExpr,
    /// Whether the statement is to run distributed.
    pub enable_distributed: bool,
    pub change_join_order: bool,
    /// Whether the source was rewritten for distributed execution; none if
    /// the statement is not to run distributed.
    pub distributed: Option<bool>,
    pub failure: Option<ErrorCode>,
}

/// The optimized source of a MERGE INTO without the exchange that the
/// optimization of a query may put on top: the source is no query of its
/// own. Nothing if the source is an exchange without a child.
pub open spec fn stripped(source: SExpr) -> Option<SExpr> {
    if source.plan is Exchange {
        source.spec_child(0)
    } else {
        Some(source)
    }
}

impl MergeIntoOptimization {
    /// Starts the optimization of `plan`: `Internal` at once if its input has
    /// no second child to be the source.
    pub fn start(settings: &Settings, opt_ctx: &OptimizerContext, plan: &MergeInto) -> (run: Self)
        requires
            plan.input.spec_child(1) matches Some(source) ==> source.bound_to(
                plan.meta_data.tables@,
            ),
        ensures
            run.wf(),
            run.join == *plan.input,
            run.s_expr == *plan.input,
            run.enable_distributed == (opt_ctx.config.enable_distributed_optimization
                && settings.enable_distributed_merge_into),
            run.distributed is None,
            !run.change_join_order,
            (match plan.input.spec_child(1) {
                Some(source) => run.step == MergeStep::Source && run.failure is None
                    && run.source.step == QueryStep::PreOptimize && run.source.s_expr == source
                    && !run.source.dphyp_optimized && run.source.failure is None && run.source.flags
                    == query_flags(
                    *settings,
                    opt_ctx.config,
                    source.scans_local_table(plan.meta_data.tables@),
                ),
                None => run.step == MergeStep::Done && failed_as(run.failure, no_child()),
            }),
    {
        let enable_distributed = opt_ctx.config.enable_distributed_optimization
            && settings.enable_distributed_merge_into;
        // optimize source
        match plan.input.child(1) {
            Ok(source) => MergeIntoOptimization {
                step: MergeStep::Source,
                source: optimize_query(settings, opt_ctx, &plan.meta_data, source.clone()),
                join: (*plan.input).clone(),
                s_expr: (*plan.input).clone(),
                enable_distributed,
                change_join_order: false,
                distributed: None,
                failure: None,
            },
            Err(e) => MergeIntoOptimization {
                step: MergeStep::Done,
                source: QueryOptimization {
                    step: QueryStep::Done,
                    flags: QueryFlags {
                        join_reorder: false,
                        enable_distributed_query: false,
                        disable_join_reorder: false,
                    },
                    s_expr: (*plan.input).clone(),
                    dphyp_optimized: false,
                    failure: None,
                },
                join: (*plan.input).clone(),
                s_expr: (*plan.input).clone(),
                enable_distributed,
                change_join_order: false,
                distributed: None,
                failure: Some(e),
            },
        }
    }

    /// While the source is optimized its run is not over.
    pub open spec fn wf(&self) -> bool {
        self.step == MergeStep::Source ==> self.source.step != QueryStep::Done
            && self.join.spec_arity() == 2
    }

    /// The stage to run next; none when the run is over.
    pub open spec fn spec_pending(&self) -> Option<Stage> {
        match self.step {
            MergeStep::Source => self.source.spec_pending(),
            MergeStep::CommuteJoin => Some(Stage::CommuteJoin),
            MergeStep::Distribute => Some(Stage::Distribute),
            MergeStep::MergeSource => Some(
                Stage::MergeSource { change_join_order: self.change_join_order },
            ),
            MergeStep::Done => None,
        }
    }

    #[verifier::when_used_as_spec(spec_pending)]
    pub fn pending(&self) -> (stage: Option<Stage>)
        ensures
            stage == self.spec_pending(),
    {
        match self.step {
            MergeStep::Source => self.source.pending(),
            MergeStep::CommuteJoin => Some(Stage::CommuteJoin),
            MergeStep::Distribute => Some(Stage::Distribute),
            MergeStep::MergeSource => Some(
                Stage::MergeSource { change_join_order: self.change_join_order },
            ),
            MergeStep::Done => None,
        }
    }

    /// The expression that the pending stage runs on.
    pub open spec fn spec_input(&self) -> SExpr {
        match self.step {
            MergeStep::Source => self.source.s_expr,
            _ => self.s_expr,
        }
    }

    pub fn input(&self) -> (e: &SExpr)
        ensures
            *e == self.spec_input(),
    {
        match self.step {
            MergeStep::Source => &self.source.s_expr,
            _ => &self.s_expr,
        }
    }

    /// The join of the statement over its target, as it was bound, and the
    /// optimized source without its top exchange; nothing if the source is
    /// an exchange without a child.
    pub open spec fn joined(&self, source: SExpr) -> Option<SExpr> {
        match (stripped(source), self.join.spec_child(0)) {
            (Some(right), Some(left)) => Some(
                SExpr {
                    plan: self.join.plan,
                    children: Children::Binary(Box::new(left), Box::new(right)),
                },
            ),
            _ => None,
        }
    }

    /// The source is done: its result goes into the join, which the rule
    /// that swaps the sides of a join runs on next.
    fn source_done(&mut self)
        requires
            old(self).step == MergeStep::Source,
            old(self).source.step == QueryStep::Done,
            old(self).join.spec_arity() == 2,
        ensures
            final(self).source == old(self).source,
            final(self).join == old(self).join,
            final(self).enable_distributed == old(self).enable_distributed,
            final(self).distributed == old(self).distributed,
            final(self).change_join_order == old(self).change_join_order,
            (match old(self).source.failure {
                Some(e) => final(self).step == MergeStep::Done
                    && failed_as(final(self).failure, e@),
                None => match old(self).joined(old(self).source.s_expr) {
                    Some(join) => final(self).step == MergeStep::CommuteJoin && final(self).s_expr
                        == join && final(self).failure == old(self).failure,
                    None => final(self).step == MergeStep::Done
                        && failed_as(final(self).failure, no_child()),
                },
            }),
    {
        match &self.source.failure {
            Some(e) => {
                self.failure = Some(e.duplicate());
                self.step = MergeStep::Done;
                return ;
            },
            None => {},
        }
        let mut right_source = self.source.s_expr.clone();
        // we need to remove exchange of right_source, because it's
        // not an end query.
        let is_exchange = match right_source.plan {
            RelOperator::Exchange { .. } => true,
            _ => false,
        };
        if is_exchange {
            let below = match right_source.child(0) {
                Ok(below) => below.clone(),
                Err(e) => {
                    self.failure = Some(e);
                    self.step = MergeStep::Done;
                    return ;
                },
            };
            right_source = below;
        }
        // replace right source
        let left = match self.join.child(0) {
            Ok(left) => left.clone(),
            Err(e) => {
                self.failure = Some(e);
                self.step = MergeStep::Done;
                return ;
            },
        };
        self.s_expr = self.join.replace_children(
            Children::Binary(Box::new(left), Box::new(right_source)),
        );
        self.step = MergeStep::CommuteJoin;
    }

    /// Whether this run is what `before` becomes when `reply` is taken in.
    pub open spec fn follows(&self, before: MergeIntoOptimization, reply: Result<StageReply,
        ErrorCode>) -> bool {
        &&& self.wf()
        &&& self.join == before.join
        &&& self.enable_distributed == before.enable_distributed
        &&& before.step != MergeStep::Source ==> (reply matches Err(e) ==> self.step
                == MergeStep::Done && self.failure == Some(e))
        &&& before.step == MergeStep::Source ==> {
                let source = before.source.supplied(reply);
                &&& self.source == source
                &&& self.change_join_order == before.change_join_order
                &&& self.distributed == before.distributed
                &&& source.step != QueryStep::Done ==> self.step == MergeStep::Source
                    && self.failure == before.failure
                &&& source.step == QueryStep::Done ==> (match source.failure {
                    Some(e) => self.step == MergeStep::Done && failed_as(self.failure, e@),
                    None => match before.joined(source.s_expr) {
                        Some(join) => self.step == MergeStep::CommuteJoin && self.s_expr == join
                            && self.failure == before.failure,
                        None => self.step == MergeStep::Done
                            && failed_as(self.failure, no_child()),
                    },
                })
            }
        &&& reply matches Ok(StageReply::Expr(result)) ==> {
                &&& before.step == MergeStep::CommuteJoin ==> (match (
                    before.s_expr.spec_child(0),
                    result.spec_child(0),
                ) {
                    (Some(old_left), Some(new_left)) => self.s_expr == result
                        && self.change_join_order == (old_left == new_left) && self.step == (
                    if before.enable_distributed {
                        MergeStep::Distribute
                    } else {
                        MergeStep::Done
                    }) && self.failure == before.failure && self.distributed
                        == before.distributed,
                    _ => self.step == MergeStep::Done && failed_as(self.failure, no_child()),
                })
                &&& before.step == MergeStep::Distribute ==> self.s_expr == result
                    && self.change_join_order == before.change_join_order
                        && self.failure == before.failure && (if result.matches_pattern(
                    merge_source_pattern(),
                ) {
                    self.step == MergeStep::MergeSource && self.distributed == before.distributed
                } else {
                    self.step == MergeStep::Done && self.distributed == Some(false)
                })
                &&& before.step == MergeStep::MergeSource ==> self.s_expr == result
                    && self.change_join_order == before.change_join_order
                        && self.failure == before.failure && self.step == MergeStep::Done
                        && self.distributed == Some(true)
            }
    }

    /// Takes in what the pending stage gave. A failure ends the run.
    ///
    /// While the source is optimized the reply goes to its run; when that is
    /// over its result is put into the join. The rule that swaps the sides of
    /// a join gives the new join; `change_join_order` records whether its
    /// left side is the one that the join had before. If the statement is to
    /// run distributed the new join is distributed next, and if what comes
    /// out has the shape of [`merge_source_pattern`] its source is rewritten
    /// and the statement is marked as distributed; else it is marked as not
    /// distributed.
    pub fn supply(&mut self, reply: Result<StageReply, ErrorCode>)
        requires
            old(self).wf(),
            old(self).step != MergeStep::Done,
            reply matches Ok(r) ==> fits(old(self).pending()->0, r),
        ensures
            final(self).follows(*old(self), reply),
    {
        match self.step {
            MergeStep::Source => {
                self.source.supply(reply);
                if self.source.step == QueryStep::Done {
                    self.source_done();
                }
            },
            _ => match reply {
                Err(e) => {
                    self.failure = Some(e);
                    self.step = MergeStep::Done;
                },
                Ok(StageReply::Expr(result)) => match self.step {
                    MergeStep::CommuteJoin => {
                        // we need to check whether we do swap left and right.
                        let change_join_order = match (self.s_expr.child(0), result.child(0)) {
                            (Ok(old_left), Ok(new_left)) => old_left.same(new_left),
                            (Err(e), _) => {
                                self.failure = Some(e);
                                self.step = MergeStep::Done;
                                return ;
                            },
                            (_, Err(e)) => {
                                self.failure = Some(e);
                                self.step = MergeStep::Done;
                                return ;
                            },
                        };
                        self.change_join_order = change_join_order;
                        self.s_expr = result;
                        // try to optimize distributed join
                        self.step = if self.enable_distributed {
                            MergeStep::Distribute
                        } else {
                            MergeStep::Done
                        };
                    },
                    MergeStep::Distribute => {
                        // after optimize source, we need to add
                        let merge_source_optimizer = MergeSourceOptimizer::create();
                        if !result.match_pattern(&merge_source_optimizer.merge_source_pattern) {
                            self.distributed = Some(false);
                            self.step = MergeStep::Done;
                        } else {
                            self.step = MergeStep::MergeSource;
                        }
                        self.s_expr = result;
                    },
                    MergeStep::MergeSource => {
                        self.distributed = Some(true);
                        self.s_expr = result;
                        self.step = MergeStep::Done;
                    },
                    _ => {},
                },
                Ok(_) => {},
            },
        }
    }
}

impl MergeIntoOptimization {
    /// What the run ends with: the new input of the statement, whether the
    /// source was rewritten for distributed execution, and whether the rule
    /// that swaps the sides of a join kept the left side; or the failure.
    pub fn finish(self) -> (r: Result<Outcome, ErrorCode>)
        requires
            self.step == MergeStep::Done,
        ensures
            r == (match self.failure {
                Some(e) => Err::<Outcome, ErrorCode>(e),
                None => Ok(
                    Outcome::MergeInto {
                        input: self.s_expr,
                        distributed: self.distributed,
                        change_join_order: self.change_join_order,
                    },
                ),
            }),
    {
        match self.failure {
            Some(e) => Err(e),
            None => Ok(
                Outcome::MergeInto {
                    input: self.s_expr,
                    distributed: self.distributed,
                    change_join_order: self.change_join_order,
                },
            ),
        }
    }
}

/// What the stages made of the part of a statement that is optimized.
#[derive(Debug)]
pub enum Outcome {
    /// The statement has no part to optimize.
    Nothing,
    /// The optimized expression of a query.
    Query(SExpr),
    /// The printed memo.
    Memo(String),
    MergeInto { input: SExpr, distributed: Option<bool>, change_join_order: bool },
}

/// What optimizing a statement asks of the stages.
#[derive(Clone, Copy, Debug, PartialEq, Eq, Structural)]
pub enum Target {
    /// No stage runs.
    Nothing,
    /// The stages of a query.
    Query,
    /// The stages that fill the memo, and its printing.
    Memo,
    /// The stages of a MERGE INTO.
    MergeInto,
    /// `EXPLAIN MEMO` of a statement that is no query.
    Invalid,
}

/// The part of `plan` that is optimized: a statement under `EXPLAIN`,
/// `EXPLAIN ANALYZE` or `COPY INTO` a location is looked into; an `EXPLAIN`
/// of the raw plan, the syntax or the text is not.
pub open spec fn core_of(plan: Plan) -> Plan
    decreases plan,
{
    match plan {
        Plan::Explain { kind, plan: inner } => match kind {
            ExplainKind::Raw | ExplainKind::Ast(_) | ExplainKind::Syntax(_) => plan,
            ExplainKind::Memo(_) => plan,
            _ => core_of(*inner),
        },
        Plan::ExplainAnalyze { plan: inner } => core_of(*inner),
        Plan::CopyIntoLocation(copy) => core_of(*copy.from),
        _ => plan,
    }
}

/// What optimizing `plan` asks of the stages.
pub open spec fn target(plan: Plan) -> Target {
    match core_of(plan) {
        Plan::Query { .. } => Target::Query,
        Plan::Explain { kind, plan: inner } => if kind is Memo {
            if *inner is Query {
                Target::Memo
            } else {
                Target::Invalid
            }
        } else {
            Target::Nothing
        },
        Plan::MergeInto(_) => Target::MergeInto,
        _ => Target::Nothing,
    }
}

/// The expression that the stages start from, where there is one.
pub open spec fn start_expr(plan: Plan) -> Option<SExpr> {
    match core_of(plan) {
        Plan::Query { s_expr, .. } => Some(*s_expr),
        Plan::Explain { kind, plan: inner } => match *inner {
            Plan::Query { s_expr, .. } => if kind is Memo {
                Some(*s_expr)
            } else {
                None
            },
            _ => None,
        },
        Plan::MergeInto(merge) => merge.input.spec_child(1),
        _ => None,
    }
}

/// The tables that the expression to optimize is bound to.
pub open spec fn start_tables(plan: Plan) -> Seq<crate::optimizer::s_expr::TableEntry> {
    match core_of(plan) {
        Plan::Query { metadata, .. } => metadata.tables@,
        Plan::MergeInto(merge) => merge.meta_data.tables@,
        _ => Seq::empty(),
    }
}

/// `plan` with the optimized part put in place. A `COPY INTO` a table that
/// has files to copy is told whether it is to run distributed.
pub open spec fn rebuilt(plan: Plan, outcome: Outcome, distributed_copy: bool) -> Plan
    decreases plan,
{
    match plan {
        Plan::Query { s_expr, metadata, bind_context, rewrite_kind, formatted_ast,
            ignore_result } => match outcome {
            Outcome::Query(optimized) => Plan::Query {
                s_expr: Box::new(optimized),
                metadata,
                bind_context,
                rewrite_kind,
                formatted_ast,
                ignore_result,
            },
            _ => plan,
        },
        Plan::Explain { kind, plan: inner } => match kind {
            ExplainKind::Raw | ExplainKind::Ast(_) | ExplainKind::Syntax(_) => plan,
            ExplainKind::Memo(_) => match outcome {
                Outcome::Memo(text) => Plan::Explain { kind: ExplainKind::Memo(text), plan: inner },
                _ => plan,
            },
            _ => Plan::Explain {
                kind,
                plan: Box::new(rebuilt(*inner, outcome, distributed_copy)),
            },
        },
        Plan::ExplainAnalyze { plan: inner } => Plan::ExplainAnalyze {
            plan: Box::new(rebuilt(*inner, outcome, distributed_copy)),
        },
        Plan::CopyIntoLocation(copy) => Plan::CopyIntoLocation(
            CopyIntoLocationPlan {
                stage: copy.stage,
                path: copy.path,
                from: Box::new(rebuilt(*copy.from, outcome, distributed_copy)),
            },
        ),
        Plan::CopyIntoTable(copy) => if !copy.no_file_to_copy {
            Plan::CopyIntoTable(
                Box::new(
                    CopyIntoTablePlan {
                        no_file_to_copy: copy.no_file_to_copy,
                        enable_distributed: distributed_copy,
                        table_name: copy.table_name,
                    },
                ),
            )
        } else {
            plan
        },
        Plan::MergeInto(merge) => match outcome {
            Outcome::MergeInto { input, distributed, change_join_order } => Plan::MergeInto(
                Box::new(
                    MergeInto {
                        input: Box::new(input),
                        meta_data: merge.meta_data,
                        distributed: match distributed {
                            Some(d) => d,
                            None => merge.distributed,
                        },
                        change_join_order,
                        target_table_index: merge.target_table_index,
                    },
                ),
            ),
            _ => plan,
        },
        Plan::Other { .. } => plan,
    }
}

/// A statement that has no part to optimize is optimized in one go: putting
/// nothing in place twice is putting nothing in place once, and what comes
/// out has no part to optimize either.
pub proof fn lemma_rebuilt_twice(plan: Plan, distributed_copy: bool)
    requires
        target(plan) == Target::Nothing,
    ensures
        target(rebuilt(plan, Outcome::Nothing, distributed_copy)) == Target::Nothing,
        rebuilt(rebuilt(plan, Outcome::Nothing, distributed_copy), Outcome::Nothing,
            distributed_copy)
            == rebuilt(plan, Outcome::Nothing, distributed_copy),
    decreases plan,
{
    match plan {
        Plan::Explain { kind, plan: inner } => match kind {
            ExplainKind::Raw | ExplainKind::Ast(_) | ExplainKind::Syntax(_) => {},
            ExplainKind::Memo(_) => {},
            _ => {
                lemma_rebuilt_twice(*inner, distributed_copy);
            },
        },
        Plan::ExplainAnalyze { plan: inner } => {
            lemma_rebuilt_twice(*inner, distributed_copy);
        },
        Plan::CopyIntoLocation(copy) => {
            lemma_rebuilt_twice(*copy.from, distributed_copy);
        },
        _ => {},
    }
}

/// Puts the optimized part of a statement in place.
pub fn rebuild(plan: Plan, outcome: Outcome, distributed_copy: bool) -> (r: Plan)
    ensures
        r == rebuilt(plan, outcome, distributed_copy),
    decreases plan,
{
    match plan {
        Plan::Query { s_expr, metadata, bind_context, rewrite_kind, formatted_ast,
            ignore_result } => match outcome {
            Outcome::Query(optimized) => Plan::Query {
                s_expr: Box::new(optimized),
                metadata,
                bind_context,
                rewrite_kind,
                formatted_ast,
                ignore_result,
            },
            _ => Plan::Query {
                s_expr,
                metadata,
                bind_context,
                rewrite_kind,
                formatted_ast,
                ignore_result,
            },
        },
        Plan::Explain { kind, plan: inner } => match kind {
            ExplainKind::Raw | ExplainKind::Ast(_) | ExplainKind::Syntax(_) => Plan::Explain {
                kind,
                plan: inner,
            },
            ExplainKind::Memo(before) => match outcome {
                Outcome::Memo(text) => Plan::Explain { kind: ExplainKind::Memo(text), plan: inner },
                _ => Plan::Explain { kind: ExplainKind::Memo(before), plan: inner },
            },
            _ => Plan::Explain { kind, plan: Box::new(rebuild(*inner, outcome, distributed_copy)) },
        },
        Plan::ExplainAnalyze { plan: inner } => Plan::ExplainAnalyze {
            plan: Box::new(rebuild(*inner, outcome, distributed_copy)),
        },
        Plan::CopyIntoLocation(copy) => Plan::CopyIntoLocation(
            CopyIntoLocationPlan {
                stage: copy.stage,
                path: copy.path,
                from: Box::new(rebuild(*copy.from, outcome, distributed_copy)),
            },
        ),
        Plan::CopyIntoTable(copy) => if !copy.no_file_to_copy {
            Plan::CopyIntoTable(
                Box::new(
                    CopyIntoTablePlan {
                        no_file_to_copy: copy.no_file_to_copy,
                        enable_distributed: distributed_copy,
                        table_name: copy.table_name,
                    },
                ),
            )
        } else {
            Plan::CopyIntoTable(copy)
        },
        Plan::MergeInto(merge) => match outcome {
            Outcome::MergeInto { input, distributed, change_join_order } => Plan::MergeInto(
                Box::new(
                    MergeInto {
                        input: Box::new(input),
                        meta_data: merge.meta_data,
                        distributed: match distributed {
                            Some(d) => d,
                            None => merge.distributed,
                        },
                        change_join_order,
                        target_table_index: merge.target_table_index,
                    },
                ),
            ),
            _ => Plan::MergeInto(merge),
        },
        Plan::Other { statement } => Plan::Other { statement },
    }
}

/// What is under way for the part of a statement that is optimized.
#[derive(Debug)]
pub enum Job {
    /// No stage has to run.
    Ready,
    /// The optimization failed.
    Failed(ErrorCode),
    Query(QueryOptimization),
    Memo(MemoOptimization),
    /// The memo is filled and waits to be printed.
    DisplayMemo { memo: Memo, best_cost_map: HashMap<IndexType, CostContext> },
    /// The memo is printed.
    Text(String),
    MergeInto(MergeIntoOptimization),
}

impl Job {
    /// A job that holds a run holds one that can go on.
    pub open spec fn wf(&self) -> bool {
        match self {
            Job::Memo(run) => run.step != MemoStep::Done && run.failure is None,
            Job::MergeInto(run) => run.wf(),
            _ => true,
        }
    }

    /// The stage to run next; none when nothing is left to run.
    pub open spec fn spec_pending(&self) -> Option<Stage> {
        match self {
            Job::Query(run) => run.spec_pending(),
            Job::Memo(run) => run.spec_pending(),
            Job::DisplayMemo { .. } => Some(Stage::DisplayMemo),
            Job::MergeInto(run) => run.spec_pending(),
            _ => None,
        }
    }

    /// Whether `reply` is of the kind that the pending stage gives: the
    /// search gives its memo where the memo is asked for, and an expression
    /// elsewhere.
    pub open spec fn takes(&self, reply: StageReply) -> bool {
        match self {
            Job::Memo(run) => if run.step == MemoStep::Heuristic {
                reply is Expr
            } else {
                reply is Memo
            },
            _ => self.spec_pending() matches Some(stage) && fits(stage, reply),
        }
    }
}

/// Whether the expression that the stages start from names only tables that
/// the statement knows.
pub open spec fn starts_bound(plan: Plan) -> bool {
    target(plan) == Target::Query || target(plan) == Target::MergeInto ==> (start_expr(plan)
        matches Some(e) ==> e.bound_to(start_tables(plan)))
}

/// Whether `plan` can be optimized: the expression that the stages start
/// from names only tables that the statement knows.
pub fn check_starts_bound(plan: &Plan) -> (b: bool)
    ensures
        b == starts_bound(*plan),
    decreases plan,
{
    match plan {
        Plan::Query { s_expr, metadata, .. } => check_bound(s_expr, metadata),
        Plan::Explain { kind, plan: inner } => match kind {
            ExplainKind::Raw | ExplainKind::Ast(_) | ExplainKind::Syntax(_) => true,
            ExplainKind::Memo(_) => true,
            _ => check_starts_bound(inner),
        },
        Plan::ExplainAnalyze { plan: inner } => check_starts_bound(inner),
        Plan::CopyIntoLocation(copy) => check_starts_bound(&copy.from),
        Plan::MergeInto(merge) => match merge.input.child(1) {
            Ok(source) => check_bound(source, &merge.meta_data),
            Err(_) => true,
        },
        _ => true,
    }
}

/// Whether `job` is what optimizing `plan` starts with: nothing where no
/// stage has to run; the failure for `EXPLAIN MEMO` of a statement that is no
/// query; else the run of a query, of the memo or of a MERGE INTO at its first
/// stage, a MERGE INTO without a source having failed already.
pub open spec fn started(
    job: Job,
    settings: Settings,
    config: OptimizerConfig,
    plan: Plan,
) -> bool {
    match target(plan) {
        Target::Nothing => job is Ready,
        Target::Invalid => job matches Job::Failed(e) && e@ == memo_of_non_query(),
        Target::Query => job matches Job::Query(run) && run.step == QueryStep::PreOptimize
            && run.s_expr == start_expr(plan)->0 && !run.dphyp_optimized && run.failure is None
            && run.flags == query_flags(
            settings,
            config,
            run.s_expr.scans_local_table(start_tables(plan)),
        ),
        Target::Memo => job matches Job::Memo(run) && run.step == MemoStep::Heuristic && run.s_expr
            == start_expr(plan)->0 && run.memo is None && run.failure is None,
        Target::MergeInto => job matches Job::MergeInto(run) && run.join == *core_of(
            plan,
        )->MergeInto_0.input && run.s_expr == run.join && !run.change_join_order
            && run.enable_distributed == (config.enable_distributed_optimization
            && settings.enable_distributed_merge_into) && run.distributed is None && (
        match start_expr(plan) {
            Some(source) => run.step == MergeStep::Source && run.failure is None && run.source.step
                == QueryStep::PreOptimize && run.source.s_expr == source
                && !run.source.dphyp_optimized && run.source.failure is None && run.source.flags
                == query_flags(settings, config, source.scans_local_table(start_tables(plan))),
            None => run.step == MergeStep::Done && failed_as(run.failure, no_child()),
        }),
    }
}

/// The job that optimizing `plan` starts with.
pub fn start_job(settings: &Settings, opt_ctx: &OptimizerContext, plan: &Plan) -> (job: Job)
    requires
        starts_bound(*plan),
    ensures
        job.wf(),
        started(job, *settings, opt_ctx.config, *plan),
    decreases *plan,
{
    match plan {
        Plan::Query { s_expr, metadata, .. } => Job::Query(
            optimize_query(settings, opt_ctx, metadata, (**s_expr).clone()),
        ),
        Plan::Explain { kind, plan: inner } => match kind {
            ExplainKind::Raw | ExplainKind::Ast(_) | ExplainKind::Syntax(_) => Job::Ready,
            ExplainKind::Memo(_) => match &**inner {
                Plan::Query { s_expr, .. } => Job::Memo(get_optimized_memo((**s_expr).clone())),
                _ => Job::Failed(
                    ErrorCode::BadArguments(
                        "Cannot use EXPLAIN MEMO with a non-query statement".to_string(),
                    ),
                ),
            },
            _ => start_job(settings, opt_ctx, inner),
        },
        Plan::ExplainAnalyze { plan: inner } => start_job(settings, opt_ctx, inner),
        Plan::CopyIntoLocation(copy) => start_job(settings, opt_ctx, &copy.from),
        Plan::MergeInto(merge) => Job::MergeInto(
            MergeIntoOptimization::start(settings, opt_ctx, merge),
        ),
        _ => Job::Ready,
    }
}

/// The optimization of one statement, stage by stage.
#[derive(Debug)]
pub struct Optimization {
    /// The statement, as bound.
    pub plan: Plan,
    /// Whether a `COPY INTO` a table is to run distributed.
    pub distributed_copy: bool,
    pub job: Job,
}

/// Starts the optimization of a statement. A query, also under `EXPLAIN`,
/// `EXPLAIN ANALYZE` or `COPY INTO` a location, goes through the stages of a
/// query. `EXPLAIN MEMO` of a query fills the memo and has it printed; of
/// another statement it fails with `BadArguments`. A MERGE INTO goes through
/// its own stages. Any other statement has nothing to run.
pub fn optimize(settings: &Settings, opt_ctx: &OptimizerContext, plan: Plan) -> (run: Optimization)
    requires
        starts_bound(plan),
    ensures
        run.plan == plan,
        run.distributed_copy == (opt_ctx.config.enable_distributed_optimization
            && settings.enable_distributed_copy),
        run.job.wf(),
        started(run.job, *settings, opt_ctx.config, plan),
{
    let job = start_job(settings, opt_ctx, &plan);
    Optimization {
        plan,
        distributed_copy: opt_ctx.config.enable_distributed_optimization
            && settings.enable_distributed_copy,
        job,
    }
}

impl Optimization {
    /// The stage to run next; none when nothing is left to run.
    pub open spec fn spec_pending(&self) -> Option<Stage> {
        self.job.spec_pending()
    }

    #[verifier::when_used_as_spec(spec_pending)]
    pub fn pending(&self) -> (stage: Option<Stage>)
        ensures
            stage == self.spec_pending(),
    {
        match &self.job {
            Job::Query(run) => run.pending(),
            Job::Memo(run) => run.pending(),
            Job::DisplayMemo { .. } => Some(Stage::DisplayMemo),
            Job::MergeInto(run) => run.pending(),
            _ => None,
        }
    }

    /// The expression that the pending stage runs on, where it runs on one.
    pub fn input(&self) -> (e: Option<&SExpr>)
        ensures
            (match self.job {
                Job::Query(run) => e matches Some(s) && *s == run.s_expr,
                Job::Memo(run) => e matches Some(s) && *s == run.s_expr,
                Job::MergeInto(run) => e matches Some(s) && *s == run.spec_input(),
                _ => e is None,
            }),
    {
        match &self.job {
            Job::Query(run) => Some(&run.s_expr),
            Job::Memo(run) => Some(&run.s_expr),
            Job::MergeInto(run) => Some(run.input()),
            _ => None,
        }
    }

    /// Takes in what the pending stage gave. The reply goes to the run that
    /// is under way. When the memo is filled it waits to be printed, and
    /// the printed memo ends the run; a failure to fill or to print it fails
    /// the optimization.
    pub fn supply(&mut self, reply: Result<StageReply, ErrorCode>)
        requires
            old(self).job.wf(),
            old(self).spec_pending() is Some,
            reply matches Ok(r) ==> old(self).job.takes(r),
        ensures
            final(self).job.wf(),
            final(self).plan == old(self).plan,
            final(self).distributed_copy == old(self).distributed_copy,
            (match old(self).job {
                Job::Query(run) => final(self).job == Job::Query(run.supplied(reply)),
                Job::Memo(run) => match reply {
                    Err(e) => final(self).job == Job::Failed(e),
                    Ok(StageReply::Expr(s_expr)) => final(self).job matches Job::Memo(next)
                        && next.step == MemoStep::Cascades && next.s_expr == s_expr && next.memo
                        == run.memo && next.failure is None,
                    Ok(StageReply::Memo { memo, best_cost_map }) => final(self).job
                        == (Job::DisplayMemo { memo, best_cost_map }),
                    Ok(_) => true,
                },
                Job::DisplayMemo { .. } => match reply {
                    Err(e) => final(self).job == Job::Failed(e),
                    Ok(StageReply::Text(text)) => final(self).job == Job::Text(text),
                    Ok(_) => true,
                },
                Job::MergeInto(run) => final(self).job matches Job::MergeInto(next) && next.follows(
                    run,
                    reply,
                ),
                _ => true,
            }),
    {
        let mut job = Job::Ready;
        std::mem::swap(&mut job, &mut self.job);
        self.job = match job {
            Job::Query(run) => {
                let mut run = run;
                run.supply(reply);
                Job::Query(run)
            },
            Job::Memo(run) => {
                let mut run = run;
                run.supply(reply);
                if run.step == MemoStep::Done {
                    match run.finish() {
                        Ok((memo, best_cost_map)) => Job::DisplayMemo { memo, best_cost_map },
                        Err(e) => Job::Failed(e),
                    }
                } else {
                    Job::Memo(run)
                }
            },
            Job::DisplayMemo { memo, best_cost_map } => match reply {
                Err(e) => Job::Failed(e),
                Ok(StageReply::Text(text)) => Job::Text(text),
                Ok(_) => Job::DisplayMemo { memo, best_cost_map },
            },
            Job::MergeInto(run) => {
                let mut run = run;
                run.supply(reply);
                Job::MergeInto(run)
            },
            other => other,
        };
    }

    /// The optimized statement, or the failure that ended the optimization.
    pub fn finish(self) -> (r: Result<Plan, ErrorCode>)
        requires
            self.job.wf(),
            self.spec_pending() is None,
        ensures
            (match self.job {
                Job::Ready => r == Ok::<Plan, ErrorCode>(
                    rebuilt(self.plan, Outcome::Nothing, self.distributed_copy),
                ),
                Job::Failed(e) => r == Err::<Plan, ErrorCode>(e),
                Job::Query(run) => match run.failure {
                    Some(e) => r == Err::<Plan, ErrorCode>(e),
                    None => r == Ok::<Plan, ErrorCode>(
                        rebuilt(self.plan, Outcome::Query(run.s_expr), self.distributed_copy),
                    ),
                },
                Job::Text(text) => r == Ok::<Plan, ErrorCode>(
                    rebuilt(self.plan, Outcome::Memo(text), self.distributed_copy),
                ),
                Job::MergeInto(run) => match run.failure {
                    Some(e) => r == Err::<Plan, ErrorCode>(e),
                    None => r == Ok::<Plan, ErrorCode>(
                        rebuilt(
                            self.plan,
                            Outcome::MergeInto {
                                input: run.s_expr,
                                distributed: run.distributed,
                                change_join_order: run.change_join_order,
                            },
                            self.distributed_copy,
                        ),
                    ),
                },
                _ => true,
            }),
    {
        let outcome = match self.job {
            Job::Ready => Outcome::Nothing,
            Job::Failed(e) => {
                return Err(e);
            },
            Job::Query(run) => Outcome::Query(run.finish()?),
            Job::Text(text) => Outcome::Memo(text),
            Job::MergeInto(run) => run.finish()?,
            Job::Memo(_) => Outcome::Nothing,
            Job::DisplayMemo { .. } => Outcome::Nothing,
        };
        Ok(rebuild(self.plan, outcome, self.distributed_copy))
    }
}

} // verus!

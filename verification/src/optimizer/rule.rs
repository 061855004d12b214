//! Rewrite rules: what a rule is, the lists of rules that optimization runs,
//! and the rule that removes idle `EvalScalar` operators.

use crate::exception::ErrorCode;
use crate::exception::Failure;
use crate::optimizer::s_expr::Children;
use crate::optimizer::s_expr::RelOp;
use crate::optimizer::s_expr::RelOperator;
use crate::optimizer::s_expr::SExpr;
use vstd::prelude::*;

verus! {

/// The names of the rules.
#[derive(Clone, Copy, Debug, PartialEq, Eq, Structural)]
pub enum RuleID {
    NormalizeScalarFilter,
    NormalizeDisjunctiveFilter,
    FoldConstant,
    EliminateFilter,
    MergeFilter,
    MergeEvalScalar,
    EliminateEvalScalar,
    PushDownFilterEvalScalar,
    PushDownFilterJoin,
    PushDownFilterScan,
    PushDownLimitSort,
    PushDownLimitScan,
    PushDownProjection,
    CommuteJoin,
}

/// What a rule gave for one expression: the expressions that can stand in
/// its place.
#[derive(Debug)]
pub struct TransformResult {
    pub results: Vec<SExpr>,
}

impl TransformResult {
    pub fn new() -> (state: Self)
        ensures
            state.results@.len() == 0,
    {
        TransformResult { results: Vec::new() }
    }

    pub fn add_result(&mut self, result: SExpr)
        ensures
            final(self).results@ == old(self).results@.push(result),
    {
        self.results.push(result);
    }

    pub fn results(&self) -> (results: &Vec<SExpr>)
        ensures
            *results == self.results,
    {
        &self.results
    }
}

/// What a rule makes of an expression: the expressions that can stand in
/// its place, none if it leaves the expression alone; or the failure that it
/// ends with.
pub enum Rewrites {
    Found(Seq<SExpr>),
    Failed(Failure),
}

/// A rewrite rule: a pattern that says which expressions it applies to, and
/// what it puts in their place.
pub trait Rule {
    spec fn spec_id(&self) -> RuleID;

    fn id(&self) -> (id: RuleID)
        ensures
            id == self.spec_id(),
    ;

    /// The shape of the expressions that the rule applies to.
    spec fn spec_pattern(&self) -> SExpr;

    fn pattern(&self) -> (pattern: &SExpr)
        ensures
            *pattern == self.spec_pattern(),
    ;

    /// What the rule makes of `s_expr`.
    spec fn rewrites(&self, s_expr: SExpr) -> Rewrites;

    /// Adds to `state` what the rule gives for `s_expr`.
    fn apply(&self, s_expr: &SExpr, state: &mut TransformResult) -> (r: Result<(), ErrorCode>)
        requires
            s_expr.matches_pattern(self.spec_pattern()),
        ensures
            (match self.rewrites(*s_expr) {
                Rewrites::Found(found) => r is Ok && final(state).results@ == old(state).results@
                    + found,
                Rewrites::Failed(said) => r matches Err(e) && e@ == said,
            }),
    ;
}

/// The rewrites before the cost-based search, in the order in which they are
/// tried.
pub fn default_rewrite_rules() -> (rules: Vec<RuleID>)
    ensures
        rules@ == seq![
            RuleID::NormalizeScalarFilter,
            RuleID::NormalizeDisjunctiveFilter,
            RuleID::FoldConstant,
            RuleID::EliminateFilter,
            RuleID::MergeFilter,
            RuleID::MergeEvalScalar,
            RuleID::EliminateEvalScalar,
            RuleID::PushDownFilterEvalScalar,
            RuleID::PushDownFilterJoin,
            RuleID::PushDownFilterScan,
            RuleID::PushDownLimitSort,
            RuleID::PushDownLimitScan,
            RuleID::PushDownProjection,
        ],
{
    vec![
        RuleID::NormalizeScalarFilter,
        RuleID::NormalizeDisjunctiveFilter,
        RuleID::FoldConstant,
        RuleID::EliminateFilter,
        RuleID::MergeFilter,
        RuleID::MergeEvalScalar,
        RuleID::EliminateEvalScalar,
        RuleID::PushDownFilterEvalScalar,
        RuleID::PushDownFilterJoin,
        RuleID::PushDownFilterScan,
        RuleID::PushDownLimitSort,
        RuleID::PushDownLimitScan,
        RuleID::PushDownProjection,
    ]
}

/// The rewrites after the cost-based search.
pub fn residual_rules() -> (rules: Vec<RuleID>)
    ensures
        rules@ == seq![RuleID::EliminateEvalScalar, RuleID::CommuteJoin],
{
    vec![RuleID::EliminateEvalScalar, RuleID::CommuteJoin]
}

/// The rule that removes an `EvalScalar` that computes nothing: its input
/// takes its place.
#[derive(Debug)]
pub struct RuleEliminateEvalScalar {
    pub pattern: SExpr,
}

/// An `EvalScalar` over anything.
pub open spec fn eval_scalar_pattern() -> SExpr {
    SExpr {
        plan: RelOperator::Pattern { plan_type: RelOp::EvalScalar },
        children: Children::Unary(
            Box::new(
                SExpr {
                    plan: RelOperator::Pattern { plan_type: RelOp::Pattern },
                    children: Children::Leaf,
                },
            ),
        ),
    }
}

impl RuleEliminateEvalScalar {
    pub fn new() -> (rule: Self)
        ensures
            rule.pattern == eval_scalar_pattern(),
            rule.wf(),
    {
        RuleEliminateEvalScalar {
            pattern: SExpr::create_unary(
                RelOperator::Pattern { plan_type: RelOp::EvalScalar },
                SExpr::create_leaf(RelOperator::Pattern { plan_type: RelOp::Pattern }),
            ),
        }
    }

    /// The rule holds its own pattern.
    pub open spec fn wf(&self) -> bool {
        self.pattern == eval_scalar_pattern()
    }
}

impl Rule for RuleEliminateEvalScalar {
    open spec fn spec_id(&self) -> RuleID {
        RuleID::EliminateEvalScalar
    }

    fn id(&self) -> (id: RuleID) {
        RuleID::EliminateEvalScalar
    }

    open spec fn spec_pattern(&self) -> SExpr {
        self.pattern
    }

    fn pattern(&self) -> (pattern: &SExpr) {
        &self.pattern
    }

    open spec fn rewrites(&self, s_expr: SExpr) -> Rewrites {
        match (s_expr.plan, s_expr.children) {
            (RelOperator::EvalScalar { items, .. }, Children::Unary(input)) => if items == 0 {
                Rewrites::Found(seq![*input])
            } else {
                Rewrites::Found(Seq::empty())
            },
            _ => Rewrites::Found(Seq::empty()),
        }
    }

    fn apply(&self, s_expr: &SExpr, state: &mut TransformResult) -> (r: Result<(), ErrorCode>) {
        let ghost before = state.results@;
        match (&s_expr.plan, &s_expr.children) {
            (RelOperator::EvalScalar { items, .. }, Children::Unary(input)) => {
                if *items == 0 {
                    state.add_result((**input).clone());
                    assert(state.results@ =~= before + seq![**input]);
                    return Ok(());
                }
            },
            _ => {},
        }
        assert(state.results@ =~= before + Seq::<SExpr>::empty());
        Ok(())
    }
}

} // verus!

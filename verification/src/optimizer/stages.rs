//! The stages that the rules, the join reordering and the search of this
//! crate carry out themselves. Each takes the expression that the driver
//! hands out and gives the reply that the driver takes in.

use crate::exception::ErrorCode;
use crate::expression::IndexType;
use crate::optimizer::cascades::CascadesOptimizer;
use crate::optimizer::cascades::CostModel;
use crate::optimizer::cascades::PlanChoice;
use crate::optimizer::cascades::best_costs;
use crate::optimizer::cascades::candidates;
use crate::optimizer::cascades::is_plan;
use crate::optimizer::cascades::lemma_best_is_cheapest;
use crate::optimizer::cascades::plan_cost;
use crate::optimizer::heuristic::HeuristicOptimizer;
use crate::optimizer::heuristic::rewritten;
use crate::optimizer::hyper_dp::Binding;
use crate::optimizer::hyper_dp::DPhpy;
use crate::optimizer::hyper_dp::lemma_reordered_keeps_rows;
use crate::optimizer::hyper_dp::local;
use crate::optimizer::hyper_dp::mentioned;
use crate::optimizer::hyper_dp::reordered;
use crate::optimizer::hyper_dp::rows;
use crate::optimizer::join_parts::JoinParts;
use crate::optimizer::join_parts::assemble;
use crate::optimizer::join_parts::assembled;
use crate::optimizer::join_parts::join_parts;
use crate::optimizer::join_parts::taken_apart;
use crate::optimizer::memo::CostContext;
use crate::optimizer::memo::GroupView;
use crate::optimizer::memo::Memo;
use crate::optimizer::memo::bottom_up;
use crate::optimizer::memo::cheapest;
use crate::optimizer::memo::first_group;
use crate::optimizer::memo::has_member;
use crate::optimizer::memo::interned;
use crate::optimizer::memo::lemma_cheapest;
use crate::optimizer::memo::lemma_first_group;
use crate::optimizer::memo::lemma_interned_bottom_up;
use crate::optimizer::memo::lemma_interned_extends;
use crate::optimizer::memo::lemma_with_member;
use crate::optimizer::memo::with_member;
use crate::optimizer::memo::lemma_size_of;
use crate::optimizer::memo::size_of;
use crate::optimizer::optimizer::RuleList;
use crate::optimizer::optimizer::Stage;
use crate::optimizer::optimizer::StageReply;
use crate::optimizer::optimizer::fits;
use crate::optimizer::rule::Rule;
use crate::optimizer::s_expr::Children;
use crate::optimizer::s_expr::RelOperator;
use crate::optimizer::s_expr::SExpr;
use std::collections::HashMap;
use vstd::prelude::*;

verus! {

broadcast use vstd::std_specs::hash::group_hash_axioms;

/// The stage that rewrites by the rules of `list`, carried out by
/// `heuristic`: the expression that the rewriting gives, or the failure of
/// the rule that failed.
pub fn rewrite_stage<R: Rule>(
    heuristic: &HeuristicOptimizer<R>,
    list: RuleList,
    s_expr: &SExpr,
) -> (reply: Result<StageReply, ErrorCode>)
    ensures
        (match rewritten(
            heuristic.rules@,
            list.spec_rules(),
            *s_expr,
            heuristic.max_rewrites as nat,
            heuristic.max_depth as nat,
            heuristic.max_walks as nat,
        ) {
            Ok(found) => reply == Ok::<StageReply, ErrorCode>(StageReply::Expr(found.0)),
            Err(said) => reply matches Err(e) && e@ == said,
        }),
        reply matches Ok(r) ==> fits(Stage::Rewrite(list), r),
{
    let ids = list.rules();
    match heuristic.optimize_expression(s_expr, &ids) {
        Ok(rewritten) => Ok(StageReply::Expr(rewritten)),
        Err(e) => Err(e),
    }
}

/// The number of operators of `expr`, if it can be counted.
pub fn count_operators(expr: &SExpr) -> (n: Option<usize>)
    ensures
        (match n {
            Some(k) => k == size_of(*expr),
            None => size_of(*expr) > usize::MAX,
        }),
    decreases expr,
{
    let below: usize = match &expr.children {
        Children::Leaf => 0,
        Children::Unary(only) => count_operators(only)?,
        Children::Binary(left, right) => {
            proof {
                lemma_size_of(**left);
                lemma_size_of(**right);
            }
            let l = count_operators(left)?;
            let r = count_operators(right)?;
            l.checked_add(r)?
        },
    };
    below.checked_add(1)
}

/// Whether `costs` holds, for each of the first `n` groups, the plan that
/// `best` keeps for it, and nothing else.
pub open spec fn holds_best(
    costs: Map<IndexType, CostContext>,
    best: Seq<Option<CostContext>>,
    n: int,
) -> bool {
    forall|g: IndexType|
        {
            &&& (#[trigger] costs.contains_key(g)) <==> (g < n && best[g as int] is Some)
            &&& costs.contains_key(g) ==> Some(costs[g]) == best[g as int]
        }
}

/// The search stage where the memo is asked for, carried out by `optimizer`:
/// `s_expr` is interned in a fresh memo, and the search keeps for every group
/// of the memo the plan that costs least. No plan for a group costs less
/// than the one that the reply holds for it.
pub fn memo_stage<M: CostModel>(optimizer: &CascadesOptimizer<M>, s_expr: &SExpr) -> (reply:
    StageReply)
    requires
        size_of(*s_expr) <= usize::MAX,
    ensures
        reply matches StageReply::Memo { memo, best_cost_map } && {
            &&& memo@ == interned(Seq::empty(), *s_expr).0
            &&& holds_best(
                best_cost_map@,
                best_costs(optimizer.cost_model, memo@, memo@.len() as int),
                memo@.len() as int,
            )
            &&& forall|g: IndexType, plan: PlanChoice| #[trigger]
                is_plan(memo@, g as int, plan) ==> best_cost_map@.contains_key(g)
                    && best_cost_map@[g].cost <= plan_cost(
                    optimizer.cost_model,
                    memo@,
                    g as int,
                    plan,
                )
        },
{
    let mut memo = Memo::create();
    assert(memo@ =~= Seq::empty());
    memo.insert(s_expr);
    let best = optimizer.optimize(&memo);
    let mut best_cost_map: HashMap<IndexType, CostContext> = HashMap::new();
    let mut g: usize = 0;
    while g < best.len()
        invariant
            0 <= g <= best@.len(),
            memo@ == interned(Seq::empty(), *s_expr).0,
            best@ == best_costs(optimizer.cost_model, memo@, memo@.len() as int),
            holds_best(best_cost_map@, best@, g as int),
        decreases best@.len() - g,
    {
        match best[g] {
            Some(kept) => {
                best_cost_map.insert(g, kept);
            },
            None => {},
        }
        g += 1;
    }
    proof {
        lemma_best_costs_len(optimizer.cost_model, memo@, memo@.len() as int);
        assert forall|g: IndexType, plan: PlanChoice| #[trigger]
            is_plan(memo@, g as int, plan) implies best_cost_map@.contains_key(g)
            && best_cost_map@[g].cost <= plan_cost(optimizer.cost_model, memo@, g as int, plan) by {
            lemma_best_is_cheapest(optimizer.cost_model, memo@, g as int, plan);
        }
    }
    StageReply::Memo { memo, best_cost_map }
}

/// What reordering the joins of `s_expr` gives, and whether it gives another
/// expression. The joins are taken apart; `dphyp` holds, for each relation
/// in the order of the leaves, the rows that it is taken to hold, and for
/// each join in the order in which the joins are taken apart, the relations
/// that its condition mentions. If the tree of the joins is reordered and
/// the new tree can be put together from the same relations and the same
/// join operators, that is the new expression; else the expression stays.
pub open spec fn join_reordered(dphyp: DPhpy, s_expr: SExpr) -> (SExpr, bool) {
    let parts = taken_apart(s_expr, Seq::empty(), Seq::empty());
    let found = reordered(
        dphyp.cardinalities@,
        dphyp.conditions@,
        dphyp.max_relations,
        parts.tree,
    );
    if found.1 {
        match assembled(found.0, parts.relations, parts.joins) {
            Some(e) => (e, true),
            None => (s_expr, false),
        }
    } else {
        (s_expr, false)
    }
}

/// The stage that reorders the joins, carried out by `dphyp`.
pub fn join_reorder_stage(dphyp: &DPhpy, s_expr: &SExpr) -> (reply: StageReply)
    ensures
        reply == (StageReply::Reordered {
            s_expr: join_reordered(*dphyp, *s_expr).0,
            optimized: join_reordered(*dphyp, *s_expr).1,
        }),
        fits(Stage::JoinReorder, reply),
{
    let JoinParts { tree, relations, joins } = join_parts(s_expr);
    let (found, optimized) = dphyp.optimize(tree);
    if optimized {
        match assemble(&found, &relations, &joins) {
            Some(e) => StageReply::Reordered { s_expr: e, optimized: true },
            None => StageReply::Reordered { s_expr: s_expr.clone(), optimized: false },
        }
    } else {
        StageReply::Reordered { s_expr: s_expr.clone(), optimized: false }
    }
}

/// Reordering the joins of an expression keeps its rows. The expression
/// that comes out is put together from the relations and the join operators
/// of the expression that went in, along a tree of joins that gives the
/// same rows as the tree that they came in, whatever tuples the relations
/// hold, as long as each condition only looks at the relations it mentions.
pub proof fn lemma_join_reorder_keeps_rows(
    dphyp: DPhpy,
    s_expr: SExpr,
    sizes: Seq<int>,
    holds: spec_fn(int, Binding) -> bool,
)
    requires
        local(holds, mentioned(dphyp.conditions@)),
    ensures
        ({
            let parts = taken_apart(s_expr, Seq::empty(), Seq::empty());
            let found = reordered(
                dphyp.cardinalities@,
                dphyp.conditions@,
                dphyp.max_relations,
                parts.tree,
            );
            &&& rows(found.0, sizes, holds) == rows(parts.tree, sizes, holds)
            &&& join_reordered(dphyp, s_expr).1 ==> assembled(
                found.0,
                parts.relations,
                parts.joins,
            ) == Some(join_reordered(dphyp, s_expr).0)
            &&& !join_reordered(dphyp, s_expr).1 ==> join_reordered(dphyp, s_expr).0 == s_expr
        }),
{
    let parts = taken_apart(s_expr, Seq::empty(), Seq::empty());
    lemma_reordered_keeps_rows(
        dphyp.cardinalities@,
        dphyp.conditions@,
        dphyp.max_relations,
        parts.tree,
        sizes,
        holds,
    );
}

/// The expression of the plan that `best` keeps for group `g`: the operator
/// of the member kept, over the expressions of the plans kept for its
/// inputs. Nothing if no member is kept for the group or for a group below
/// it, or if a member has more than two inputs or an input that does not
/// come before its group.
pub open spec fn kept_expr(
    groups: Seq<GroupView>,
    best: Seq<Option<CostContext>>,
    g: int,
) -> Option<SExpr>
    decreases g,
{
    if 0 <= g < groups.len() && g < best.len() && best[g] is Some && best[g]->0.expr_index
        < groups[g].m_exprs.len() {
        let member = groups[g].m_exprs[best[g]->0.expr_index as int];
        if member.children.len() == 0 {
            Some(SExpr { plan: member.plan, children: Children::Leaf })
        } else if member.children.len() == 1 && member.children[0] < g {
            match kept_expr(groups, best, member.children[0] as int) {
                Some(only) => Some(
                    SExpr { plan: member.plan, children: Children::Unary(Box::new(only)) },
                ),
                None => None,
            }
        } else if member.children.len() == 2 && member.children[0] < g && member.children[1] < g {
            match (
                kept_expr(groups, best, member.children[0] as int),
                kept_expr(groups, best, member.children[1] as int),
            ) {
                (Some(left), Some(right)) => Some(
                    SExpr {
                        plan: member.plan,
                        children: Children::Binary(Box::new(left), Box::new(right)),
                    },
                ),
                _ => None,
            }
        } else {
            None
        }
    } else {
        None
    }
}

/// Every group has one member: the memo holds one way to compute each
/// group.
pub open spec fn single_membered(groups: Seq<GroupView>) -> bool {
    forall|g: int| 0 <= g < groups.len() ==> (#[trigger] groups[g]).m_exprs.len() == 1
}

/// `best` keeps the first member for each of the first `n` groups.
pub open spec fn keeps_first(best: Seq<Option<CostContext>>, n: int) -> bool {
    n <= best.len() && forall|g: int|
        0 <= g < n ==> (#[trigger] best[g]) is Some && best[g]->0.expr_index == 0
}

/// In a memo with one member in each group the search keeps that member.
proof fn lemma_single_keeps_first<M: CostModel>(model: M, groups: Seq<GroupView>, n: int)
    requires
        single_membered(groups),
        0 <= n <= groups.len(),
    ensures
        keeps_first(best_costs(model, groups, n), n),
    decreases n,
{
    if n > 0 {
        lemma_single_keeps_first(model, groups, n - 1);
        lemma_best_costs_len(model, groups, n - 1);
        let before = best_costs(model, groups, n - 1);
        let offered = candidates(model, before, groups[n - 1], n - 1, 1);
        assert(groups[n - 1].m_exprs.len() == 1);
        lemma_cheapest(offered, 0);
        assert(offered[0].expr_index == 0);
        let after = best_costs(model, groups, n);
        assert(after[n - 1] == cheapest(offered));
        assert forall|g: int| 0 <= g < n implies (#[trigger] after[g]) is Some && after[g]->0.expr_index
            == 0 by {
            if g < n - 1 {
                assert(after[g] == before[g]);
            }
        }
    }
}

/// What is read off for a group depends on the groups up to it only, and on
/// the members kept for them.
proof fn lemma_kept_expr_below(
    a: Seq<GroupView>,
    b: Seq<GroupView>,
    best_a: Seq<Option<CostContext>>,
    best_b: Seq<Option<CostContext>>,
    g: int,
)
    requires
        0 <= g < a.len(),
        g < b.len(),
        forall|h: int| 0 <= h <= g ==> #[trigger] a[h] == b[h],
        keeps_first(best_a, g + 1),
        keeps_first(best_b, g + 1),
    ensures
        kept_expr(a, best_a, g) == kept_expr(b, best_b, g),
    decreases g,
{
    assert(a[g] == b[g]);
    assert(best_a[g] is Some && best_b[g] is Some);
    if 0 < a[g].m_exprs.len() {
        let member = a[g].m_exprs[0];
        if member.children.len() == 1 && member.children[0] < g {
            lemma_kept_expr_below(a, b, best_a, best_b, member.children[0] as int);
        } else if member.children.len() == 2 && member.children[0] < g && member.children[1] < g {
            lemma_kept_expr_below(a, b, best_a, best_b, member.children[0] as int);
            lemma_kept_expr_below(a, b, best_a, best_b, member.children[1] as int);
        }
    }
}

/// Interning a member in a memo with one member in each group leaves one
/// member in each group, and the member is the one of its group.
proof fn lemma_with_member_single(
    groups: Seq<GroupView>,
    plan: RelOperator,
    children: Seq<IndexType>,
)
    requires
        single_membered(groups),
    ensures
        single_membered(with_member(groups, plan, children).0),
        ({
            let after = with_member(groups, plan, children);
            0 <= after.1 < after.0.len() && after.0[after.1].m_exprs[0].plan == plan
                && after.0[after.1].m_exprs[0].children == children
        }),
{
    lemma_first_group(groups, plan, children, 0);
    lemma_with_member(groups, plan, children);
    let found = first_group(groups, plan, children, 0);
    if found < groups.len() {
        assert(groups[found].m_exprs.len() == 1);
        assert(has_member(groups[found], plan, children));
    }
}

/// What is read off a memo for an expression that was interned in it, where
/// each group has one member and the first member of each group is kept, is
/// the expression.
proof fn lemma_interned_kept(groups: Seq<GroupView>, expr: SExpr, best: Seq<Option<CostContext>>)
    requires
        single_membered(groups),
        bottom_up(groups),
        groups.len() + size_of(expr) <= usize::MAX,
        keeps_first(best, interned(groups, expr).0.len() as int),
    ensures
        single_membered(interned(groups, expr).0),
        kept_expr(interned(groups, expr).0, best, interned(groups, expr).1) == Some(expr),
    decreases expr,
{
    lemma_interned_extends(groups, expr);
    lemma_interned_bottom_up(groups, expr);
    let after = interned(groups, expr).0;
    let g = interned(groups, expr).1;
    match expr.children {
        Children::Leaf => {
            lemma_with_member_single(groups, expr.plan, Seq::empty());
            assert(expr == (SExpr { plan: expr.plan, children: Children::Leaf }));
        },
        Children::Unary(only) => {
            lemma_size_of(*only);
            lemma_interned_extends(groups, *only);
            lemma_interned_bottom_up(groups, *only);
            let below = interned(groups, *only).0;
            let child = interned(groups, *only).1;
            lemma_with_member(below, expr.plan, seq![child as usize]);
            lemma_interned_kept(groups, *only, best);
            lemma_with_member_single(below, expr.plan, seq![child as usize]);
            let member = after[g].m_exprs[0];
            assert(member.children[0] == child);
            assert(member.children[0] < g);
            lemma_kept_expr_below(after, below, best, best, child);
            assert(expr == (SExpr { plan: expr.plan, children: Children::Unary(only) }));
        },
        Children::Binary(left, right) => {
            lemma_size_of(*left);
            lemma_size_of(*right);
            lemma_interned_extends(groups, *left);
            lemma_interned_bottom_up(groups, *left);
            let first = interned(groups, *left).0;
            let l = interned(groups, *left).1;
            lemma_interned_extends(first, *right);
            lemma_interned_bottom_up(first, *right);
            let second = interned(first, *right).0;
            let r = interned(first, *right).1;
            lemma_with_member(second, expr.plan, seq![l as usize, r as usize]);
            lemma_interned_kept(groups, *left, best);
            lemma_interned_kept(first, *right, best);
            lemma_with_member_single(second, expr.plan, seq![l as usize, r as usize]);
            let member = after[g].m_exprs[0];
            assert(member.children[0] == l);
            assert(member.children[1] == r);
            assert(member.children[0] < g && member.children[1] < g);
            lemma_kept_expr_below(after, first, best, best, l);
            lemma_kept_expr_below(after, second, best, best, r);
            assert(expr == (SExpr { plan: expr.plan, children: Children::Binary(left, right) }));
        },
    }
}

/// A memo that holds one expression and nothing else holds one way to
/// compute each group, so that the plan read off for the expression is the
/// expression itself, whatever the costs.
pub proof fn lemma_fresh_memo_plan<M: CostModel>(model: M, expr: SExpr)
    requires
        size_of(expr) <= usize::MAX,
    ensures
        ({
            let memo = interned(Seq::empty(), expr).0;
            kept_expr(
                memo,
                best_costs(model, memo, memo.len() as int),
                interned(Seq::empty(), expr).1,
            ) == Some(expr)
        }),
{
    let none = Seq::<GroupView>::empty();
    let memo = interned(none, expr).0;
    lemma_interned_extends(none, expr);
    // one member in each group: the first members are kept
    lemma_interned_single(none, expr);
    lemma_single_keeps_first(model, memo, memo.len() as int);
    lemma_interned_kept(none, expr, best_costs(model, memo, memo.len() as int));
}

/// Interning an expression in a memo with one member in each group leaves
/// one member in each group.
proof fn lemma_interned_single(groups: Seq<GroupView>, expr: SExpr)
    requires
        single_membered(groups),
    ensures
        single_membered(interned(groups, expr).0),
    decreases expr,
{
    match expr.children {
        Children::Leaf => {
            lemma_with_member_single(groups, expr.plan, Seq::empty());
        },
        Children::Unary(only) => {
            lemma_interned_single(groups, *only);
            let below = interned(groups, *only).0;
            let child = interned(groups, *only).1;
            lemma_with_member_single(below, expr.plan, seq![child as usize]);
        },
        Children::Binary(left, right) => {
            lemma_interned_single(groups, *left);
            let first = interned(groups, *left).0;
            let l = interned(groups, *left).1;
            lemma_interned_single(first, *right);
            let second = interned(first, *right).0;
            let r = interned(first, *right).1;
            lemma_with_member_single(second, expr.plan, seq![l as usize, r as usize]);
        },
    }
}

/// Reads the plan that `best` keeps for group `g` off the memo, walking the
/// members kept from the group down.
pub fn extract_plan(memo: &Memo, best: &Vec<Option<CostContext>>, g: IndexType) -> (plan: Option<
    SExpr,
>)
    ensures
        plan == kept_expr(memo@, best@, g as int),
    decreases g,
{
    if g >= memo.groups.len() || g >= best.len() {
        return None;
    }
    let kept = best[g]?;
    let group = &memo.groups[g];
    assert(memo@[g as int] == group@);
    if kept.expr_index >= group.m_exprs.len() {
        return None;
    }
    let member = &group.m_exprs[kept.expr_index];
    assert(group@.m_exprs[kept.expr_index as int] == member@);
    if member.children.len() == 0 {
        Some(SExpr::create_leaf(member.plan))
    } else if member.children.len() == 1 && member.children[0] < g {
        let only = extract_plan(memo, best, member.children[0])?;
        Some(SExpr::create_unary(member.plan, only))
    } else if member.children.len() == 2 && member.children[0] < g && member.children[1] < g {
        let left = extract_plan(memo, best, member.children[0]);
        let right = extract_plan(memo, best, member.children[1]);
        match (left, right) {
            (Some(l), Some(r)) => Some(SExpr::create_binary(member.plan, l, r)),
            _ => None,
        }
    } else {
        None
    }
}

/// The search stage of a query, carried out by `optimizer`: `s_expr` is
/// interned in a fresh memo, the search keeps for every group the plan that
/// costs least, and the plan kept for the group of `s_expr` is read off the
/// memo. No plan for that group costs less than the one kept.
pub fn cascades_stage<M: CostModel>(optimizer: &CascadesOptimizer<M>, s_expr: &SExpr) -> (reply:
    StageReply)
    requires
        size_of(*s_expr) <= usize::MAX,
    ensures
        ({
            let memo = interned(Seq::empty(), *s_expr).0;
            let root = interned(Seq::empty(), *s_expr).1;
            let best = best_costs(optimizer.cost_model, memo, memo.len() as int);
            &&& reply matches StageReply::Expr(plan) && kept_expr(memo, best, root) == Some(plan)
            &&& forall|plan: PlanChoice| #[trigger]
                is_plan(memo, root, plan) ==> (best[root] matches Some(kept) && kept.cost
                    <= plan_cost(optimizer.cost_model, memo, root, plan))
        }),
        fits(Stage::Cascades { join_reordered: false }, reply),
        fits(Stage::Cascades { join_reordered: true }, reply),
{
    let mut memo = Memo::create();
    assert(memo@ =~= Seq::empty());
    let root = memo.insert(s_expr);
    let best = optimizer.optimize(&memo);
    proof {
        assert forall|plan: PlanChoice| #[trigger]
            is_plan(memo@, root as int, plan) implies (best@[root as int] matches Some(kept)
            && kept.cost <= plan_cost(optimizer.cost_model, memo@, root as int, plan)) by {
            lemma_best_is_cheapest(optimizer.cost_model, memo@, root as int, plan);
        }
        lemma_fresh_memo_plan(optimizer.cost_model, *s_expr);
    }
    match extract_plan(&memo, &best, root) {
        Some(plan) => StageReply::Expr(plan),
        // a fresh memo has a plan for what was interned in it
        None => unreached(),
    }
}

/// The search keeps one entry for each group.
proof fn lemma_best_costs_len<M: CostModel>(
    model: M,
    groups: Seq<GroupView>,
    n: int,
)
    requires
        0 <= n,
    ensures
        best_costs(model, groups, n).len() == n,
    decreases n,
{
    if n > 0 {
        lemma_best_costs_len(model, groups, n - 1);
    }
}

} // verus!

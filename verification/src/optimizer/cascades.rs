//! The cost-based choice of a plan.
//!
//! The memo holds, for every group, the ways to compute it: its members, each
//! an operator over groups. A plan for a group picks one member and, for each
//! input of that member, a plan for the input's group. The search goes
//! through the groups from the leaves up and keeps for every group the
//! cheapest plan: the member whose own cost, together with the cost of the
//! cheapest plans of its inputs, is least, and among equals the one that was
//! inserted first.

use crate::expression::IndexType;
use crate::optimizer::memo::CostContext;
use crate::optimizer::memo::GroupView;
use crate::optimizer::memo::MExpr;
use crate::optimizer::memo::MExprView;
use crate::optimizer::memo::Memo;
use crate::optimizer::memo::cheapest;
use crate::optimizer::memo::lemma_cheapest;
use vstd::prelude::*;

verus! {

/// What an operator costs by itself.
pub trait CostModel {
    /// The cost of the member `m_expr`, its inputs not counted.
    spec fn spec_compute_cost(&self, m_expr: MExprView) -> u64;

    fn compute_cost(&self, m_expr: &MExpr) -> (cost: u64)
        ensures
            cost == self.spec_compute_cost(m_expr@),
    ;
}

/// The cost model under which every operator costs the same: the cost of a
/// plan is the number of its operators.
#[derive(Clone, Copy, Debug)]
pub struct OperatorCount;

impl CostModel for OperatorCount {
    open spec fn spec_compute_cost(&self, m_expr: MExprView) -> u64 {
        1
    }

    fn compute_cost(&self, m_expr: &MExpr) -> (cost: u64) {
        1
    }
}

/// `x` as a cost: costs beyond the largest number count as the largest.
pub open spec fn capped(x: int) -> u64 {
    if x >= u64::MAX {
        u64::MAX
    } else if x < 0 {
        0
    } else {
        x as u64
    }
}

/// Every input of every member is a group with a smaller index.
pub open spec fn layered(groups: Seq<GroupView>) -> bool {
    forall|g: int, k: int, c: int|
        #![trigger groups[g].m_exprs[k].children[c]]
        0 <= g < groups.len() && 0 <= k < groups[g].m_exprs.len() && 0 <= c
            < groups[g].m_exprs[k].children.len() ==> groups[g].m_exprs[k].children[c] < g
}

/// The cost of the cheapest plan kept for group `group`; the largest cost
/// where none is kept.
pub open spec fn kept_cost(best: Seq<Option<CostContext>>, group: IndexType) -> u64 {
    if group < best.len() && best[group as int] is Some {
        best[group as int]->0.cost
    } else {
        u64::MAX
    }
}

/// The cost of the cheapest plans of the first `n` of `children`, together.
pub open spec fn inputs_cost(best: Seq<Option<CostContext>>, children: Seq<IndexType>,
    n: int) -> u64
    decreases n,
{
    if n <= 0 {
        0
    } else {
        capped(inputs_cost(best, children, n - 1) + kept_cost(best, children[n - 1]))
    }
}

/// The cost of the cheapest plan through the member `m_expr`: its own cost
/// and that of the cheapest plans of its inputs.
pub open spec fn member_cost<M: CostModel>(
    model: M,
    best: Seq<Option<CostContext>>,
    m_expr: MExprView,
) -> u64 {
    capped(
        model.spec_compute_cost(m_expr) + inputs_cost(
            best,
            m_expr.children,
            m_expr.children.len() as int,
        ),
    )
}

/// The cheapest plans through the first `n` members of a group, in the order
/// of the members.
pub open spec fn candidates<M: CostModel>(
    model: M,
    best: Seq<Option<CostContext>>,
    group: GroupView,
    index: int,
    n: int,
) -> Seq<CostContext> {
    Seq::new(
        n as nat,
        |k: int|
            CostContext {
                group_index: index as usize,
                expr_index: k as usize,
                cost: member_cost(model, best, group.m_exprs[k]),
            },
    )
}

/// The cheapest plan of each of the first `n` groups; none for a group
/// without members.
pub open spec fn best_costs<M: CostModel>(model: M, groups: Seq<GroupView>, n: int) -> Seq<
    Option<CostContext>,
>
    decreases n,
{
    if n <= 0 {
        Seq::empty()
    } else {
        let before = best_costs(model, groups, n - 1);
        before.push(
            cheapest(
                candidates(
                    model,
                    before,
                    groups[n - 1],
                    n - 1,
                    groups[n - 1].m_exprs.len() as int,
                ),
            ),
        )
    }
}

/// A plan: the member picked for a group, and a plan for each of its inputs.
pub struct PlanChoice {
    pub member: int,
    pub inputs: Seq<PlanChoice>,
}

/// Whether `plan` is a plan for group `g`: it picks a member of the group
/// and, for each input of the member, a plan for the input's group.
pub open spec fn is_plan(groups: Seq<GroupView>, g: int, plan: PlanChoice) -> bool
    decreases g,
{
    &&& 0 <= g < groups.len()
    &&& 0 <= plan.member < groups[g].m_exprs.len()
    &&& plan.inputs.len() == groups[g].m_exprs[plan.member].children.len()
    &&& forall|c: int|
        0 <= c < plan.inputs.len() ==> groups[g].m_exprs[plan.member].children[c] < g && is_plan(
            groups,
            groups[g].m_exprs[plan.member].children[c] as int,
            #[trigger] plan.inputs[c],
        )
}

/// The cost of the first `n` input plans of a plan for group `g`, together.
pub open spec fn plan_inputs_cost<M: CostModel>(
    model: M,
    groups: Seq<GroupView>,
    g: int,
    plan: PlanChoice,
    n: int,
) -> u64
    decreases g, 0nat, n,
{
    if n <= 0 || !(0 <= g < groups.len()) || !(0 <= plan.member < groups[g].m_exprs.len()) || n
        > plan.inputs.len() || n > groups[g].m_exprs[plan.member].children.len() {
        0
    } else if groups[g].m_exprs[plan.member].children[n - 1] < g {
        capped(
            plan_inputs_cost(model, groups, g, plan, n - 1) + plan_cost(
                model,
                groups,
                groups[g].m_exprs[plan.member].children[n - 1] as int,
                plan.inputs[n - 1],
            ),
        )
    } else {
        u64::MAX
    }
}

/// The cost of a plan for group `g`: the own cost of the member it picks and
/// the cost of its input plans.
pub open spec fn plan_cost<M: CostModel>(
    model: M,
    groups: Seq<GroupView>,
    g: int,
    plan: PlanChoice,
) -> u64
    decreases g, 1nat, 0int,
{
    if 0 <= g < groups.len() && 0 <= plan.member < groups[g].m_exprs.len() {
        capped(
            model.spec_compute_cost(groups[g].m_exprs[plan.member]) + plan_inputs_cost(
                model,
                groups,
                g,
                plan,
                plan.inputs.len() as int,
            ),
        )
    } else {
        u64::MAX
    }
}

/// The cheapest plan of a group does not depend on the groups after it.
pub proof fn lemma_best_costs_prefix<M: CostModel>(model: M, groups: Seq<GroupView>, n: int, m: int)
    requires
        0 <= n <= m,
    ensures
        best_costs(model, groups, m).len() == m,
        best_costs(model, groups, n) =~= best_costs(model, groups, m).take(n),
    decreases m,
{
    if m > 0 {
        if n < m {
            lemma_best_costs_prefix(model, groups, n, m - 1);
        } else {
            lemma_best_costs_prefix(model, groups, m - 1, m - 1);
        }
    }
}

/// The cheapest plans of the inputs of a member cost no more than any plans
/// for them.
proof fn lemma_inputs_are_cheapest<M: CostModel>(
    model: M,
    groups: Seq<GroupView>,
    g: int,
    plan: PlanChoice,
    n: int,
)
    requires
        is_plan(groups, g, plan),
        0 <= n <= plan.inputs.len(),
    ensures
        inputs_cost(
            best_costs(model, groups, g),
            groups[g].m_exprs[plan.member].children,
            n,
        ) <= plan_inputs_cost(model, groups, g, plan, n),
    decreases g, 0nat, n,
{
    if n > 0 {
        let children = groups[g].m_exprs[plan.member].children;
        let child = children[n - 1] as int;
        assert(is_plan(groups, child, plan.inputs[n - 1]));
        lemma_inputs_are_cheapest(model, groups, g, plan, n - 1);
        lemma_best_is_cheapest_upto(model, groups, child, plan.inputs[n - 1]);
        lemma_best_costs_prefix(model, groups, child + 1, g);
        assert(best_costs(model, groups, g)[child] == best_costs(model, groups, child + 1)[child]);
    }
}

/// The cheapest plan kept for a group costs no more than any plan for it.
proof fn lemma_best_is_cheapest_upto<M: CostModel>(
    model: M,
    groups: Seq<GroupView>,
    g: int,
    plan: PlanChoice,
)
    requires
        is_plan(groups, g, plan),
    ensures
        best_costs(model, groups, g + 1)[g] matches Some(best) && best.cost <= plan_cost(
            model,
            groups,
            g,
            plan,
        ),
    decreases g, 1nat, 0int,
{
    let before = best_costs(model, groups, g);
    let offered = candidates(model, before, groups[g], g, groups[g].m_exprs.len() as int);
    lemma_best_costs_prefix(model, groups, g, g);
    lemma_cheapest(offered, plan.member);
    lemma_inputs_are_cheapest(model, groups, g, plan, plan.inputs.len() as int);
    assert(offered[plan.member].cost == member_cost(model, before, groups[g].m_exprs[plan.member]));
}

/// The plan that the search keeps for a group costs no more than any plan
/// for the group.
pub proof fn lemma_best_is_cheapest<M: CostModel>(
    model: M,
    groups: Seq<GroupView>,
    g: int,
    plan: PlanChoice,
)
    requires
        is_plan(groups, g, plan),
    ensures
        best_costs(model, groups, groups.len() as int)[g] matches Some(best) && best.cost
            <= plan_cost(model, groups, g, plan),
{
    lemma_best_is_cheapest_upto(model, groups, g, plan);
    lemma_best_costs_prefix(model, groups, g + 1, groups.len() as int);
    assert(best_costs(model, groups, groups.len() as int)[g] == best_costs(model, groups,
        g + 1)[g]);
}

/// Every group has a member, and no more members than can be counted.
pub open spec fn inhabited(groups: Seq<GroupView>) -> bool {
    forall|g: int| 0 <= g < groups.len() ==> 0 < (#[trigger] groups[g]).m_exprs.len() <= usize::MAX
}

/// A memo that is bottom-up, with groups whose members can be counted, is
/// layered and inhabited.
pub proof fn lemma_bottom_up(groups: Seq<GroupView>)
    requires
        crate::optimizer::memo::bottom_up(groups),
        forall|g: int| 0 <= g < groups.len() ==> (#[trigger] groups[g]).m_exprs.len() <= usize::MAX,
    ensures
        layered(groups),
        inhabited(groups),
{
}

/// The member that the search keeps for group `g`.
pub open spec fn kept_member<M: CostModel>(model: M, groups: Seq<GroupView>, g: int) -> int {
    match best_costs(model, groups, g + 1)[g] {
        Some(best) => best.expr_index as int,
        None => 0,
    }
}

/// The plans that the search keeps for the first `n` inputs of member
/// `member` of group `g`.
pub open spec fn chosen_inputs<M: CostModel>(
    model: M,
    groups: Seq<GroupView>,
    g: int,
    member: int,
    n: int,
) -> Seq<PlanChoice>
    decreases g, 0nat, n,
{
    if n <= 0 || !(0 <= g < groups.len()) || !(0 <= member < groups[g].m_exprs.len()) || n
        > groups[g].m_exprs[member].children.len() {
        Seq::empty()
    } else if groups[g].m_exprs[member].children[n - 1] < g {
        chosen_inputs(model, groups, g, member, n - 1).push(
            chosen(model, groups, groups[g].m_exprs[member].children[n - 1] as int),
        )
    } else {
        chosen_inputs(model, groups, g, member, n - 1).push(
            PlanChoice { member: 0, inputs: Seq::empty() },
        )
    }
}

/// The plan that the search keeps for group `g`: the member it keeps, over
/// the plans it keeps for the inputs of that member.
pub open spec fn chosen<M: CostModel>(model: M, groups: Seq<GroupView>, g: int) -> PlanChoice
    decreases g, 1nat, 0int,
{
    if 0 <= g < groups.len() && 0 <= kept_member(model, groups, g) < groups[g].m_exprs.len() {
        PlanChoice {
            member: kept_member(model, groups, g),
            inputs: chosen_inputs(
                model,
                groups,
                g,
                kept_member(model, groups, g),
                groups[g].m_exprs[kept_member(model, groups, g)].children.len() as int,
            ),
        }
    } else {
        PlanChoice { member: 0, inputs: Seq::empty() }
    }
}

proof fn lemma_chosen_inputs<M: CostModel>(
    model: M,
    groups: Seq<GroupView>,
    g: int,
    member: int,
    n: int,
)
    requires
        layered(groups),
        inhabited(groups),
        0 <= g < groups.len(),
        0 <= member < groups[g].m_exprs.len(),
        0 <= n <= groups[g].m_exprs[member].children.len(),
    ensures
        chosen_inputs(model, groups, g, member, n).len() == n,
        forall|c: int|
            0 <= c < n ==> #[trigger] chosen_inputs(model, groups, g, member, n)[c] == chosen(
                model,
                groups,
                groups[g].m_exprs[member].children[c] as int,
            ),
    decreases n,
{
    if n > 0 {
        lemma_chosen_inputs(model, groups, g, member, n - 1);
        assert(groups[g].m_exprs[member].children[n - 1] < g);
    }
}

/// The cost of the input plans that the search keeps is the cost that it
/// counted for them.
proof fn lemma_chosen_inputs_cost<M: CostModel>(
    model: M,
    groups: Seq<GroupView>,
    g: int,
    n: int,
)
    requires
        layered(groups),
        inhabited(groups),
        0 <= g < groups.len(),
        0 <= kept_member(model, groups, g) < groups[g].m_exprs.len(),
        0 <= n <= groups[g].m_exprs[kept_member(model, groups, g)].children.len(),
    ensures
        plan_inputs_cost(model, groups, g, chosen(model, groups, g), n) == inputs_cost(
            best_costs(model, groups, g),
            groups[g].m_exprs[kept_member(model, groups, g)].children,
            n,
        ),
    decreases g, 0nat, n,
{
    let member = kept_member(model, groups, g);
    let children = groups[g].m_exprs[member].children;
    lemma_chosen_inputs(model, groups, g, member, children.len() as int);
    if n > 0 {
        let child = children[n - 1] as int;
        assert(groups[g].m_exprs[member].children[n - 1] < g);
        lemma_chosen_inputs_cost(model, groups, g, n - 1);
        lemma_chosen_upto(model, groups, child);
        lemma_best_costs_prefix(model, groups, child + 1, g);
        assert(best_costs(model, groups, g)[child] == best_costs(model, groups, child + 1)[child]);
        assert(chosen(model, groups, g).inputs[n - 1] == chosen(model, groups, child));
    }
}

proof fn lemma_chosen_upto<M: CostModel>(model: M, groups: Seq<GroupView>, g: int)
    requires
        layered(groups),
        inhabited(groups),
        0 <= g < groups.len(),
    ensures
        is_plan(groups, g, chosen(model, groups, g)),
        best_costs(model, groups, g + 1)[g] matches Some(best) && best.cost == plan_cost(
            model,
            groups,
            g,
            chosen(model, groups, g),
        ),
    decreases g, 1nat, 0int,
{
    let before = best_costs(model, groups, g);
    let offered = candidates(model, before, groups[g], g, groups[g].m_exprs.len() as int);
    lemma_best_costs_prefix(model, groups, g, g);
    lemma_cheapest(offered, 0);
    let best = cheapest(offered)->0;
    let i = choose|i: int|
        0 <= i < offered.len() && offered[i] == best && forall|k: int|
            0 <= k < i ==> (#[trigger] offered[k]).cost > best.cost;
    assert(offered[i].expr_index == i as usize);
    let member = kept_member(model, groups, g);
    assert(member == i);
    let children = groups[g].m_exprs[member].children;
    lemma_chosen_inputs(model, groups, g, member, children.len() as int);
    lemma_chosen_inputs_cost(model, groups, g, children.len() as int);
    assert forall|c: int| 0 <= c < chosen(model, groups, g).inputs.len() implies children[c] < g
        && is_plan(groups, children[c] as int, #[trigger] chosen(model, groups, g).inputs[c]) by {
        assert(groups[g].m_exprs[member].children[c] < g);
        lemma_chosen_upto(model, groups, children[c] as int);
    }
}

/// The plan that the search keeps for a group is a plan for the group, and
/// it costs what the search says.
pub proof fn lemma_chosen<M: CostModel>(model: M, groups: Seq<GroupView>, g: int)
    requires
        layered(groups),
        inhabited(groups),
        0 <= g < groups.len(),
    ensures
        is_plan(groups, g, chosen(model, groups, g)),
        best_costs(model, groups, groups.len() as int)[g] matches Some(best) && best.cost
            == plan_cost(model, groups, g, chosen(model, groups, g)),
{
    lemma_chosen_upto(model, groups, g);
    lemma_best_costs_prefix(model, groups, g + 1, groups.len() as int);
    assert(best_costs(model, groups, groups.len() as int)[g] == best_costs(model, groups,
        g + 1)[g]);
}

/// The search for the cheapest plans of a memo.
pub struct CascadesOptimizer<M: CostModel> {
    pub cost_model: M,
}

impl<M: CostModel> CascadesOptimizer<M> {
    pub fn create(cost_model: M) -> (optimizer: Self)
        ensures
            optimizer.cost_model == cost_model,
    {
        CascadesOptimizer { cost_model }
    }

    /// The cheapest plan of every group of `memo`, by the index of the
    /// group; none for a group without members.
    pub fn optimize(&self, memo: &Memo) -> (best: Vec<Option<CostContext>>)
        ensures
            best@ == best_costs(self.cost_model, memo@, memo@.len() as int),
    {
        let mut best: Vec<Option<CostContext>> = Vec::with_capacity(memo.groups.len());
        let mut g: usize = 0;
        while g < memo.groups.len()
            invariant
                0 <= g <= memo.groups@.len(),
                best@ == best_costs(self.cost_model, memo@, g as int),
                best@.len() == g,
            decreases memo.groups@.len() - g,
        {
            let group = &memo.groups[g];
            assert(memo@[g as int] == group@);
            let mut kept: Option<CostContext> = None;
            let mut k: usize = 0;
            assert(candidates(self.cost_model, best@, group@, g as int, 0) =~= Seq::empty());
            while k < group.m_exprs.len()
                invariant
                    0 <= k <= group.m_exprs@.len(),
                    group@.m_exprs.len() == group.m_exprs@.len(),
                    kept == cheapest(candidates(self.cost_model, best@, group@, g as int,
                        k as int)),
                decreases group.m_exprs@.len() - k,
            {
                let m_expr = &group.m_exprs[k];
                assert(group@.m_exprs[k as int] == m_expr@);
                let mut inputs: u64 = 0;
                let mut c: usize = 0;
                while c < m_expr.children.len()
                    invariant
                        0 <= c <= m_expr.children@.len(),
                        inputs == inputs_cost(best@, m_expr.children@, c as int),
                    decreases m_expr.children@.len() - c,
                {
                    let child = m_expr.children[c];
                    let cost: u64 = if child < best.len() {
                        match best[child] {
                            Some(kept_plan) => kept_plan.cost,
                            None => u64::MAX,
                        }
                    } else {
                        u64::MAX
                    };
                    inputs = inputs.saturating_add(cost);
                    c += 1;
                }
                let cost = self.cost_model.compute_cost(m_expr).saturating_add(inputs);
                let candidate = CostContext { group_index: g, expr_index: k, cost };
                proof {
                    let upto = candidates(self.cost_model, best@, group@, g as int, k as int + 1);
                    assert(upto.drop_last() =~= candidates(
                        self.cost_model,
                        best@,
                        group@,
                        g as int,
                        k as int,
                    ));
                    assert(upto.last() == candidate);
                }
                kept = Some(
                    match kept {
                        Some(b) => if candidate.cost < b.cost {
                            candidate
                        } else {
                            b
                        },
                        None => candidate,
                    },
                );
                k += 1;
            }
            best.push(kept);
            g += 1;
        }
        best
    }
}

} // verus!

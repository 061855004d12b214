//! The memo: groups of equivalent expressions, and for each group the
//! cheapest way found so far to compute it.

use crate::exception::ErrorCode;
use crate::exception::ErrorKind;
use crate::exception::failure;
use crate::expression::IndexType;
use crate::optimizer::s_expr::Children;
use crate::optimizer::s_expr::RelOperator;
use crate::optimizer::s_expr::SExpr;
use vstd::prelude::*;

verus! {

/// How the rows of a result must be spread over the nodes.
#[derive(Clone, Copy, Debug, PartialEq, Eq, Structural)]
pub enum Distribution {
    Any,
    Random,
    Serial,
    Broadcast,
    /// By the hash of the keys known under the number.
    Hash(u64),
}

/// What a parent demands of the plan of a group.
#[derive(Clone, Copy, Debug, PartialEq, Eq, Structural)]
pub struct RequiredProperty {
    pub distribution: Distribution,
}

/// A way to compute a group, with what it costs in all.
#[derive(Clone, Copy, Debug, PartialEq, Eq, Structural)]
pub struct CostContext {
    pub group_index: IndexType,
    /// The member of the group that is the root of the plan.
    pub expr_index: IndexType,
    pub cost: u64,
}

/// A member of a group: an operator over groups.
#[derive(Debug)]
pub struct MExpr {
    pub group_index: IndexType,
    pub index: IndexType,
    pub plan: RelOperator,
    pub children: Vec<IndexType>,
}

pub struct MExprView {
    pub group_index: IndexType,
    pub index: IndexType,
    pub plan: RelOperator,
    pub children: Seq<IndexType>,
}

impl View for MExpr {
    type V = MExprView;

    open spec fn view(&self) -> MExprView {
        MExprView {
            group_index: self.group_index,
            index: self.index,
            plan: self.plan,
            children: self.children@,
        }
    }
}

/// Expressions that give the same result, and the cheapest plan found for
/// each demand.
#[derive(Debug)]
pub struct Group {
    pub group_index: IndexType,
    pub m_exprs: Vec<MExpr>,
    /// For each demand met so far, the cheapest plan found.
    pub best_costs: Vec<(RequiredProperty, CostContext)>,
}

pub struct GroupView {
    pub group_index: IndexType,
    pub m_exprs: Seq<MExprView>,
    pub best_costs: Seq<(RequiredProperty, CostContext)>,
}

impl View for Group {
    type V = GroupView;

    open spec fn view(&self) -> GroupView {
        GroupView {
            group_index: self.group_index,
            m_exprs: self.m_exprs@.map_values(|m: MExpr| m@),
            best_costs: self.best_costs@,
        }
    }
}

#[derive(Debug)]
pub struct Memo {
    pub groups: Vec<Group>,
}

impl View for Memo {
    type V = Seq<GroupView>;

    open spec fn view(&self) -> Seq<GroupView> {
        self.groups@.map_values(|g: Group| g@)
    }
}

/// The cheaper of the best plan so far and a candidate: the candidate only
/// if it costs less.
pub open spec fn cheaper_of(best: Option<CostContext>, candidate: CostContext) -> CostContext {
    match best {
        Some(b) => if candidate.cost < b.cost {
            candidate
        } else {
            b
        },
        None => candidate,
    }
}

/// The plan that is kept when `candidates` are offered one after the other.
pub open spec fn cheapest(candidates: Seq<CostContext>) -> Option<CostContext>
    decreases candidates.len(),
{
    if candidates.len() == 0 {
        None
    } else {
        Some(cheaper_of(cheapest(candidates.drop_last()), candidates.last()))
    }
}

/// The plan that is kept costs no more than any plan that was offered, and
/// it is the first of the offered plans with that cost.
pub proof fn lemma_cheapest(candidates: Seq<CostContext>, j: int)
    requires
        0 <= j < candidates.len(),
    ensures
        cheapest(candidates) matches Some(best) && best.cost <= candidates[j].cost && exists|i: int|
            0 <= i < candidates.len() && candidates[i] == best && forall|k: int|
                0 <= k < i ==> (#[trigger] candidates[k]).cost > best.cost,
    decreases candidates.len(),
{
    let rest = candidates.drop_last();
    let last = candidates.last();
    let best = cheapest(candidates)->0;
    if rest.len() == 0 {
        assert(candidates[0] == best);
    } else {
        let k0 = if j < rest.len() {
            j
        } else {
            0
        };
        lemma_cheapest(rest, k0);
        let before = cheapest(rest)->0;
        let i = choose|i: int|
            0 <= i < rest.len() && rest[i] == before && forall|k: int|
                0 <= k < i ==> (#[trigger] rest[k]).cost > before.cost;
        if j < rest.len() {
            assert(rest[j] == candidates[j]);
        }
        if last.cost < before.cost {
            assert(candidates[candidates.len() - 1] == best);
            assert forall|k: int| 0 <= k < candidates.len() - 1 implies (
            #[trigger] candidates[k]).cost > best.cost by {
                lemma_cheapest(rest, k);
                assert(rest[k] == candidates[k]);
            }
        } else {
            assert(candidates[i] == best);
            assert forall|k: int| 0 <= k < i implies (#[trigger] candidates[k]).cost
                > best.cost by {
                assert(rest[k] == candidates[k]);
            }
        }
    }
}

/// The plan kept for `required` in a list of best plans: the first entry
/// for it.
pub open spec fn best_for(
    best_costs: Seq<(RequiredProperty, CostContext)>,
    required: RequiredProperty,
    from: int,
) -> Option<CostContext>
    decreases best_costs.len() - from,
{
    if from < 0 || from >= best_costs.len() {
        None
    } else if best_costs[from].0 == required {
        Some(best_costs[from].1)
    } else {
        best_for(best_costs, required, from + 1)
    }
}

/// An entry for `other` is not touched by a change at a place that holds an
/// entry for `required`, nor by an entry for `required` added at the end.
pub proof fn lemma_best_for_other(
    before: Seq<(RequiredProperty, CostContext)>,
    after: Seq<(RequiredProperty, CostContext)>,
    required: RequiredProperty,
    other: RequiredProperty,
    from: int,
)
    requires
        0 <= from,
        other != required,
        before.len() <= after.len() <= before.len() + 1,
        forall|i: int|
            0 <= i < before.len() ==> (#[trigger] after[i]) == before[i] || (before[i].0
                == required && after[i].0 == required),
        after.len() == before.len() + 1 ==> after.last().0 == required,
    ensures
        best_for(after, other, from) == best_for(before, other, from),
    decreases after.len() - from,
{
    if from < after.len() {
        lemma_best_for_other(before, after, required, other, from + 1);
    }
}

/// Whether a member is `plan` over `children`.
pub open spec fn is_member(m: MExprView, plan: RelOperator, children: Seq<IndexType>) -> bool {
    m.plan == plan && m.children == children
}

/// Whether a group has `plan` over `children` as a member.
pub open spec fn has_member(g: GroupView, plan: RelOperator, children: Seq<IndexType>) -> bool {
    exists|k: int| 0 <= k < g.m_exprs.len() && is_member(#[trigger] g.m_exprs[k], plan, children)
}

/// The first group at or after `from` that has `plan` over `children` as a
/// member, or the number of groups.
pub open spec fn first_group(
    groups: Seq<GroupView>,
    plan: RelOperator,
    children: Seq<IndexType>,
    from: int,
) -> int
    decreases groups.len() - from,
{
    if from < 0 || from >= groups.len() {
        groups.len() as int
    } else if has_member(groups[from], plan, children) {
        from
    } else {
        first_group(groups, plan, children, from + 1)
    }
}

/// The memo with `plan` over `children` interned, and its group: the group
/// that has it as a member, or a new group of its own.
pub open spec fn with_member(
    groups: Seq<GroupView>,
    plan: RelOperator,
    children: Seq<IndexType>,
) -> (Seq<GroupView>, int) {
    let found = first_group(groups, plan, children, 0);
    if found < groups.len() {
        (groups, found)
    } else {
        (
            groups.push(
                GroupView {
                    group_index: groups.len() as usize,
                    m_exprs: seq![
                        MExprView {
                            group_index: groups.len() as usize,
                            index: 0,
                            plan,
                            children,
                        },
                    ],
                    best_costs: Seq::empty(),
                },
            ),
            groups.len() as int,
        )
    }
}

/// The memo with `expr` interned, children first, and the group of `expr`.
pub open spec fn interned(groups: Seq<GroupView>, expr: SExpr) -> (Seq<GroupView>, int)
    decreases expr,
{
    match expr.children {
        Children::Leaf => with_member(groups, expr.plan, Seq::empty()),
        Children::Unary(only) => {
            let (below, child) = interned(groups, *only);
            with_member(below, expr.plan, seq![child as usize])
        },
        Children::Binary(left, right) => {
            let (first, l) = interned(groups, *left);
            let (second, r) = interned(first, *right);
            with_member(second, expr.plan, seq![l as usize, r as usize])
        },
    }
}

/// `after` holds every group of `before`, unchanged and in its place.
pub open spec fn extends(after: Seq<GroupView>, before: Seq<GroupView>) -> bool {
    before.len() <= after.len() && forall|i: int|
        0 <= i < before.len() ==> #[trigger] after[i] == before[i]
}

pub proof fn lemma_first_group(
    groups: Seq<GroupView>,
    plan: RelOperator,
    children: Seq<IndexType>,
    from: int,
)
    requires
        0 <= from <= groups.len(),
    ensures
        from <= first_group(groups, plan, children, from) <= groups.len(),
        first_group(groups, plan, children, from) < groups.len() ==> has_member(
            groups[first_group(groups, plan, children, from)],
            plan,
            children,
        ),
        forall|i: int|
            from <= i < first_group(groups, plan, children, from) ==> !has_member(
                #[trigger] groups[i],
                plan,
                children,
            ),
    decreases groups.len() - from,
{
    if from < groups.len() && !has_member(groups[from], plan, children) {
        lemma_first_group(groups, plan, children, from + 1);
    }
}

/// Interning removes nothing: every group that was there stays as it was,
/// and the group of the expression is in the memo.
pub proof fn lemma_interned_extends(groups: Seq<GroupView>, expr: SExpr)
    ensures
        extends(interned(groups, expr).0, groups),
        0 <= interned(groups, expr).1 < interned(groups, expr).0.len(),
        interned(groups, expr).0.len() <= groups.len() + size_of(expr),
    decreases expr,
{
    match expr.children {
        Children::Leaf => {
            lemma_with_member(groups, expr.plan, Seq::empty());
        },
        Children::Unary(only) => {
            lemma_interned_extends(groups, *only);
            let below = interned(groups, *only).0;
            let child = interned(groups, *only).1;
            lemma_with_member(below, expr.plan, seq![child as usize]);
        },
        Children::Binary(left, right) => {
            lemma_interned_extends(groups, *left);
            let first = interned(groups, *left).0;
            let l = interned(groups, *left).1;
            lemma_interned_extends(first, *right);
            let second = interned(first, *right).0;
            let r = interned(first, *right).1;
            lemma_with_member(second, expr.plan, seq![l as usize, r as usize]);
        },
    }
}

/// Interning a member adds at most one group, at the end.
pub proof fn lemma_with_member(groups: Seq<GroupView>, plan: RelOperator, children: Seq<IndexType>)
    ensures
        extends(with_member(groups, plan, children).0, groups),
        0 <= with_member(groups, plan, children).1 < with_member(groups, plan, children).0.len(),
        with_member(groups, plan, children).0.len() <= groups.len() + 1,
{
    lemma_first_group(groups, plan, children, 0);
}

/// Every input of every member is a group with a smaller index, and every
/// group has a member.
pub open spec fn bottom_up(groups: Seq<GroupView>) -> bool {
    &&& forall|g: int, k: int, c: int|
        #![trigger groups[g].m_exprs[k].children[c]]
        0 <= g < groups.len() && 0 <= k < groups[g].m_exprs.len() && 0 <= c
            < groups[g].m_exprs[k].children.len() ==> groups[g].m_exprs[k].children[c] < g
    &&& forall|g: int| 0 <= g < groups.len() ==> 0 < (#[trigger] groups[g]).m_exprs.len()
}

/// Interning a member over groups that are there keeps the memo bottom-up.
pub proof fn lemma_with_member_bottom_up(
    groups: Seq<GroupView>,
    plan: RelOperator,
    children: Seq<IndexType>,
)
    requires
        bottom_up(groups),
        forall|c: int| 0 <= c < children.len() ==> children[c] < groups.len(),
    ensures
        bottom_up(with_member(groups, plan, children).0),
{
    let after = with_member(groups, plan, children).0;
    lemma_first_group(groups, plan, children, 0);
    assert forall|g: int, k: int, c: int|
        #![trigger after[g].m_exprs[k].children[c]]
        0 <= g < after.len() && 0 <= k < after[g].m_exprs.len() && 0 <= c
            < after[g].m_exprs[k].children.len() implies after[g].m_exprs[k].children[c] < g by {
        if g < groups.len() {
            assert(after[g] == groups[g]);
            assert(groups[g].m_exprs[k].children[c] < g);
        }
    }
    assert forall|g: int| 0 <= g < after.len() implies 0 < (#[trigger] after[g]).m_exprs.len() by {
        if g < groups.len() {
            assert(after[g] == groups[g]);
        }
    }
}

/// An expression has at least one operator.
pub proof fn lemma_size_of(expr: SExpr)
    ensures
        size_of(expr) >= 1,
    decreases expr,
{
    match expr.children {
        Children::Leaf => {},
        Children::Unary(only) => lemma_size_of(*only),
        Children::Binary(left, right) => {
            lemma_size_of(*left);
            lemma_size_of(*right);
        },
    }
}

/// A memo that is filled by interning expressions is bottom-up: every input
/// of a member was interned before the member.
pub proof fn lemma_interned_bottom_up(groups: Seq<GroupView>, expr: SExpr)
    requires
        bottom_up(groups),
        groups.len() + size_of(expr) <= usize::MAX,
    ensures
        bottom_up(interned(groups, expr).0),
    decreases expr,
{
    lemma_interned_extends(groups, expr);
    match expr.children {
        Children::Leaf => {
            lemma_with_member_bottom_up(groups, expr.plan, Seq::empty());
        },
        Children::Unary(only) => {
            lemma_interned_extends(groups, *only);
            lemma_interned_bottom_up(groups, *only);
            let below = interned(groups, *only).0;
            let child = interned(groups, *only).1;
            lemma_with_member_bottom_up(below, expr.plan, seq![child as usize]);
        },
        Children::Binary(left, right) => {
            lemma_size_of(*left);
            lemma_size_of(*right);
            lemma_interned_extends(groups, *left);
            lemma_interned_bottom_up(groups, *left);
            let first = interned(groups, *left).0;
            let l = interned(groups, *left).1;
            lemma_interned_extends(first, *right);
            lemma_interned_bottom_up(first, *right);
            let second = interned(first, *right).0;
            let r = interned(first, *right).1;
            lemma_with_member_bottom_up(second, expr.plan, seq![l as usize, r as usize]);
        },
    }
}

/// A group that was found is found again, in the same place, in every memo
/// that holds the groups of this one.
pub proof fn lemma_first_group_stable(
    groups: Seq<GroupView>,
    more: Seq<GroupView>,
    plan: RelOperator,
    children: Seq<IndexType>,
    from: int,
)
    requires
        extends(more, groups),
        0 <= from <= first_group(groups, plan, children, 0) < groups.len(),
        first_group(groups, plan, children, from) == first_group(groups, plan, children, 0),
    ensures
        first_group(more, plan, children, from) == first_group(groups, plan, children, 0),
    decreases groups.len() - from,
{
    lemma_first_group(groups, plan, children, from);
    assert(more[from] == groups[from]);
    if !has_member(groups[from], plan, children) {
        lemma_first_group(groups, plan, children, from + 1);
        lemma_first_group_stable(groups, more, plan, children, from + 1);
    }
}

/// A member that was interned is found in its group.
pub proof fn lemma_with_member_found(
    groups: Seq<GroupView>,
    plan: RelOperator,
    children: Seq<IndexType>,
)
    ensures
        first_group(with_member(groups, plan, children).0, plan, children, 0) == with_member(
            groups,
            plan,
            children,
        ).1,
{
    let found = first_group(groups, plan, children, 0);
    lemma_first_group(groups, plan, children, 0);
    if found >= groups.len() {
        let added = with_member(groups, plan, children).0;
        assert(is_member(added[groups.len() as int].m_exprs[0], plan, children));
        lemma_first_group_missing(groups, added, plan, children, 0);
    }
}

/// Where no group of a memo has a member, a memo with one more group that
/// has it finds it there.
pub proof fn lemma_first_group_missing(
    groups: Seq<GroupView>,
    added: Seq<GroupView>,
    plan: RelOperator,
    children: Seq<IndexType>,
    from: int,
)
    requires
        0 <= from <= groups.len(),
        added.len() == groups.len() + 1,
        extends(added, groups),
        has_member(added[groups.len() as int], plan, children),
        forall|i: int| from <= i < groups.len()
            ==> !has_member(#[trigger] groups[i], plan, children),
    ensures
        first_group(added, plan, children, from) == groups.len(),
    decreases groups.len() - from,
{
    if from < groups.len() {
        assert(added[from] == groups[from]);
        lemma_first_group_missing(groups, added, plan, children, from + 1);
    }
}

/// Interning a member into a memo that holds it already, in a memo that was
/// extended since, changes nothing and gives the group it is in.
pub proof fn lemma_with_member_stable(
    groups: Seq<GroupView>,
    more: Seq<GroupView>,
    plan: RelOperator,
    children: Seq<IndexType>,
)
    requires
        extends(more, with_member(groups, plan, children).0),
    ensures
        with_member(more, plan, children) == (more, with_member(groups, plan, children).1),
{
    let held = with_member(groups, plan, children).0;
    lemma_with_member(groups, plan, children);
    lemma_with_member_found(groups, plan, children);
    lemma_first_group_stable(held, more, plan, children, 0);
}

/// An expression is interned once: in a memo that holds what interning it
/// left behind, also among more groups, interning it again changes nothing
/// and gives the same group.
pub proof fn lemma_interned_stable(groups: Seq<GroupView>, more: Seq<GroupView>, expr: SExpr)
    requires
        extends(more, interned(groups, expr).0),
    ensures
        interned(more, expr) == (more, interned(groups, expr).1),
    decreases expr,
{
    match expr.children {
        Children::Leaf => {
            lemma_with_member_stable(groups, more, expr.plan, Seq::empty());
        },
        Children::Unary(only) => {
            let below = interned(groups, *only).0;
            let child = interned(groups, *only).1;
            lemma_with_member(below, expr.plan, seq![child as usize]);
            lemma_interned_stable(groups, more, *only);
            lemma_with_member_stable(below, more, expr.plan, seq![child as usize]);
        },
        Children::Binary(left, right) => {
            let first = interned(groups, *left).0;
            let l = interned(groups, *left).1;
            let second = interned(first, *right).0;
            let r = interned(first, *right).1;
            lemma_interned_extends(first, *right);
            lemma_with_member(second, expr.plan, seq![l as usize, r as usize]);
            lemma_interned_stable(groups, more, *left);
            lemma_interned_stable(first, more, *right);
            lemma_with_member_stable(second, more, expr.plan, seq![l as usize, r as usize]);
        },
    }
}

/// Interning an expression twice is interning it once.
pub proof fn lemma_interned_twice(groups: Seq<GroupView>, expr: SExpr)
    ensures
        interned(interned(groups, expr).0, expr) == interned(groups, expr),
{
    lemma_interned_stable(groups, interned(groups, expr).0, expr);
}

/// The number of operators in an expression.
pub open spec fn size_of(expr: SExpr) -> int
    decreases expr,
{
    1 + match expr.children {
        Children::Leaf => 0,
        Children::Unary(only) => size_of(*only),
        Children::Binary(left, right) => size_of(*left) + size_of(*right),
    }
}

impl Group {
    /// The cheapest plan found for `required`, if one was offered.
    pub fn best_cost(&self, required: RequiredProperty) -> (best: Option<CostContext>)
        ensures
            best == best_for(self.best_costs@, required, 0),
    {
        let mut i: usize = 0;
        while i < self.best_costs.len()
            invariant
                0 <= i <= self.best_costs@.len(),
                best_for(self.best_costs@, required, 0) == best_for(
                    self.best_costs@,
                    required,
                    i as int,
                ),
            decreases self.best_costs@.len() - i,
        {
            if self.best_costs[i].0 == required {
                return Some(self.best_costs[i].1);
            }
            i += 1;
        }
        None
    }

    /// Offers `candidate` as a plan for `required`: it is kept if no plan
    /// was kept for `required` before, or if it costs less than the one that
    /// was. What is kept for other demands stays.
    pub fn update_best(&mut self, required: RequiredProperty, candidate: CostContext)
        ensures
            final(self).group_index == old(self).group_index,
            final(self).m_exprs == old(self).m_exprs,
            best_for(final(self).best_costs@, required, 0) == Some(
                cheaper_of(best_for(old(self).best_costs@, required, 0), candidate),
            ),
            forall|other: RequiredProperty|
                other != required ==> #[trigger] best_for(final(self).best_costs@, other, 0)
                    == best_for(old(self).best_costs@, other, 0),
    {
        let ghost before = self.best_costs@;
        let mut i: usize = 0;
        while i < self.best_costs.len()
            invariant
                0 <= i <= self.best_costs@.len(),
                self.best_costs@ == before,
                *self == *old(self),
                best_for(before, required, 0) == best_for(before, required, i as int),
                forall|k: int| 0 <= k < i ==> (#[trigger] before[k]).0 != required,
            decreases self.best_costs@.len() - i,
        {
            if self.best_costs[i].0 == required {
                if candidate.cost < self.best_costs[i].1.cost {
                    self.best_costs.set(i, (required, candidate));
                }
                proof {
                    let after = self.best_costs@;
                    lemma_best_for_prefix(before, after, required, i as int, 0);
                    assert forall|other: RequiredProperty| other != required implies #[trigger] best_for(
                        after,
                        other,
                        0,
                    ) == best_for(before, other, 0) by {
                        lemma_best_for_other(before, after, required, other, 0);
                    }
                }
                return ;
            }
            i += 1;
        }
        self.best_costs.push((required, candidate));
        proof {
            let after = self.best_costs@;
            lemma_best_for_prefix(before, after, required, before.len() as int, 0);
            assert forall|other: RequiredProperty| other != required implies #[trigger] best_for(
                after,
                other,
                0,
            ) == best_for(before, other, 0) by {
                lemma_best_for_other(before, after, required, other, 0);
            }
        }
    }
}

/// Where two lists agree up to a place without an entry for `required`
/// before it, the search for `required` comes to that place in both.
pub proof fn lemma_best_for_prefix(
    before: Seq<(RequiredProperty, CostContext)>,
    after: Seq<(RequiredProperty, CostContext)>,
    required: RequiredProperty,
    place: int,
    from: int,
)
    requires
        0 <= from <= place <= before.len(),
        place < after.len(),
        forall|k: int| 0 <= k < place ==> (#[trigger] before[k]).0 != required,
        forall|k: int| 0 <= k < place ==> #[trigger] after[k] == before[k],
    ensures
        best_for(after, required, from) == best_for(after, required, place),
        best_for(before, required, from) == best_for(before, required, place),
    decreases place - from,
{
    if from < place {
        assert(after[from] == before[from]);
        lemma_best_for_prefix(before, after, required, place, from + 1);
    }
}

impl Memo {
    pub fn create() -> (memo: Self)
        ensures
            memo@.len() == 0,
            bottom_up(memo@),
    {
        Memo { groups: Vec::new() }
    }

    /// Group `index`; `Internal` if there is none.
    pub fn group(&self, index: IndexType) -> (r: Result<&Group, ErrorCode>)
        ensures
            index < self@.len() ==> (r matches Ok(g) && g@ == self@[index as int] && *g
                == self.groups@[index as int]),
            index >= self@.len() ==> (r matches Err(e) && e@ == failure(
                ErrorKind::Internal,
                "Group index not found"@,
            )),
    {
        if index < self.groups.len() {
            Ok(&self.groups[index])
        } else {
            Err(ErrorCode::Internal("Group index not found".to_string()))
        }
    }

    /// The first group that has `plan` over `children` as a member.
    fn find(&self, plan: RelOperator, children: &Vec<IndexType>) -> (found: usize)
        ensures
            found == first_group(self@, plan, children@, 0),
    {
        let mut g: usize = 0;
        while g < self.groups.len()
            invariant
                0 <= g <= self.groups@.len(),
                first_group(self@, plan, children@, 0) == first_group(
                    self@,
                    plan,
                    children@,
                    g as int,
                ),
            decreases self.groups@.len() - g,
        {
            let group = &self.groups[g];
            assert(self@[g as int] == group@);
            let mut k: usize = 0;
            while k < group.m_exprs.len()
                invariant
                    0 <= k <= group.m_exprs@.len(),
                    0 <= g < self.groups@.len(),
                    self@[g as int] == group@,
                    first_group(self@, plan, children@, 0) == first_group(
                        self@,
                        plan,
                        children@,
                        g as int,
                    ),
                    forall|i: int|
                        0 <= i < k ==> !is_member(#[trigger] group@.m_exprs[i], plan, children@),
                decreases group.m_exprs@.len() - k,
            {
                let member = &group.m_exprs[k];
                assert(group@.m_exprs[k as int] == member@);
                if member.plan == plan && same_indexes(&member.children, children) {
                    assert(is_member(group@.m_exprs[k as int], plan, children@));
                    assert(has_member(self@[g as int], plan, children@));
                    return g;
                }
                k += 1;
            }
            assert(!has_member(self@[g as int], plan, children@));
            g += 1;
        }
        g
    }

    /// Interns `plan` over `children`.
    fn insert_m_expr(&mut self, plan: RelOperator, children: Vec<IndexType>) -> (group: IndexType)
        requires
            old(self)@.len() < usize::MAX,
        ensures
            (final(self)@, group as int) == with_member(old(self)@, plan, children@),
    {
        let found = self.find(plan, &children);
        if found < self.groups.len() {
            return found;
        }
        let index = self.groups.len();
        let ghost before = self@;
        let ghost c = children@;
        let member = MExpr { group_index: index, index: 0, plan, children };
        let mut m_exprs: Vec<MExpr> = Vec::new();
        m_exprs.push(member);
        let group = Group { group_index: index, m_exprs, best_costs: Vec::new() };
        assert(group@.m_exprs =~= seq![
            MExprView { group_index: index, index: 0, plan, children: c },
        ]);
        assert(group@.best_costs =~= Seq::empty());
        self.groups.push(group);
        assert(self@ =~= before.push(group@));
        index
    }

    /// Interns `expr`, its children first, and says which group it is in. An
    /// expression that is a member of a group already is not added again.
    pub fn insert(&mut self, expr: &SExpr) -> (group: IndexType)
        requires
            old(self)@.len() + size_of(*expr) <= usize::MAX,
        ensures
            (final(self)@, group as int) == interned(old(self)@, *expr),
            extends(final(self)@, old(self)@),
            group < final(self)@.len(),
            bottom_up(old(self)@) ==> bottom_up(final(self)@),
        decreases expr,
    {
        proof {
            lemma_interned_extends(self@, *expr);
            if bottom_up(self@) {
                lemma_interned_bottom_up(self@, *expr);
            }
        }
        match &expr.children {
            Children::Leaf => {
                let children: Vec<IndexType> = Vec::new();
                self.insert_m_expr(expr.plan, children)
            },
            Children::Unary(only) => {
                proof {
                    lemma_interned_extends(self@, **only);
                }
                let child = self.insert(only);
                let mut children: Vec<IndexType> = Vec::new();
                children.push(child);
                assert(children@ =~= seq![child]);
                self.insert_m_expr(expr.plan, children)
            },
            Children::Binary(left, right) => {
                proof {
                    lemma_interned_extends(self@, **left);
                    lemma_interned_extends(interned(self@, **left).0, **right);
                }
                let l = self.insert(left);
                let r = self.insert(right);
                let mut children: Vec<IndexType> = Vec::new();
                children.push(l);
                children.push(r);
                assert(children@ =~= seq![l, r]);
                self.insert_m_expr(expr.plan, children)
            },
        }
    }
}

/// Whether two lists of indexes are the same.
fn same_indexes(a: &Vec<IndexType>, b: &Vec<IndexType>) -> (same: bool)
    ensures
        same == (a@ == b@),
{
    if a.len() != b.len() {
        return false;
    }
    let mut i: usize = 0;
    while i < a.len()
        invariant
            0 <= i <= a@.len(),
            a@.len() == b@.len(),
            forall|k: int| 0 <= k < i ==> a@[k] == b@[k],
        decreases a@.len() - i,
    {
        if a[i] != b[i] {
            return false;
        }
        i += 1;
    }
    assert(a@ =~= b@);
    true
}

} // verus!

//! The joins of an expression, taken apart for reordering and put together
//! again.
//!
//! The inner joins at the top of an expression form a tree. What they join,
//! the relations, are the expressions below them that are no inner joins.
//! Taken apart, the tree names each relation by its place among the
//! relations, from the left, and each join by its place among the joins, a
//! join coming after the joins below it. Reordering works on that tree; the
//! new tree is put together from the same relations and the same join
//! operators.

use crate::optimizer::hyper_dp::JoinTree;
use crate::optimizer::hyper_dp::JoinTreeView;
use crate::optimizer::s_expr::Children;
use crate::optimizer::s_expr::RelOperator;
use crate::optimizer::s_expr::SExpr;
use crate::pipelines::pipeline::JoinType;
use vstd::prelude::*;

verus! {

/// Whether `e` is an inner join of two expressions.
pub open spec fn is_inner_join(e: SExpr) -> bool {
    e.children is Binary && (e.plan matches RelOperator::Join { join_type, .. } && join_type
        == JoinType::Inner)
}

/// An expression taken apart: the tree of its joins, the relations that the
/// tree joins and the operators of its joins.
pub struct JoinParts {
    pub tree: JoinTree,
    pub relations: Vec<SExpr>,
    pub joins: Vec<RelOperator>,
}

/// The parts of an expression, as values.
pub struct JoinPartsView {
    pub tree: JoinTreeView,
    pub relations: Seq<SExpr>,
    pub joins: Seq<RelOperator>,
}

impl View for JoinParts {
    type V = JoinPartsView;

    open spec fn view(&self) -> JoinPartsView {
        JoinPartsView { tree: self.tree@, relations: self.relations@, joins: self.joins@ }
    }
}

/// `e` taken apart, after the relations and the joins that were found
/// before it: an inner join gives a join of what its sides give, under the
/// one condition that stands for its operator; any other expression is a
/// relation.
pub open spec fn taken_apart(
    e: SExpr,
    relations: Seq<SExpr>,
    joins: Seq<RelOperator>,
) -> JoinPartsView
    decreases e,
{
    match e.children {
        Children::Binary(left, right) => if is_inner_join(e) {
            let l = taken_apart(*left, relations, joins);
            let r = taken_apart(*right, l.relations, l.joins);
            JoinPartsView {
                tree: JoinTreeView::Join {
                    left: Box::new(l.tree),
                    right: Box::new(r.tree),
                    conditions: seq![r.joins.len() as usize],
                },
                relations: r.relations,
                joins: r.joins.push(e.plan),
            }
        } else {
            JoinPartsView {
                tree: JoinTreeView::Relation { index: relations.len() as usize },
                relations: relations.push(e),
                joins,
            }
        },
        _ => JoinPartsView {
            tree: JoinTreeView::Relation { index: relations.len() as usize },
            relations: relations.push(e),
            joins,
        },
    }
}

/// The expression that `tree` stands for, with `relations` for its leaves
/// and `joins` for its joins; nothing if the tree names a relation or a join
/// that is not there, or has a join that does not stand for one operator.
pub open spec fn assembled(
    tree: JoinTreeView,
    relations: Seq<SExpr>,
    joins: Seq<RelOperator>,
) -> Option<SExpr>
    decreases tree,
{
    match tree {
        JoinTreeView::Relation { index } => if index < relations.len() {
            Some(relations[index as int])
        } else {
            None
        },
        JoinTreeView::Join { left, right, conditions } => if conditions.len() == 1 && conditions[0]
            < joins.len() {
            match (assembled(*left, relations, joins), assembled(*right, relations, joins)) {
                (Some(l), Some(r)) => Some(
                    SExpr {
                        plan: joins[conditions[0] as int],
                        children: Children::Binary(Box::new(l), Box::new(r)),
                    },
                ),
                _ => None,
            }
        } else {
            None
        },
    }
}

/// Taking an expression apart adds to the relations and the joins that were
/// found before it, and what it adds is enough to put the expression
/// together again, whatever is found after it.
pub proof fn lemma_taken_apart(
    e: SExpr,
    relations: Seq<SExpr>,
    joins: Seq<RelOperator>,
    more_relations: Seq<SExpr>,
    more_joins: Seq<RelOperator>,
)
    requires
        taken_apart(e, relations, joins).relations.len() <= usize::MAX,
        taken_apart(e, relations, joins).joins.len() <= usize::MAX,
    ensures
        relations.is_prefix_of(taken_apart(e, relations, joins).relations),
        joins.is_prefix_of(taken_apart(e, relations, joins).joins),
        assembled(
            taken_apart(e, relations, joins).tree,
            taken_apart(e, relations, joins).relations + more_relations,
            taken_apart(e, relations, joins).joins + more_joins,
        ) == Some(e),
    decreases e,
{
    let parts = taken_apart(e, relations, joins);
    match e.children {
        Children::Binary(left, right) => {
            if is_inner_join(e) {
                let l = taken_apart(*left, relations, joins);
                let r = taken_apart(*right, l.relations, l.joins);
                // what the right side and this join add comes after the left side
                let after_l_relations = r.relations.skip(l.relations.len() as int) + more_relations;
                let after_l_joins = r.joins.skip(l.joins.len() as int).push(e.plan) + more_joins;
                lemma_taken_apart(*right, l.relations, l.joins, more_relations,
                    seq![e.plan] + more_joins);
                lemma_taken_apart(*left, relations, joins, after_l_relations, after_l_joins);
                assert(l.relations + after_l_relations =~= parts.relations + more_relations);
                assert(l.joins + after_l_joins =~= parts.joins + more_joins);
                assert(r.joins + (seq![e.plan] + more_joins) =~= parts.joins + more_joins);
                assert((parts.joins + more_joins)[r.joins.len() as int] == e.plan);
                assert(e == (SExpr { plan: e.plan, children: Children::Binary(left, right) }));
            } else {
                assert((parts.relations + more_relations)[relations.len() as int] == e);
            }
        },
        _ => {
            assert((parts.relations + more_relations)[relations.len() as int] == e);
        },
    }
}

/// An expression that is taken apart and put together again is the
/// expression that it was.
pub proof fn lemma_apart_and_together(e: SExpr)
    requires
        taken_apart(e, Seq::empty(), Seq::empty()).relations.len() <= usize::MAX,
        taken_apart(e, Seq::empty(), Seq::empty()).joins.len() <= usize::MAX,
    ensures
        assembled(
            taken_apart(e, Seq::empty(), Seq::empty()).tree,
            taken_apart(e, Seq::empty(), Seq::empty()).relations,
            taken_apart(e, Seq::empty(), Seq::empty()).joins,
        ) == Some(e),
{
    let parts = taken_apart(e, Seq::empty(), Seq::empty());
    lemma_taken_apart(e, Seq::empty(), Seq::empty(), Seq::empty(), Seq::empty());
    assert(parts.relations + Seq::<SExpr>::empty() =~= parts.relations);
    assert(parts.joins + Seq::<RelOperator>::empty() =~= parts.joins);
}

/// Takes `e` apart, adding its relations and joins to those found before.
fn take_apart(e: &SExpr, relations: &mut Vec<SExpr>, joins: &mut Vec<RelOperator>) -> (tree:
    JoinTree)
    ensures
        (JoinPartsView { tree: tree@, relations: final(relations)@, joins: final(joins)@ })
            == taken_apart(*e, old(relations)@, old(joins)@),
    decreases e,
{
    match &e.children {
        Children::Binary(left, right) => {
            let inner = match e.plan {
                RelOperator::Join { join_type, .. } => match join_type {
                    JoinType::Inner => true,
                    _ => false,
                },
                _ => false,
            };
            if inner {
                let l = take_apart(left, relations, joins);
                let r = take_apart(right, relations, joins);
                let mut conditions: Vec<usize> = Vec::new();
                conditions.push(joins.len());
                assert(conditions@ =~= seq![joins@.len() as usize]);
                joins.push(e.plan);
                return JoinTree::Join { left: Box::new(l), right: Box::new(r), conditions };
            }
        },
        _ => {},
    }
    let index = relations.len();
    relations.push(e.clone());
    JoinTree::Relation { index }
}

/// Takes the joins of `e` apart.
pub fn join_parts(e: &SExpr) -> (parts: JoinParts)
    ensures
        parts@ == taken_apart(*e, Seq::empty(), Seq::empty()),
{
    let mut relations: Vec<SExpr> = Vec::new();
    let mut joins: Vec<RelOperator> = Vec::new();
    assert(relations@ =~= Seq::empty());
    assert(joins@ =~= Seq::empty());
    let tree = take_apart(e, &mut relations, &mut joins);
    JoinParts { tree, relations, joins }
}

/// Puts the expression together that `tree` stands for.
pub fn assemble(tree: &JoinTree, relations: &Vec<SExpr>, joins: &Vec<RelOperator>) -> (e: Option<
    SExpr,
>)
    ensures
        e == assembled(tree@, relations@, joins@),
    decreases tree,
{
    match tree {
        JoinTree::Relation { index } => if *index < relations.len() {
            Some(relations[*index].clone())
        } else {
            None
        },
        JoinTree::Join { left, right, conditions } => {
            if conditions.len() != 1 {
                return None;
            }
            let place = conditions[0];
            if place >= joins.len() {
                return None;
            }
            let l = assemble(left, relations, joins)?;
            let r = assemble(right, relations, joins)?;
            Some(SExpr::create_binary(joins[place], l, r))
        },
    }
}

} // verus!

use std::collections::BTreeMap;
use std::collections::BTreeSet;

use fusequery::optimizer::hyper_dp::check_same_tree;
use fusequery::optimizer::hyper_dp::DPhpy;
use fusequery::optimizer::hyper_dp::JoinCondition;
use fusequery::optimizer::hyper_dp::JoinTree;
use fusequery::optimizer::join_parts::assemble;
use fusequery::optimizer::join_parts::join_parts;
use fusequery::optimizer::optimizer::StageReply;
use fusequery::optimizer::s_expr::RelOperator;
use fusequery::optimizer::s_expr::SExpr;
use fusequery::optimizer::stages::join_reorder_stage;
use fusequery::pipelines::pipeline::JoinType;

fn rel(index: usize) -> JoinTree {
    JoinTree::Relation { index }
}

fn join(left: JoinTree, right: JoinTree, conditions: &[usize]) -> JoinTree {
    JoinTree::Join { left: Box::new(left), right: Box::new(right), conditions: conditions.to_vec() }
}

fn cond(relations: &[usize]) -> JoinCondition {
    JoinCondition { relations: relations.to_vec() }
}

/// Three relations in a chain: 0 - 1 - 2.
fn chain() -> DPhpy {
    DPhpy::new(vec![1000, 10, 100], vec![cond(&[0, 1]), cond(&[1, 2])], 8)
}

fn chain_tree() -> JoinTree {
    join(join(rel(0), rel(1), &[0]), rel(2), &[1])
}

type Row = BTreeMap<usize, usize>;

/// The rows of a tree over `data`, where condition `p` asks that the tuples of the
/// relations it mentions are equal: each row says which tuple of each relation it is made of.
fn rows(tree: &JoinTree, data: &[Vec<i64>], conditions: &[JoinCondition]) -> BTreeSet<Row> {
    match tree {
        JoinTree::Relation { index } => {
            (0..data[*index].len()).map(|i| Row::from([(*index, i)])).collect()
        }
        JoinTree::Join { left, right, conditions: here } => {
            let l = rows(left, data, conditions);
            let r = rows(right, data, conditions);
            let mut out = BTreeSet::new();
            for a in &l {
                for b in &r {
                    let mut row = a.clone();
                    row.extend(b.iter().map(|(k, v)| (*k, *v)));
                    let holds = here.iter().all(|p| {
                        let values: BTreeSet<i64> =
                            conditions[*p].relations.iter().map(|r| data[*r][row[r]]).collect();
                        values.len() <= 1
                    });
                    if holds {
                        out.insert(row);
                    }
                }
            }
            out
        }
    }
}

#[test]
fn the_small_relations_are_joined_first() {
    let (tree, optimized) = chain().optimize(chain_tree());
    assert!(optimized);
    // joining 1 and 2 first gives 100 rows where joining 0 and 1 first gives 1000
    assert_eq!(tree, join(join(rel(2), rel(1), &[1]), rel(0), &[0]));
}

#[test]
fn the_reordered_tree_is_a_proper_tree_over_the_same_joins() {
    let dp = chain();
    let (tree, optimized) = dp.optimize(chain_tree());
    assert!(optimized);
    let before = dp.check(&chain_tree()).unwrap();
    let after = dp.check(&tree).unwrap();
    assert_eq!(before.relations, vec![true, true, true]);
    assert_eq!(after.relations, before.relations);
    assert_eq!(after.conditions, before.conditions);
    assert!(!check_same_tree(&tree, &chain_tree()));
}

#[test]
fn reordering_keeps_the_rows() {
    let dp = chain();
    let data = vec![vec![1, 2, 2, 3, 5], vec![2, 3, 3, 4], vec![3, 3, 4, 9]];
    let original = chain_tree();
    let before = rows(&original, &data, &dp.conditions);
    // 2 = 2 = none; 3 = 3 = 3: one tuple of relation 0, two of relation 1, two of relation 2
    assert_eq!(before.len(), 4);
    let (tree, optimized) = dp.optimize(original);
    assert!(optimized);
    assert_eq!(rows(&tree, &data, &dp.conditions), before);
}

#[test]
fn a_star_of_four() {
    // 1, 2 and 3 each join with 0; 2 is tiny
    let dp = DPhpy::new(
        vec![50, 400, 2, 9000],
        vec![cond(&[0, 1]), cond(&[0, 2]), cond(&[0, 3])],
        8,
    );
    let original = join(join(join(rel(3), rel(0), &[2]), rel(1), &[0]), rel(2), &[1]);
    let data = vec![vec![1, 2, 3], vec![1, 1, 3], vec![3, 3, 1], vec![1, 3, 3, 7]];
    let before = rows(&original, &data, &dp.conditions);
    let (tree, optimized) = dp.optimize(original);
    assert!(optimized);
    assert_eq!(rows(&tree, &data, &dp.conditions), before);
    // the tiny relation meets the centre first
    assert_eq!(
        tree,
        join(rel(3), join(join(rel(2), rel(0), &[1]), rel(1), &[0]), &[2])
    );
}

#[test]
fn a_condition_on_one_relation_stays_at_the_lowest_join() {
    // condition 2 mentions relation 2 only
    let dp = DPhpy::new(
        vec![1000, 10, 100],
        vec![cond(&[0, 1]), cond(&[1, 2]), cond(&[2])],
        8,
    );
    let original = join(join(rel(0), rel(1), &[0]), rel(2), &[1, 2]);
    let (tree, optimized) = dp.optimize(original);
    assert!(optimized);
    assert_eq!(tree, join(join(rel(2), rel(1), &[1, 2]), rel(0), &[0]));
}

#[test]
fn without_a_condition_between_them_relations_are_not_joined() {
    let dp = DPhpy::new(vec![1000, 10, 100], vec![cond(&[0, 1])], 8);
    let cross = join(join(rel(0), rel(1), &[0]), rel(2), &[]);
    let (tree, optimized) = dp.optimize(join(join(rel(0), rel(1), &[0]), rel(2), &[]));
    assert!(!optimized);
    assert_eq!(tree, cross);
}

#[test]
fn a_tree_that_is_no_proper_join_tree_is_left_alone() {
    let dp = chain();
    let twice = join(join(rel(0), rel(1), &[0]), rel(1), &[1]);
    assert!(dp.check(&twice).is_none());
    assert_eq!(dp.optimize(join(join(rel(0), rel(1), &[0]), rel(1), &[1])), (twice, false));
    // a condition applied before the relations it mentions are joined
    let early = join(join(rel(0), rel(1), &[1]), rel(2), &[0]);
    assert!(dp.check(&early).is_none());
    assert!(!dp.optimize(early).1);
    // a relation or a condition that the statement does not have
    assert!(dp.check(&rel(3)).is_none());
    assert!(dp.check(&join(rel(0), rel(1), &[5])).is_none());
    assert!(!dp.optimize(join(rel(0), rel(1), &[5])).1);
}

#[test]
fn too_many_relations_are_not_enumerated() {
    let dp = DPhpy::new(vec![1000, 10, 100], vec![cond(&[0, 1]), cond(&[1, 2])], 2);
    assert_eq!(dp.optimize(chain_tree()), (chain_tree(), false));
    let many: Vec<u64> = (0..17).collect();
    let dp = DPhpy::new(many, vec![cond(&[0, 1])], 32);
    assert!(!dp.optimize(join(rel(0), rel(1), &[0])).1);
}

#[test]
fn a_tree_that_is_the_cheapest_already_stays() {
    let dp = chain();
    let best = join(join(rel(2), rel(1), &[1]), rel(0), &[0]);
    assert_eq!(dp.optimize(join(join(rel(2), rel(1), &[1]), rel(0), &[0])), (best, false));
    assert_eq!(dp.optimize(rel(1)), (rel(1), false));
}

#[test]
fn a_part_of_the_relations_can_be_reordered() {
    // the statement has three relations, the tree joins two of them
    let dp = chain();
    let (tree, optimized) = dp.optimize(join(rel(1), rel(2), &[1]));
    assert!(optimized);
    assert_eq!(tree, join(rel(2), rel(1), &[1]));
}

fn scan(table_index: usize) -> SExpr {
    SExpr::create_leaf(RelOperator::Scan { table_index, handle: 0 })
}

fn inner(handle: u64, left: SExpr, right: SExpr) -> SExpr {
    SExpr::create_binary(RelOperator::Join { join_type: JoinType::Inner, handle }, left, right)
}

fn filter(handle: u64, child: SExpr) -> SExpr {
    SExpr::create_unary(RelOperator::Filter { handle }, child)
}

#[test]
fn the_joins_of_an_expression_are_taken_apart() {
    // (t0 join[a] filter(t1)) join[b] t2
    let e = inner(11, inner(10, scan(0), filter(5, scan(1))), scan(2));
    let parts = join_parts(&e);
    assert_eq!(parts.tree, chain_tree());
    assert_eq!(parts.relations, vec![scan(0), filter(5, scan(1)), scan(2)]);
    assert_eq!(
        parts.joins,
        vec![
            RelOperator::Join { join_type: JoinType::Inner, handle: 10 },
            RelOperator::Join { join_type: JoinType::Inner, handle: 11 }
        ]
    );
    // put together again it is the expression that it was
    assert_eq!(assemble(&parts.tree, &parts.relations, &parts.joins), Some(e));
    // a join that is no inner join is a relation, and so is what is below a filter
    let left = SExpr::create_binary(
        RelOperator::Join { join_type: JoinType::Left, handle: 3 },
        scan(0),
        scan(1),
    );
    let parts = join_parts(&left);
    assert_eq!(parts.tree, rel(0));
    assert_eq!(parts.relations, vec![left]);
    assert!(parts.joins.is_empty());
    let below = filter(1, inner(2, scan(0), scan(1)));
    assert_eq!(join_parts(&below).relations, vec![below]);
    // a join on the right comes before the join above it
    let bushy = inner(7, scan(0), inner(8, scan(1), scan(2)));
    let parts = join_parts(&bushy);
    assert_eq!(parts.tree, join(rel(0), join(rel(1), rel(2), &[0]), &[1]));
    assert_eq!(parts.joins[0], RelOperator::Join { join_type: JoinType::Inner, handle: 8 });
}

#[test]
fn a_tree_that_names_what_is_not_there_is_not_put_together() {
    let relations = vec![scan(0), scan(1)];
    let joins = vec![RelOperator::Join { join_type: JoinType::Inner, handle: 10 }];
    assert_eq!(assemble(&rel(2), &relations, &joins), None);
    assert_eq!(assemble(&join(rel(0), rel(1), &[1]), &relations, &joins), None);
    assert_eq!(assemble(&join(rel(0), rel(1), &[]), &relations, &joins), None);
    assert_eq!(assemble(&join(rel(0), rel(1), &[0, 0]), &relations, &joins), None);
    assert_eq!(assemble(&join(rel(0), rel(5), &[0]), &relations, &joins), None);
    assert_eq!(
        assemble(&join(rel(1), rel(0), &[0]), &relations, &joins),
        Some(inner(10, scan(1), scan(0)))
    );
}

#[test]
fn the_stage_reorders_the_joins_of_an_expression() {
    // relation 0 is big: t1 and t2 are joined first, under the operator of their join
    let e = inner(11, inner(10, scan(0), filter(5, scan(1))), scan(2));
    match join_reorder_stage(&chain(), &e) {
        StageReply::Reordered { s_expr, optimized } => {
            assert!(optimized);
            assert_eq!(s_expr, inner(10, inner(11, scan(2), filter(5, scan(1))), scan(0)));
        }
        _ => panic!("not a reordering"),
    }
    // nothing to reorder: the expression stays
    let single = filter(1, scan(0));
    match join_reorder_stage(&chain(), &single) {
        StageReply::Reordered { s_expr, optimized } => {
            assert!(!optimized);
            assert_eq!(s_expr, single);
        }
        _ => panic!("not a reordering"),
    }
    // a graph that does not fit the expression: the expression stays
    let two = inner(10, scan(0), scan(1));
    let unfit = DPhpy::new(vec![10], vec![], 8);
    match join_reorder_stage(&unfit, &two) {
        StageReply::Reordered { s_expr, optimized } => {
            assert!(!optimized);
            assert_eq!(s_expr, two);
        }
        _ => panic!("not a reordering"),
    }
}

use std::collections::HashMap;

use fusequery::exception::ErrorCode;
use fusequery::exception::ErrorKind;
use fusequery::optimizer::memo::CostContext;
use fusequery::optimizer::memo::Distribution;
use fusequery::optimizer::memo::Memo;
use fusequery::optimizer::memo::RequiredProperty;
use fusequery::optimizer::optimizer::get_optimized_memo;
use fusequery::optimizer::optimizer::optimize;
use fusequery::optimizer::optimizer::optimize_query;
use fusequery::optimizer::optimizer::rebuild;
use fusequery::optimizer::optimizer::Job;
use fusequery::optimizer::optimizer::MergeIntoOptimization;
use fusequery::optimizer::optimizer::MergeSourceOptimizer;
use fusequery::optimizer::optimizer::MergeStep;
use fusequery::optimizer::optimizer::Optimization;
use fusequery::optimizer::optimizer::OptimizerConfig;
use fusequery::optimizer::optimizer::OptimizerContext;
use fusequery::optimizer::optimizer::Outcome;
use fusequery::optimizer::optimizer::QueryOptimization;
use fusequery::optimizer::optimizer::QueryStep;
use fusequery::optimizer::optimizer::RuleList;
use fusequery::optimizer::optimizer::Stage;
use fusequery::optimizer::optimizer::StageReply;
use fusequery::optimizer::plans::BindContext;
use fusequery::optimizer::plans::CopyIntoLocationPlan;
use fusequery::optimizer::plans::CopyIntoTablePlan;
use fusequery::optimizer::plans::ExplainKind;
use fusequery::optimizer::plans::MergeInto;
use fusequery::optimizer::plans::Plan;
use fusequery::optimizer::plans::RewriteKind;
use fusequery::optimizer::s_expr::contains_local_table_scan;
use fusequery::optimizer::s_expr::Children;
use fusequery::optimizer::s_expr::Metadata;
use fusequery::optimizer::s_expr::RelOp;
use fusequery::optimizer::s_expr::RelOperator;
use fusequery::optimizer::s_expr::SExpr;
use fusequery::optimizer::s_expr::TableEntry;
use fusequery::pipelines::pipeline::JoinType;
use fusequery::sessions::Settings;

fn settings() -> Settings {
    Settings {
        max_threads: 4,
        max_block_size: 65536,
        enable_dphyp: true,
        disable_join_reorder: false,
        runtime_filter: false,
        enable_distributed_copy: true,
        enable_distributed_merge_into: true,
        efficiently_memory_group_by: false,
        spilling_bytes_threshold_per_proc: 0,
    }
}

fn opt_ctx(distributed: bool) -> OptimizerContext {
    OptimizerContext::new(OptimizerConfig { enable_distributed_optimization: distributed })
}

fn metadata() -> Metadata {
    Metadata { tables: vec![TableEntry { is_local: false }, TableEntry { is_local: true }] }
}

fn scan(table_index: usize) -> SExpr {
    SExpr::create_leaf(RelOperator::Scan { table_index, handle: table_index as u64 })
}

fn filter(handle: u64, child: SExpr) -> SExpr {
    SExpr::create_unary(RelOperator::Filter { handle }, child)
}

fn exchange(child: SExpr) -> SExpr {
    SExpr::create_unary(RelOperator::Exchange { handle: 0 }, child)
}

fn join(left: SExpr, right: SExpr) -> SExpr {
    SExpr::create_binary(RelOperator::Join { join_type: JoinType::Inner, handle: 1 }, left, right)
}

fn expr(e: SExpr) -> Result<StageReply, ErrorCode> {
    Ok(StageReply::Expr(e))
}

/// Drives a query run; each stage wraps its input into a filter numbered by the order
/// of the stages, join reordering says `optimized`.
fn drive(run: &mut QueryOptimization, optimized: bool) -> Vec<Stage> {
    let mut stages = Vec::new();
    while let Some(stage) = run.pending() {
        stages.push(stage);
        let out = filter(stages.len() as u64, run.s_expr.clone());
        match stage {
            Stage::JoinReorder => run.supply(Ok(StageReply::Reordered { s_expr: out, optimized })),
            _ => run.supply(expr(out)),
        }
    }
    stages
}

fn wrapped(n: u64, inner: SExpr) -> SExpr {
    (1..=n).fold(inner, |e, i| filter(i, e))
}

#[test]
fn optimizer_context_keeps_its_config() {
    let ctx = OptimizerContext::new(OptimizerConfig { enable_distributed_optimization: true });
    assert!(ctx.config.enable_distributed_optimization);
    assert!(!OptimizerConfig::default().enable_distributed_optimization);
}

#[test]
fn a_query_goes_through_all_stages() {
    let mut run = optimize_query(&settings(), &opt_ctx(true), &metadata(), scan(0));
    assert_eq!(run.step, QueryStep::PreOptimize);
    assert!(run.flags.join_reorder);
    assert!(run.flags.enable_distributed_query);
    let stages = drive(&mut run, true);
    assert_eq!(
        stages,
        vec![
            Stage::PreOptimize,
            Stage::Rewrite(RuleList::DefaultRewrite),
            Stage::JoinReorder,
            Stage::Cascades { join_reordered: true },
            Stage::Distribute,
            Stage::Rewrite(RuleList::Residual),
        ]
    );
    assert_eq!(run.finish().unwrap(), wrapped(6, scan(0)));
}

#[test]
fn a_join_order_left_alone_is_dropped() {
    let mut run = optimize_query(&settings(), &opt_ctx(false), &metadata(), scan(0));
    let stages = drive(&mut run, false);
    assert_eq!(
        stages,
        vec![
            Stage::PreOptimize,
            Stage::Rewrite(RuleList::DefaultRewrite),
            Stage::JoinReorder,
            Stage::Cascades { join_reordered: false },
            Stage::Rewrite(RuleList::Residual),
        ]
    );
    // what join reordering gave (filter 3) is not in the result
    let expected = filter(5, filter(4, wrapped(2, scan(0))));
    assert_eq!(run.finish().unwrap(), expected);
}

#[test]
fn join_reordering_can_be_switched_off() {
    let mut s = settings();
    s.enable_dphyp = false;
    let mut run = optimize_query(&s, &opt_ctx(false), &metadata(), scan(0));
    assert_eq!(
        drive(&mut run, true),
        vec![
            Stage::PreOptimize,
            Stage::Rewrite(RuleList::DefaultRewrite),
            Stage::Cascades { join_reordered: false },
            Stage::Rewrite(RuleList::Residual),
        ]
    );
    let mut s = settings();
    s.disable_join_reorder = true;
    let mut run = optimize_query(&s, &opt_ctx(false), &metadata(), scan(0));
    assert_eq!(
        drive(&mut run, true),
        vec![
            Stage::PreOptimize,
            Stage::Rewrite(RuleList::DefaultRewrite),
            Stage::Cascades { join_reordered: false },
            Stage::Rewrite(RuleList::EliminateEvalScalar),
        ]
    );
}

#[test]
fn a_local_table_keeps_the_query_on_this_node() {
    let local = join(scan(0), filter(9, scan(1)));
    assert!(contains_local_table_scan(&local, &metadata()));
    assert!(!contains_local_table_scan(&join(scan(0), scan(0)), &metadata()));
    let mut run = optimize_query(&settings(), &opt_ctx(true), &metadata(), local);
    assert!(!run.flags.enable_distributed_query);
    assert!(!drive(&mut run, true).contains(&Stage::Distribute));
}

#[test]
fn a_failing_stage_ends_the_run() {
    let mut run = optimize_query(&settings(), &opt_ctx(true), &metadata(), scan(0));
    run.supply(expr(scan(0)));
    run.supply(Err(ErrorCode::Internal("rule failed".to_string())));
    assert_eq!(run.pending(), None);
    let e = run.finish().unwrap_err();
    assert_eq!(e.kind(), ErrorKind::Internal);
    assert_eq!(e.message(), "rule failed");
}

fn query(s_expr: SExpr) -> Plan {
    Plan::Query {
        s_expr: Box::new(s_expr),
        metadata: metadata(),
        bind_context: BindContext { handle: 3 },
        rewrite_kind: Some(RewriteKind::ShowTables),
        formatted_ast: Some("select".to_string()),
        ignore_result: false,
    }
}

fn explain(kind: ExplainKind, plan: Plan) -> Plan {
    Plan::Explain { kind, plan: Box::new(plan) }
}

fn run_to_end(run: &mut Optimization) -> Vec<Stage> {
    let mut stages = Vec::new();
    while let Some(stage) = run.pending() {
        stages.push(stage);
        let reply = match stage {
            Stage::DisplayMemo => Ok(StageReply::Text("memo".to_string())),
            Stage::JoinReorder => {
                Ok(StageReply::Reordered { s_expr: run.input().unwrap().clone(), optimized: false })
            }
            Stage::Cascades { .. } if matches!(run.job, Job::Memo(_)) => {
                Ok(StageReply::Memo { memo: Memo::create(), best_cost_map: HashMap::new() })
            }
            _ => expr(filter(stages.len() as u64, run.input().unwrap().clone())),
        };
        run.supply(reply);
    }
    stages
}

fn s_expr_of(plan: &Plan) -> &SExpr {
    match plan {
        Plan::Query { s_expr, .. } => s_expr,
        Plan::Explain { plan, .. } => s_expr_of(plan),
        Plan::ExplainAnalyze { plan } => s_expr_of(plan),
        Plan::CopyIntoLocation(c) => s_expr_of(&c.from),
        _ => panic!("no expression"),
    }
}

#[test]
fn a_query_statement_is_optimized_in_place() {
    let mut run = optimize(&settings(), &opt_ctx(false), query(scan(0)));
    assert_eq!(run_to_end(&mut run).len(), 5);
    match run.finish().unwrap() {
        Plan::Query {
            s_expr,
            bind_context,
            rewrite_kind,
            formatted_ast,
            ignore_result,
            metadata,
        } => {
            assert_eq!(*s_expr, filter(5, filter(4, wrapped(2, scan(0)))));
            assert_eq!(bind_context, BindContext { handle: 3 });
            assert_eq!(rewrite_kind, Some(RewriteKind::ShowTables));
            assert_eq!(formatted_ast, Some("select".to_string()));
            assert!(!ignore_result);
            assert_eq!(metadata.tables.len(), 2);
        }
        _ => panic!("not a query"),
    }
}

#[test]
fn wrappers_are_looked_into() {
    let plan = Plan::ExplainAnalyze {
        plan: Box::new(explain(
            ExplainKind::Pipeline,
            Plan::CopyIntoLocation(CopyIntoLocationPlan {
                stage: "s".to_string(),
                path: "p".to_string(),
                from: Box::new(query(scan(0))),
            }),
        )),
    };
    let mut run = optimize(&settings(), &opt_ctx(false), plan);
    assert!(matches!(run.job, Job::Query(_)));
    run_to_end(&mut run);
    let out = run.finish().unwrap();
    assert!(matches!(&out, Plan::ExplainAnalyze { plan } if matches!(**plan, Plan::Explain { kind: ExplainKind::Pipeline, .. })));
    assert_eq!(*s_expr_of(&out), filter(5, filter(4, wrapped(2, scan(0)))));
}

#[test]
fn explain_of_the_text_runs_nothing() {
    for kind in [ExplainKind::Raw, ExplainKind::Ast("a".to_string()), ExplainKind::Syntax("s".to_string())] {
        let run = optimize(&settings(), &opt_ctx(true), explain(kind, query(scan(0))));
        assert!(matches!(run.job, Job::Ready));
        assert_eq!(run.pending(), None);
        let out = run.finish().unwrap();
        assert_eq!(*s_expr_of(&out), scan(0));
    }
}

#[test]
fn explain_memo_fills_and_prints_the_memo() {
    let mut run = optimize(&settings(), &opt_ctx(true), explain(ExplainKind::Memo(String::new()), query(scan(0))));
    let stages = run_to_end(&mut run);
    assert_eq!(
        stages,
        vec![
            Stage::Heuristic(RuleList::DefaultRewrite),
            Stage::Cascades { join_reordered: false },
            Stage::DisplayMemo
        ]
    );
    match run.finish().unwrap() {
        Plan::Explain { kind: ExplainKind::Memo(text), plan } => {
            assert_eq!(text, "memo");
            // the statement itself stays as it was
            assert_eq!(*s_expr_of(&plan), scan(0));
        }
        _ => panic!("not an explain"),
    }
}

#[test]
fn explain_memo_of_a_non_query_is_refused() {
    let plan = explain(ExplainKind::Memo(String::new()), Plan::Other { statement: "show tables".to_string() });
    let run = optimize(&settings(), &opt_ctx(true), plan);
    assert_eq!(run.pending(), None);
    let e = run.finish().unwrap_err();
    assert_eq!(e.kind(), ErrorKind::BadArguments);
    assert_eq!(e.message(), "Cannot use EXPLAIN MEMO with a non-query statement");
    // also below another explain
    let nested = explain(
        ExplainKind::Plan,
        explain(ExplainKind::Memo(String::new()), Plan::ExplainAnalyze { plan: Box::new(query(scan(0))) }),
    );
    let run = optimize(&settings(), &opt_ctx(true), nested);
    assert_eq!(run.finish().unwrap_err().kind(), ErrorKind::BadArguments);
}

#[test]
fn a_failed_memo_fails_the_statement() {
    let mut run = optimize(&settings(), &opt_ctx(true), explain(ExplainKind::Memo(String::new()), query(scan(0))));
    run.supply(expr(scan(0)));
    run.supply(Err(ErrorCode::Internal("search failed".to_string())));
    assert_eq!(run.pending(), None);
    assert_eq!(run.finish().unwrap_err().message(), "search failed");
}

fn copy_into_table(no_file_to_copy: bool) -> Plan {
    Plan::CopyIntoTable(Box::new(CopyIntoTablePlan {
        no_file_to_copy,
        enable_distributed: false,
        table_name: "t".to_string(),
    }))
}

fn copy_is_distributed(plan: &Plan) -> bool {
    match plan {
        Plan::CopyIntoTable(c) => c.enable_distributed,
        Plan::Explain { plan, .. } => copy_is_distributed(plan),
        _ => panic!("not a copy"),
    }
}

#[test]
fn copy_into_table_is_told_whether_to_distribute() {
    let out = optimize(&settings(), &opt_ctx(true), copy_into_table(false)).finish().unwrap();
    assert!(copy_is_distributed(&out));
    let out = optimize(&settings(), &opt_ctx(false), copy_into_table(false)).finish().unwrap();
    assert!(!copy_is_distributed(&out));
    let mut s = settings();
    s.enable_distributed_copy = false;
    let out = optimize(&s, &opt_ctx(true), copy_into_table(false)).finish().unwrap();
    assert!(!copy_is_distributed(&out));
    // nothing to copy: left alone
    let out = optimize(&settings(), &opt_ctx(true), copy_into_table(true)).finish().unwrap();
    assert!(!copy_is_distributed(&out));
    let out = optimize(&settings(), &opt_ctx(true), explain(ExplainKind::Plan, copy_into_table(false)))
        .finish()
        .unwrap();
    assert!(copy_is_distributed(&out));
}

#[test]
fn other_statements_pass_through() {
    let run = optimize(&settings(), &opt_ctx(true), Plan::Other { statement: "show tables".to_string() });
    assert_eq!(run.pending(), None);
    match run.finish().unwrap() {
        Plan::Other { statement } => assert_eq!(statement, "show tables"),
        _ => panic!("changed"),
    }
}

fn merge_into(input: SExpr) -> MergeInto {
    MergeInto {
        input: Box::new(input),
        meta_data: metadata(),
        distributed: false,
        change_join_order: false,
        target_table_index: 0,
    }
}

/// Drives the source of a MERGE INTO to its end; every stage hands its input on, the last
/// one gives `result`.
fn source_done(run: &mut MergeIntoOptimization, result: SExpr) {
    while run.step == MergeStep::Source {
        let stage = run.pending().unwrap();
        let last = matches!(stage, Stage::Rewrite(RuleList::Residual));
        let out = if last { result.clone() } else { run.input().clone() };
        match stage {
            Stage::JoinReorder => run.supply(Ok(StageReply::Reordered { s_expr: out, optimized: false })),
            _ => run.supply(expr(out)),
        }
    }
}

#[test]
fn merge_into_on_one_node() {
    let target = scan(0);
    let source = filter(7, scan(0));
    let mut run = MergeIntoOptimization::start(&settings(), &opt_ctx(false), &merge_into(join(target.clone(), source.clone())));
    assert_eq!(run.step, MergeStep::Source);
    assert_eq!(*run.input(), source);
    // the exchange on top of the optimized source is taken off, whether
    // the statement runs distributed or not; what is below it stays
    source_done(&mut run, exchange(exchange(source.clone())));
    assert_eq!(run.pending(), Some(Stage::CommuteJoin));
    assert_eq!(*run.input(), join(target.clone(), exchange(source.clone())));
    // the rule swaps the sides
    let swapped = join(exchange(source.clone()), target.clone());
    run.supply(expr(swapped.clone()));
    assert_eq!(run.pending(), None);
    assert!(!run.change_join_order);
    match run.finish().unwrap() {
        Outcome::MergeInto { input, distributed, change_join_order } => {
            assert_eq!(input, swapped);
            assert_eq!(distributed, None);
            assert!(!change_join_order);
        }
        _ => panic!("not a merge"),
    }
}

#[test]
fn change_join_order_says_that_the_left_side_stayed() {
    let mut run = MergeIntoOptimization::start(&settings(), &opt_ctx(false), &merge_into(join(scan(0), scan(1))));
    source_done(&mut run, scan(1));
    run.supply(expr(join(scan(0), filter(1, scan(1)))));
    assert!(run.change_join_order);
}

#[test]
fn distributed_merge_into_rewrites_its_source() {
    let target = scan(0);
    let source = scan(0);
    let mut run = MergeIntoOptimization::start(&settings(), &opt_ctx(true), &merge_into(join(target.clone(), source.clone())));
    // the exchange on top of the optimized source is taken off
    source_done(&mut run, exchange(filter(2, source.clone())));
    assert_eq!(*run.input(), join(target.clone(), filter(2, source.clone())));
    run.supply(expr(join(target.clone(), filter(2, source.clone()))));
    assert!(run.change_join_order);
    assert_eq!(run.pending(), Some(Stage::Distribute));
    let distributed = exchange(join(exchange(target.clone()), exchange(source.clone())));
    run.supply(expr(distributed.clone()));
    assert_eq!(run.pending(), Some(Stage::MergeSource { change_join_order: true }));
    assert_eq!(*run.input(), distributed);
    run.supply(expr(filter(9, distributed.clone())));
    assert_eq!(run.pending(), None);
    match run.finish().unwrap() {
        Outcome::MergeInto { input, distributed: d, change_join_order } => {
            assert_eq!(input, filter(9, distributed));
            assert_eq!(d, Some(true));
            assert!(change_join_order);
        }
        _ => panic!("not a merge"),
    }
}

#[test]
fn distributed_merge_into_of_another_shape_is_left() {
    let mut run = MergeIntoOptimization::start(&settings(), &opt_ctx(true), &merge_into(join(scan(0), scan(0))));
    source_done(&mut run, scan(0));
    run.supply(expr(join(scan(0), scan(0))));
    // no exchange on top: not the shape
    let other = join(exchange(scan(0)), exchange(scan(0)));
    run.supply(expr(other.clone()));
    assert_eq!(run.pending(), None);
    assert_eq!(run.distributed, Some(false));
    assert_eq!(run.s_expr, other);
}

#[test]
fn merge_into_needs_a_source_and_a_join() {
    let run = MergeIntoOptimization::start(&settings(), &opt_ctx(true), &merge_into(filter(1, scan(0))));
    assert_eq!(run.pending(), None);
    let e = run.finish().unwrap_err();
    assert_eq!(e.kind(), ErrorKind::Internal);
    assert_eq!(e.message(), "Invalid children index");
    // the rule gives something without children
    let mut run = MergeIntoOptimization::start(&settings(), &opt_ctx(false), &merge_into(join(scan(0), scan(0))));
    source_done(&mut run, scan(0));
    run.supply(expr(scan(0)));
    assert_eq!(run.finish().unwrap_err().kind(), ErrorKind::Internal);
    // a failing source fails the statement
    let mut run = MergeIntoOptimization::start(&settings(), &opt_ctx(false), &merge_into(join(scan(0), scan(0))));
    run.supply(Err(ErrorCode::BadArguments("bad source".to_string())));
    assert_eq!(run.pending(), None);
    let e = run.finish().unwrap_err();
    assert_eq!(e.kind(), ErrorKind::BadArguments);
    assert_eq!(e.message(), "bad source");
}

#[test]
fn merge_into_statement_is_rebuilt() {
    let mut s = settings();
    s.enable_distributed_merge_into = false;
    let plan = Plan::MergeInto(Box::new(merge_into(join(scan(0), scan(0)))));
    let mut run = optimize(&s, &opt_ctx(true), plan);
    assert!(matches!(run.job, Job::MergeInto(_)));
    let stages = run_to_end(&mut run);
    assert_eq!(stages.last(), Some(&Stage::CommuteJoin));
    match run.finish().unwrap() {
        Plan::MergeInto(m) => {
            assert!(matches!(m.input.plan, RelOperator::Filter { .. }));
            assert!(!m.distributed);
            assert!(!m.change_join_order);
            assert_eq!(m.target_table_index, 0);
        }
        _ => panic!("not a merge"),
    }
}

#[test]
fn rebuild_puts_the_outcome_in_place() {
    let out = rebuild(query(scan(0)), Outcome::Query(scan(1)), false);
    assert_eq!(*s_expr_of(&out), scan(1));
    let out = rebuild(query(scan(0)), Outcome::Nothing, true);
    assert_eq!(*s_expr_of(&out), scan(0));
    let out = rebuild(
        Plan::MergeInto(Box::new(merge_into(join(scan(0), scan(0))))),
        Outcome::MergeInto { input: scan(1), distributed: Some(true), change_join_order: true },
        false,
    );
    match out {
        Plan::MergeInto(m) => {
            assert_eq!(*m.input, scan(1));
            assert!(m.distributed);
            assert!(m.change_join_order);
        }
        _ => panic!("not a merge"),
    }
}

#[test]
fn the_memo_run_keeps_the_memo() {
    let mut run = get_optimized_memo(scan(0));
    assert_eq!(run.pending(), Some(Stage::Heuristic(RuleList::DefaultRewrite)));
    run.supply(expr(filter(1, scan(0))));
    assert_eq!(run.pending(), Some(Stage::Cascades { join_reordered: false }));
    assert_eq!(run.s_expr, filter(1, scan(0)));
    let mut memo = Memo::create();
    memo.insert(&scan(0));
    let mut costs = HashMap::new();
    costs.insert(0usize, CostContext { group_index: 0, expr_index: 0, cost: 5 });
    run.supply(Ok(StageReply::Memo { memo, best_cost_map: costs }));
    assert_eq!(run.pending(), None);
    let (memo, costs) = run.finish().unwrap();
    assert_eq!(memo.groups.len(), 1);
    assert_eq!(costs[&0].cost, 5);
}

#[test]
fn patterns_match_shapes() {
    let pattern = MergeSourceOptimizer::create().merge_source_pattern;
    assert!(exchange(join(exchange(scan(0)), exchange(filter(1, scan(1))))).match_pattern(&pattern));
    assert!(!exchange(join(scan(0), exchange(scan(1)))).match_pattern(&pattern));
    assert!(!join(exchange(scan(0)), exchange(scan(1))).match_pattern(&pattern));
    assert!(!exchange(exchange(scan(0))).match_pattern(&pattern));
    let any = SExpr::create_leaf(RelOperator::Pattern { plan_type: RelOp::Pattern });
    assert!(scan(0).match_pattern(&any));
    assert!(join(scan(0), scan(1)).match_pattern(&any));
    assert_eq!(RelOperator::Pattern { plan_type: RelOp::Join }.rel_op(), RelOp::Join);
    assert_eq!(RelOperator::DummyTableScan.rel_op(), RelOp::DummyTableScan);
}

#[test]
fn children_by_index() {
    let e = join(scan(0), scan(1));
    assert_eq!(e.arity(), 2);
    assert_eq!(e.child(0).unwrap(), &scan(0));
    assert_eq!(e.child(1).unwrap(), &scan(1));
    assert_eq!(e.child(2).unwrap_err().kind(), ErrorKind::Internal);
    assert_eq!(scan(0).child(0).unwrap_err().kind(), ErrorKind::Internal);
    assert_eq!(filter(1, scan(0)).child(1).unwrap_err().kind(), ErrorKind::Internal);
    assert_eq!(filter(1, scan(0)).arity(), 1);
    assert!(e.same(&join(scan(0), scan(1))));
    assert!(!e.same(&join(scan(1), scan(0))));
    assert!(!e.same(&scan(0)));
    let replaced = e.replace_children(Children::Unary(Box::new(scan(1))));
    assert_eq!(replaced.arity(), 1);
    assert_eq!(replaced.plan, e.plan);
}

#[test]
fn the_memo_interns_each_expression_once() {
    let mut memo = Memo::create();
    let a = memo.insert(&scan(0));
    let b = memo.insert(&scan(1));
    assert_eq!((a, b), (0, 1));
    assert_eq!(memo.insert(&scan(0)), 0);
    let j = memo.insert(&join(scan(0), scan(1)));
    assert_eq!(j, 2);
    assert_eq!(memo.groups.len(), 3);
    assert_eq!(memo.group(j).unwrap().m_exprs[0].children, vec![0, 1]);
    // again, and as a part of something bigger: nothing new but the new root
    assert_eq!(memo.insert(&join(scan(0), scan(1))), 2);
    let f = memo.insert(&filter(1, join(scan(0), scan(1))));
    assert_eq!(f, 3);
    assert_eq!(memo.groups.len(), 4);
    assert_eq!(memo.group(f).unwrap().m_exprs[0].children, vec![2]);
    // the other order of the join is another expression
    assert_eq!(memo.insert(&join(scan(1), scan(0))), 4);
    assert_eq!(memo.group(9).unwrap_err().kind(), ErrorKind::Internal);
    assert_eq!(memo.group(1).unwrap().group_index, 1);
}

#[test]
fn the_cheapest_plan_is_kept_and_the_first_on_a_tie() {
    let mut memo = Memo::create();
    memo.insert(&scan(0));
    let any = RequiredProperty { distribution: Distribution::Any };
    let serial = RequiredProperty { distribution: Distribution::Serial };
    let group = &mut memo.groups[0];
    assert_eq!(group.best_cost(any), None);
    let plan = |expr_index: usize, cost: u64| CostContext { group_index: 0, expr_index, cost };
    let offered = [plan(0, 30), plan(1, 20), plan(2, 20), plan(3, 25)];
    for p in offered {
        group.update_best(any, p);
        let best = group.best_cost(any).unwrap();
        assert!(best.cost <= p.cost);
    }
    assert_eq!(group.best_cost(any), Some(plan(1, 20)));
    assert!(offered.iter().all(|p| group.best_cost(any).unwrap().cost <= p.cost));
    // another demand has its own best plan
    assert_eq!(group.best_cost(serial), None);
    group.update_best(serial, plan(3, 25));
    assert_eq!(group.best_cost(serial), Some(plan(3, 25)));
    assert_eq!(group.best_cost(any), Some(plan(1, 20)));
    assert_eq!(group.m_exprs.len(), 1);
}

#[test]
fn the_source_loses_its_exchange_when_only_queries_are_distributed() {
    // queries are distributed, a MERGE INTO is not
    let mut s = settings();
    s.enable_distributed_merge_into = false;
    let target = scan(0);
    let source = scan(0);
    let plan = Plan::MergeInto(Box::new(merge_into(join(target.clone(), source.clone()))));
    let mut run = optimize(&s, &opt_ctx(true), plan);
    // the source goes through the stages of a query, the distribution among them
    let mut stages = Vec::new();
    while let Some(stage) = run.pending() {
        if stage == Stage::CommuteJoin {
            break;
        }
        stages.push(stage);
        let input = run.input().unwrap().clone();
        let reply = match stage {
            Stage::JoinReorder => Ok(StageReply::Reordered { s_expr: input, optimized: false }),
            Stage::Distribute => expr(exchange(filter(3, input))),
            _ => expr(input),
        };
        run.supply(reply);
    }
    assert!(stages.contains(&Stage::Distribute));
    // the join gets the target as it was and the source without its exchange
    assert_eq!(run.pending(), Some(Stage::CommuteJoin));
    assert_eq!(run.input(), Some(&join(target.clone(), filter(3, source.clone()))));
    run.supply(expr(join(target.clone(), filter(3, source.clone()))));
    assert_eq!(run.pending(), None);
    match run.finish().unwrap() {
        Plan::MergeInto(m) => {
            assert_eq!(*m.input, join(target, filter(3, source)));
            assert!(!m.distributed);
            assert!(m.change_join_order);
        }
        _ => panic!("not a merge"),
    }
}

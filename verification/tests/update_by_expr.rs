use std::collections::HashMap;

use fusequery::exception::ErrorCode;
use fusequery::exception::ErrorKind;
use fusequery::expression::BlockEntry;
use fusequery::expression::DataBlock;
use fusequery::expression::DataType;
use fusequery::expression::Expr;
use fusequery::expression::FunctionContext;
use fusequery::expression::NumberDataType;
use fusequery::expression::Scalar;
use fusequery::storages::update_by_expr_mutator::evaluation_block;
use fusequery::storages::update_by_expr_mutator::UpdateByExprMutator;

fn ints(values: &[i64]) -> BlockEntry {
    BlockEntry::new(
        DataType::Number(NumberDataType::Int64),
        values.iter().map(|v| Scalar::Number(*v)).collect(),
    )
}

fn values_of(entry: &BlockEntry) -> Vec<i64> {
    entry
        .value
        .iter()
        .map(|s| match s {
            Scalar::Number(n) => *n,
            _ => panic!("not a number"),
        })
        .collect()
}

fn bits_of(entry: &BlockEntry) -> Vec<bool> {
    entry
        .value
        .iter()
        .map(|s| match s {
            Scalar::Boolean(b) => *b,
            _ => panic!("not a boolean"),
        })
        .collect()
}

fn other(handle: u64) -> Expr {
    Expr::Other { handle, data_type: DataType::Number(NumberDataType::Int64) }
}

/// A clause over a block of two columns: field 7 is column 0, field 9 is column 1.
fn clause(expr: Option<Expr>, fields: &[usize]) -> UpdateByExprMutator {
    let mut positions = HashMap::new();
    positions.insert(7usize, 0usize);
    positions.insert(9usize, 1usize);
    UpdateByExprMutator::create(
        expr,
        FunctionContext { rounding_mode: false },
        positions,
        fields.iter().map(|f| (*f, other(*f as u64))).collect(),
        2,
    )
}

fn fresh() -> DataBlock {
    DataBlock::new(vec![ints(&[1, 2, 3, 4]), ints(&[10, 20, 30, 40])], 4)
}

#[test]
fn a_clause_without_condition_takes_the_constant_true() {
    let c = clause(None, &[7]);
    assert_eq!(
        c.filter_expr(),
        Expr::Constant { scalar: Scalar::Boolean(true), data_type: DataType::Boolean }
    );
    let own = Expr::Other { handle: 5, data_type: DataType::Boolean };
    assert_eq!(clause(Some(own.clone()), &[7]).filter_expr(), own);
}

#[test]
fn first_clause_updates_where_the_predicate_holds() {
    let c = clause(None, &[7]);
    let out = c
        .update_by_expr(fresh(), Ok(vec![true, false, true, false]), Ok(vec![ints(&[-1, -2, -3, -4])]))
        .unwrap();
    assert_eq!(out.num_columns(), 3);
    assert_eq!(out.num_rows(), 4);
    assert_eq!(values_of(&out.columns[0]), vec![-1, 2, -3, 4]);
    assert_eq!(values_of(&out.columns[1]), vec![10, 20, 30, 40]);
    assert_eq!(out.columns[2].data_type, DataType::Boolean);
    assert_eq!(bits_of(&out.columns[2]), vec![true, false, true, false]);
}

#[test]
fn earlier_clauses_win() {
    let first = clause(None, &[7]);
    let second = clause(None, &[7, 9]);
    let after_first = first
        .update_by_expr(fresh(), Ok(vec![true, false, false, false]), Ok(vec![ints(&[-1, -2, -3, -4])]))
        .unwrap();
    // the second clause holds in rows 0 and 1; row 0 was taken by the first
    let after_second = second
        .update_by_expr(
            after_first,
            Ok(vec![true, true, false, false]),
            Ok(vec![ints(&[100, 200, 300, 400]), ints(&[5, 6, 7, 8])]),
        )
        .unwrap();
    assert_eq!(after_second.num_columns(), 3);
    assert_eq!(values_of(&after_second.columns[0]), vec![-1, 200, 3, 4]);
    assert_eq!(values_of(&after_second.columns[1]), vec![10, 6, 30, 40]);
    assert_eq!(bits_of(&after_second.columns[2]), vec![true, true, false, false]);
}

#[test]
fn a_row_that_no_clause_takes_is_unchanged() {
    let first = clause(None, &[7]);
    let second = clause(None, &[9]);
    let b = first
        .update_by_expr(fresh(), Ok(vec![false, false, false, true]), Ok(vec![ints(&[0, 0, 0, 0])]))
        .unwrap();
    let b = second
        .update_by_expr(b, Ok(vec![false, true, false, true]), Ok(vec![ints(&[9, 9, 9, 9])]))
        .unwrap();
    // rows 0 and 2: no predicate held
    assert_eq!(values_of(&b.columns[0]), vec![1, 2, 3, 0]);
    assert_eq!(values_of(&b.columns[1]), vec![10, 9, 30, 40]);
    assert_eq!(bits_of(&b.columns[2]), vec![false, true, false, true]);
}

#[test]
fn the_last_assignment_to_a_column_counts() {
    let c = clause(None, &[7, 7]);
    let out = c
        .update_by_expr(
            fresh(),
            Ok(vec![true, true, true, true]),
            Ok(vec![ints(&[1, 1, 1, 1]), ints(&[2, 2, 2, 2])]),
        )
        .unwrap();
    assert_eq!(values_of(&out.columns[0]), vec![2, 2, 2, 2]);
}

#[test]
fn a_failed_predicate_fails_the_update() {
    let c = clause(None, &[7]);
    let r = c.update_by_expr(
        fresh(),
        Err(ErrorCode::BadArguments("no such column".to_string())),
        Ok(vec![ints(&[0, 0, 0, 0])]),
    );
    let e = r.unwrap_err();
    assert_eq!(e.kind(), ErrorKind::BadArguments);
    assert_eq!(e.message(), "eval filter failed:\nno such column");
}

#[test]
fn a_failed_assignment_fails_the_update() {
    let c = clause(None, &[7]);
    let r = c.update_by_expr(
        fresh(),
        Ok(vec![true, true, true, true]),
        Err(ErrorCode::Internal("overflow".to_string())),
    );
    let e = r.unwrap_err();
    assert_eq!(e.kind(), ErrorKind::Internal);
    assert_eq!(e.message(), "overflow");
}

#[test]
fn update_block_goes_by_the_flag() {
    // a block of three columns can be told to carry no filter
    let c = clause(None, &[9]);
    let b = DataBlock::new(vec![ints(&[1]), ints(&[2]), ints(&[3])], 1);
    let out = c.update_block(b, Ok(vec![true]), false, Ok(vec![ints(&[7])])).unwrap();
    assert_eq!(out.num_columns(), 4);
    assert_eq!(values_of(&out.columns[1]), vec![7]);
    assert_eq!(values_of(&out.columns[2]), vec![3]);
    assert_eq!(bits_of(&out.columns[3]), vec![true]);
}

/// The value of an assignment of the form "the new value where the clause takes the row,
/// else the old one", over the block that the assignments are evaluated over.
fn assigned(block: &DataBlock, column: usize, new: i64) -> BlockEntry {
    let taken = bits_of(block.columns.last().unwrap());
    let old = values_of(&block.columns[column]);
    ints(&taken.iter().zip(old).map(|(t, o)| if *t { new } else { o }).collect::<Vec<_>>())
}

#[test]
fn assignments_are_evaluated_beside_the_rows_that_the_clause_takes() {
    // a fresh block: the rows taken are those in which the condition holds
    let predicates = vec![true, false, true, false];
    let over = evaluation_block(&fresh(), false, &predicates).unwrap();
    assert_eq!(over.num_columns(), 3);
    assert_eq!(values_of(&over.columns[0]), vec![1, 2, 3, 4]);
    assert_eq!(values_of(&over.columns[1]), vec![10, 20, 30, 40]);
    assert_eq!(over.columns[2].data_type, DataType::Boolean);
    assert_eq!(bits_of(&over.columns[2]), predicates);
    let first = clause(None, &[7]);
    let set = assigned(&over, 0, 100);
    assert_eq!(values_of(&set), vec![100, 2, 100, 4]);
    let after_first = first.update_by_expr(fresh(), Ok(predicates), Ok(vec![set])).unwrap();
    assert_eq!(values_of(&after_first.columns[0]), vec![100, 2, 100, 4]);
    // a block with a filter: the filter gives way to the rows that this clause takes,
    // which are those that no earlier clause took
    let predicates = vec![true, true, false, false];
    let over = evaluation_block(&after_first, true, &predicates).unwrap();
    assert_eq!(over.num_columns(), 3);
    assert_eq!(values_of(&over.columns[0]), vec![100, 2, 100, 4]);
    assert_eq!(bits_of(&over.columns[2]), vec![false, true, false, false]);
    let second = clause(None, &[7]);
    let set = assigned(&over, 0, 7);
    assert_eq!(values_of(&set), vec![100, 7, 100, 4]);
    let after_second = second.update_by_expr(after_first, Ok(predicates), Ok(vec![set])).unwrap();
    assert_eq!(values_of(&after_second.columns[0]), vec![100, 7, 100, 4]);
    assert_eq!(bits_of(&after_second.columns[2]), vec![true, true, true, false]);
}

#[test]
fn a_block_that_does_not_fit_gives_no_block_to_evaluate_over() {
    // too few values of the condition
    assert!(evaluation_block(&fresh(), false, &vec![true]).is_none());
    // no filter where one is said to be
    assert!(evaluation_block(&DataBlock::new(vec![], 0), true, &vec![]).is_none());
    // a filter that is no column of booleans
    assert!(evaluation_block(&fresh(), true, &vec![true, false, true, false]).is_none());
    // a column that is short of a row
    let mut short = fresh();
    short.columns[1].value.pop();
    assert!(evaluation_block(&short, false, &vec![true, false, true, false]).is_none());
}

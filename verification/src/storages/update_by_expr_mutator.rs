//! `WHEN MATCHED THEN UPDATE`: one clause at a time, with the earlier clauses
//! winning.
//!
//! A block passes through the clauses of a statement in their order. Each
//! clause leaves behind, as the last column, a filter that says which rows some
//! clause so far has taken; the next clause updates only rows that the filter
//! does not mark. Evaluating expressions is not done here: the caller
//! evaluates the predicate and the assigned values of a clause over the block
//! and hands in what it found.

use crate::exception::ErrorCode;
use crate::exception::Failure;
use crate::exception::failure;
use crate::expression::BlockEntry;
use crate::expression::DataBlock;
use crate::expression::DataBlockView;
use crate::expression::DataType;
use crate::expression::Expr;
use crate::expression::FieldIndex;
use crate::expression::FunctionContext;
use crate::expression::RemoteExpr;
use crate::expression::Scalar;
use std::collections::HashMap;
use vstd::prelude::*;

verus! {

broadcast use vstd::std_specs::hash::group_hash_axioms;

/// One `WHEN MATCHED THEN UPDATE` clause.
pub struct UpdateByExprMutator {
    /// The condition of the clause; without one it takes every row.
    pub expr: Option<Expr>,
    pub func_ctx: FunctionContext,
    /// Where each field of the target table stands in the input block.
    pub field_index_of_input_schema: HashMap<FieldIndex, usize>,
    /// The columns of the input block, the filter not counted.
    pub origin_input_columns: usize,
    /// The assignments: the field and the expression for its new value.
    pub update_lists: Vec<(FieldIndex, RemoteExpr)>,
}

/// The last of the first `n` assignments that writes column `column`.
pub open spec fn last_updater(targets: Seq<int>, column: int, n: int) -> Option<int>
    decreases n,
{
    if n <= 0 {
        None
    } else if targets[n - 1] == column {
        Some(n - 1)
    } else {
        last_updater(targets, column, n - 1)
    }
}

/// Whether the filter column `filter` marks row `r`.
pub open spec fn marked(filter: Seq<Scalar>, r: int) -> bool {
    filter[r] == Scalar::Boolean(true)
}

/// What one clause makes of a block.
///
/// `block` is the input, with the filter of the earlier clauses as its last
/// column if `has_filter`. `targets[j]` is the column that assignment `j`
/// writes, `set_values[j]` the values it assigns, row by row, and
/// `predicates[r]` says whether the condition of the clause holds in row `r`.
/// A row is updated if the condition holds and no earlier clause took the
/// row. The output has the input's columns, the filter aside, with the
/// updated rows of the written columns replaced, and then the new filter,
/// which marks the rows that this clause or an earlier one took.
pub open spec fn clause_output(
    block: DataBlockView,
    has_filter: bool,
    targets: Seq<int>,
    predicates: Seq<bool>,
    set_values: Seq<(DataType, Seq<Scalar>)>,
) -> DataBlockView {
    let width = if has_filter {
        block.columns.len() - 1
    } else {
        block.columns.len() as int
    };
    DataBlockView {
        columns: Seq::new(
            (width + 1) as nat,
            |c: int|
                if c == width {
                    (
                        DataType::Boolean,
                        Seq::new(
                            block.num_rows as nat,
                            |r: int|
                                Scalar::Boolean(
                                    (has_filter && marked(block.columns[width].1, r))
                                        || predicates[r],
                                ),
                        ),
                    )
                } else {
                    match last_updater(targets, c, targets.len() as int) {
                        Some(j) => (
                            set_values[j].0,
                            Seq::new(
                                block.num_rows as nat,
                                |r: int|
                                    if !(has_filter && marked(block.columns[width].1, r))
                                        && predicates[r] {
                                        set_values[j].1[r]
                                    } else {
                                        block.columns[c].1[r]
                                    },
                            ),
                        ),
                        None => block.columns[c],
                    }
                },
        ),
        num_rows: block.num_rows,
        meta: None,
    }
}

/// Whether the clause whose condition gave `predicates` takes row `r` of
/// `block`: the condition holds there, and no earlier clause took the row.
pub open spec fn takes_row(
    block: DataBlockView,
    has_filter: bool,
    predicates: Seq<bool>,
    r: int,
) -> bool {
    !(has_filter && marked(block.columns[block.columns.len() - 1].1, r)) && predicates[r]
}

/// The block that the assignments of a clause are evaluated over: the
/// columns of `block`, the filter of the earlier clauses aside, and then a
/// column that says for each row whether this clause takes it.
pub open spec fn evaluation_view(
    block: DataBlockView,
    has_filter: bool,
    predicates: Seq<bool>,
) -> DataBlockView {
    let width = if has_filter {
        block.columns.len() - 1
    } else {
        block.columns.len() as int
    };
    DataBlockView {
        columns: block.columns.take(width).push(
            (
                DataType::Boolean,
                Seq::new(
                    block.num_rows as nat,
                    |r: int| Scalar::Boolean(takes_row(block, has_filter, predicates, r)),
                ),
            ),
        ),
        num_rows: block.num_rows,
        meta: block.meta,
    }
}

/// Whether the values of a condition can be laid beside a block: the block
/// has one cell per row in every column and, if it carries a filter, a last
/// column of plain booleans, and there is one value of the condition per
/// row.
pub open spec fn can_evaluate(
    data_block: DataBlock,
    has_filter: bool,
    predicates: Seq<bool>,
) -> bool {
    &&& data_block.wf()
    &&& has_filter ==> data_block.columns@.len() >= 1 && forall|r: int|
        0 <= r < data_block.num_rows ==> (#[trigger] data_block.columns@.last().value@[r])
            is Boolean
    &&& predicates.len() == data_block.num_rows
}

/// Makes the block that the assignments of a clause are evaluated over, from
/// the block that the clause gets and the values of its condition; nothing
/// if the two do not fit.
pub fn evaluation_block(data_block: &DataBlock, has_filter: bool, predicates: &Vec<bool>) -> (r:
    Option<DataBlock>)
    ensures
        (if can_evaluate(*data_block, has_filter, predicates@) {
            r matches Some(block) && block.wf() && block@ == evaluation_view(
                data_block@,
                has_filter,
                predicates@,
            )
        } else {
            r is None
        }),
{
    if !data_block.check_wf() || predicates.len() != data_block.num_rows() {
        return None;
    }
    if has_filter && data_block.num_columns() == 0 {
        return None;
    }
    let num_rows = data_block.num_rows();
    let width: usize = if has_filter {
        data_block.num_columns() - 1
    } else {
        data_block.num_columns()
    };
    // the columns, the old filter aside, and then the rows taken
    let mut columns: Vec<BlockEntry> = Vec::new();
    let mut c: usize = 0;
    while c < width
        invariant
            0 <= c <= width <= data_block.columns@.len(),
            data_block.wf(),
            num_rows == data_block.num_rows,
            columns@.len() == c,
            forall|k: int| 0 <= k < c ==> (#[trigger] columns@[k])@ == data_block@.columns[k],
        decreases width - c,
    {
        let entry = data_block.get_by_offset(c);
        assert(data_block@.columns[c as int] == entry@);
        columns.push(entry.clone());
        c += 1;
    }
    // which rows this clause takes
    let mut taken: Vec<Scalar> = Vec::with_capacity(num_rows);
    let mut r: usize = 0;
    while r < num_rows
        invariant
            0 <= r <= num_rows,
            num_rows == data_block.num_rows,
            predicates@.len() == num_rows,
            data_block.wf(),
            has_filter ==> width + 1 == data_block.columns@.len(),
            taken@.len() == r,
            columns@.len() == width,
            forall|k: int| 0 <= k < width ==> (#[trigger] columns@[k])@ == data_block@.columns[k],
            has_filter ==> forall|k: int|
                0 <= k < r ==> (#[trigger] data_block.columns@.last().value@[k]) is Boolean,
            forall|k: int|
                0 <= k < r ==> (#[trigger] taken@[k]) == Scalar::Boolean(
                    takes_row(data_block@, has_filter, predicates@, k),
                ),
        decreases num_rows - r,
    {
        let old_filter: bool = if has_filter {
            assert(data_block@.columns[width as int] == data_block.columns@[width as int]@);
            assert(data_block.columns@.last() == data_block.columns@[width as int]);
            match data_block.get_by_offset(width).value[r] {
                Scalar::Boolean(b) => b,
                _ => {
                    return None;
                },
            }
        } else {
            false
        };
        taken.push(Scalar::Boolean(!old_filter && predicates[r]));
        r += 1;
    }
    let ghost expected = evaluation_view(data_block@, has_filter, predicates@);
    assert(taken@ =~= expected.columns[width as int].1);
    columns.push(BlockEntry { data_type: DataType::Boolean, value: taken });
    let block = DataBlock { columns, num_rows, meta: data_block.get_meta() };
    assert(block@.columns.len() == expected.columns.len());
    assert forall|k: int| 0 <= k < block@.columns.len() implies block@.columns[k]
        == expected.columns[k] by {
        assert(block@.columns[k] == block.columns@[k]@);
    }
    assert(block@.columns =~= expected.columns);
    Some(block)
}

/// The columns of `entries`, as values.
pub open spec fn entries_view(entries: Seq<BlockEntry>) -> Seq<(DataType, Seq<Scalar>)> {
    entries.map_values(|e: BlockEntry| e@)
}

/// What one clause contributes to a run over a block: the column that each
/// of its assignments writes, and what was evaluated for it.
pub struct ClauseEvaluation {
    pub targets: Seq<int>,
    pub predicates: Seq<bool>,
    pub set_values: Seq<(DataType, Seq<Scalar>)>,
}

/// The block after the first `n` of `clauses` were applied, in order, to the
/// fresh block `origin`. A clause sees a filter exactly if the block it gets
/// has more columns than `origin`.
pub open spec fn after_clauses(
    origin: DataBlockView,
    clauses: Seq<ClauseEvaluation>,
    n: int,
) -> DataBlockView
    decreases n,
{
    if n <= 0 {
        origin
    } else {
        let before = after_clauses(origin, clauses, n - 1);
        clause_output(
            before,
            before.columns.len() != origin.columns.len(),
            clauses[n - 1].targets,
            clauses[n - 1].predicates,
            clauses[n - 1].set_values,
        )
    }
}

/// The first of the first `n` clauses whose condition holds in row `r`.
pub open spec fn first_taker(clauses: Seq<ClauseEvaluation>, r: int, n: int) -> Option<int>
    decreases n,
{
    if n <= 0 {
        None
    } else {
        match first_taker(clauses, r, n - 1) {
            Some(i) => Some(i),
            None => if clauses[n - 1].predicates[r] {
                Some(n - 1)
            } else {
                None
            },
        }
    }
}

/// The first clause whose condition holds in a row is the one that updates
/// it. After any number of clauses, each cell of the row holds what that
/// clause assigned to its column, or what the fresh block held if the clause
/// does not write the column; the filter marks the row. If no condition
/// holds in the row, the row is as in the fresh block and the filter does not
/// mark it.
pub proof fn lemma_first_clause_wins(
    origin: DataBlockView,
    clauses: Seq<ClauseEvaluation>,
    n: int,
    r: int,
    c: int,
)
    requires
        origin.wf(),
        1 <= n <= clauses.len(),
        0 <= r < origin.num_rows,
        0 <= c < origin.columns.len(),
    ensures
        after_clauses(origin, clauses, n).columns.len() == origin.columns.len() + 1,
        after_clauses(origin, clauses, n).num_rows == origin.num_rows,
        marked(after_clauses(origin, clauses, n).columns[origin.columns.len() as int].1, r)
            <==> first_taker(clauses, r, n) is Some,
        after_clauses(origin, clauses, n).columns[c].1[r] == (match first_taker(clauses, r, n) {
            Some(i) => match last_updater(clauses[i].targets, c, clauses[i].targets.len() as int) {
                Some(j) => clauses[i].set_values[j].1[r],
                None => origin.columns[c].1[r],
            },
            None => origin.columns[c].1[r],
        }),
    decreases n,
{
    let width = origin.columns.len() as int;
    let clause = clauses[n - 1];
    let before = after_clauses(origin, clauses, n - 1);
    let out = after_clauses(origin, clauses, n);
    if n == 1 {
        assert(before == origin);
        assert(first_taker(clauses, r, 0) is None);
    } else {
        lemma_first_clause_wins(origin, clauses, n - 1, r, c);
        assert(before.columns.len() == width + 1);
    }
}

/// Clauses applied one after the other: `blocks` starts with the fresh block
/// `origin`, and each further block is what the next clause made of the
/// block before it, the clause seeing a filter exactly if that block has
/// more columns than `origin`. Then the block after `n` clauses is
/// [`after_clauses`], so that in each row the first clause whose condition
/// holds has written its values, and a row in which no condition holds is as
/// in the fresh block, with a filter that does not mark it.
pub proof fn lemma_clauses_in_turn(
    origin: DataBlockView,
    clauses: Seq<ClauseEvaluation>,
    blocks: Seq<DataBlockView>,
    n: int,
    r: int,
    c: int,
)
    requires
        origin.wf(),
        1 <= n <= clauses.len(),
        blocks.len() == n + 1,
        blocks[0] == origin,
        forall|i: int|
            0 <= i < n ==> #[trigger] blocks[i + 1] == clause_output(
                blocks[i],
                blocks[i].columns.len() != origin.columns.len(),
                clauses[i].targets,
                clauses[i].predicates,
                clauses[i].set_values,
            ),
        0 <= r < origin.num_rows,
        0 <= c < origin.columns.len(),
    ensures
        blocks[n] == after_clauses(origin, clauses, n),
        marked(blocks[n].columns[origin.columns.len() as int].1, r) <==> first_taker(
            clauses,
            r,
            n,
        ) is Some,
        blocks[n].columns[c].1[r] == (match first_taker(clauses, r, n) {
            Some(i) => match last_updater(clauses[i].targets, c, clauses[i].targets.len() as int) {
                Some(j) => clauses[i].set_values[j].1[r],
                None => origin.columns[c].1[r],
            },
            None => origin.columns[c].1[r],
        }),
        first_taker(clauses, r, n) is None ==> blocks[n].columns[c].1[r] == origin.columns[c].1[r],
{
    lemma_chain(origin, clauses, blocks, n);
    lemma_first_clause_wins(origin, clauses, n, r, c);
}

/// The `k`-th block of a chain of clause applications is what
/// [`after_clauses`] gives for `k` clauses.
proof fn lemma_chain(
    origin: DataBlockView,
    clauses: Seq<ClauseEvaluation>,
    blocks: Seq<DataBlockView>,
    k: int,
)
    requires
        0 <= k < blocks.len(),
        blocks[0] == origin,
        forall|i: int|
            0 <= i < blocks.len() - 1 ==> #[trigger] blocks[i + 1] == clause_output(
                blocks[i],
                blocks[i].columns.len() != origin.columns.len(),
                clauses[i].targets,
                clauses[i].predicates,
                clauses[i].set_values,
            ),
    ensures
        blocks[k] == after_clauses(origin, clauses, k),
    decreases k,
{
    if k > 0 {
        lemma_chain(origin, clauses, blocks, k - 1);
        assert(blocks[(k - 1) + 1] == clause_output(
            blocks[k - 1],
            blocks[k - 1].columns.len() != origin.columns.len(),
            clauses[k - 1].targets,
            clauses[k - 1].predicates,
            clauses[k - 1].set_values,
        ));
    }
}

/// What an update fails with when evaluating its predicate failed with
/// `cause`: a failure of the same kind that says so in front of the text of
/// `cause`.
pub open spec fn filter_failed(cause: Failure) -> Failure {
    failure(cause.kind, "eval filter failed:"@ + "\n"@ + cause.text)
}

impl UpdateByExprMutator {
    pub fn create(
        expr: Option<Expr>,
        func_ctx: FunctionContext,
        field_index_of_input_schema: HashMap<FieldIndex, usize>,
        update_lists: Vec<(FieldIndex, RemoteExpr)>,
        origin_input_columns: usize,
    ) -> (mutator: Self)
        ensures
            mutator.expr == expr,
            mutator.func_ctx == func_ctx,
            mutator.field_index_of_input_schema == field_index_of_input_schema,
            mutator.update_lists == update_lists,
            mutator.origin_input_columns == origin_input_columns,
    {
        Self { expr, func_ctx, field_index_of_input_schema, origin_input_columns, update_lists }
    }

    /// The column that each assignment writes.
    pub open spec fn targets(&self) -> Seq<int> {
        Seq::new(
            self.update_lists@.len(),
            |j: int| self.field_index_of_input_schema@[self.update_lists@[j].0] as int,
        )
    }

    /// Every assigned field has a place in the input block.
    pub open spec fn fields_known(&self) -> bool {
        forall|j: int|
            0 <= j < self.update_lists@.len() ==> self.field_index_of_input_schema@.contains_key(
                (#[trigger] self.update_lists@[j]).0,
            )
    }

    /// The condition to evaluate for this clause: its own, or the constant
    /// `true` if it has none.
    pub fn filter_expr(&self) -> (e: Expr)
        ensures
            e == match self.expr {
                Some(own) => own,
                None => Expr::Constant {
                    scalar: Scalar::Boolean(true),
                    data_type: DataType::Boolean,
                },
            },
    {
        match &self.expr {
            Some(own) => own.clone(),
            None => Expr::Constant { scalar: Scalar::Boolean(true), data_type: DataType::Boolean },
        }
    }

    /// What the caller must guarantee of a block and of what was evaluated
    /// over it: one predicate and one assigned value per row, one column of
    /// assigned values per assignment, and a filter column of plain booleans
    /// where there is one.
    pub open spec fn fits(
        &self,
        data_block: DataBlock,
        has_filter: bool,
        predicates: Result<Vec<bool>, ErrorCode>,
        set_values: Result<Vec<BlockEntry>, ErrorCode>,
    ) -> bool {
        &&& data_block.wf()
        &&& self.fields_known()
        &&& has_filter ==> data_block.columns@.len() >= 1 && forall|r: int|
            0 <= r < data_block.num_rows ==> (#[trigger] data_block.columns@.last().value@[r])
                is Boolean
        &&& predicates matches Ok(p) ==> p@.len() == data_block.num_rows
        &&& set_values matches Ok(v) ==> v@.len() == self.update_lists@.len() && forall|j: int|
            0 <= j < v@.len() ==> (#[trigger] v@[j]).value@.len() == data_block.num_rows
    }

    /// Whether a block and what was evaluated over it can be handed to
    /// [`Self::update_block`].
    pub fn check_fits(
        &self,
        data_block: &DataBlock,
        has_filter: bool,
        predicates: &Result<Vec<bool>, ErrorCode>,
        set_values: &Result<Vec<BlockEntry>, ErrorCode>,
    ) -> (b: bool)
        ensures
            b == self.fits(*data_block, has_filter, *predicates, *set_values),
    {
        if !data_block.check_wf() {
            return false;
        }
        let num_rows = data_block.num_rows();
        let mut j: usize = 0;
        while j < self.update_lists.len()
            invariant
                0 <= j <= self.update_lists@.len(),
                forall|k: int|
                    0 <= k < j ==> self.field_index_of_input_schema@.contains_key(
                        (#[trigger] self.update_lists@[k]).0,
                    ),
            decreases self.update_lists@.len() - j,
        {
            if !self.field_index_of_input_schema.contains_key(&self.update_lists[j].0) {
                return false;
            }
            j += 1;
        }
        if has_filter {
            if data_block.num_columns() == 0 {
                return false;
            }
            let filter = data_block.get_by_offset(data_block.num_columns() - 1);
            assert(data_block@.columns[data_block.columns@.len() - 1] == filter@);
            let mut r: usize = 0;
            while r < num_rows
                invariant
                    0 <= r <= num_rows,
                    has_filter,
                    num_rows == data_block.num_rows,
                    data_block.columns@.len() >= 1,
                    *filter == data_block.columns@.last(),
                    filter.value@.len() == num_rows,
                    forall|k: int| 0 <= k < r ==> (#[trigger] filter.value@[k]) is Boolean,
                decreases num_rows - r,
            {
                match filter.value[r] {
                    Scalar::Boolean(_) => {},
                    _ => {
                        return false;
                    },
                }
                r += 1;
            }
        }
        match predicates {
            Ok(p) => {
                if p.len() != num_rows {
                    return false;
                }
            },
            Err(_) => {},
        }
        match set_values {
            Ok(v) => {
                if v.len() != self.update_lists.len() {
                    return false;
                }
                let mut j: usize = 0;
                while j < v.len()
                    invariant
                        0 <= j <= v@.len(),
                        *set_values == Ok::<Vec<BlockEntry>, ErrorCode>(*v),
                        num_rows == data_block.num_rows,
                        forall|k: int|
                            0 <= k < j ==> (#[trigger] v@[k]).value@.len() == num_rows,
                    decreases v@.len() - j,
                {
                    if v[j].value.len() != num_rows {
                        return false;
                    }
                    j += 1;
                }
            },
            Err(_) => {},
        }
        true
    }

    /// Applies the clause to a block. The block comes from the clause before,
    /// with its filter as the last column, or is fresh, with
    /// `origin_input_columns` columns and no filter. `predicates` is what
    /// evaluating [`Self::filter_expr`] over the block gave, `set_values` what
    /// evaluating the assigned values gave; a failure of either is returned,
    /// that of the predicate first and marked as such.
    pub fn update_by_expr(
        &self,
        data_block: DataBlock,
        predicates: Result<Vec<bool>, ErrorCode>,
        set_values: Result<Vec<BlockEntry>, ErrorCode>,
    ) -> (r: Result<DataBlock, ErrorCode>)
        requires
            self.fits(
                data_block,
                data_block.columns@.len() != self.origin_input_columns,
                predicates,
                set_values,
            ),
        ensures
            (match (predicates, set_values) {
                (Ok(p), Ok(v)) => r matches Ok(out) && out.wf() && out@ == clause_output(
                    data_block@,
                    data_block.columns@.len() != self.origin_input_columns,
                    self.targets(),
                    p@,
                    entries_view(v@),
                ),
                (Ok(_), Err(e)) => r == Err::<DataBlock, ErrorCode>(e),
                (Err(e), _) => r matches Err(f) && f@ == filter_failed(e@),
            }),
    {
        // it's the first update, after update, we need to add a filter column
        if data_block.num_columns() == self.origin_input_columns {
            self.update_block(data_block, predicates, false, set_values)
        } else {
            self.update_block(data_block, predicates, true, set_values)
        }
    }

    /// Applies the clause to a block that carries a filter if `has_filter`.
    pub fn update_block(
        &self,
        data_block: DataBlock,
        predicates: Result<Vec<bool>, ErrorCode>,
        has_filter: bool,
        set_values: Result<Vec<BlockEntry>, ErrorCode>,
    ) -> (r: Result<DataBlock, ErrorCode>)
        requires
            self.fits(data_block, has_filter, predicates, set_values),
        ensures
            (match (predicates, set_values) {
                (Ok(p), Ok(v)) => r matches Ok(out) && out.wf() && out@ == clause_output(
                    data_block@,
                    has_filter,
                    self.targets(),
                    p@,
                    entries_view(v@),
                ),
                (Ok(_), Err(e)) => r == Err::<DataBlock, ErrorCode>(e),
                (Err(e), _) => r matches Err(f) && f@ == filter_failed(e@),
            }),
    {
        let predicates = match predicates {
            Ok(p) => p,
            Err(e) => {
                return Err(e.add_message("eval filter failed:"));
            },
        };
        let set_values = match set_values {
            Ok(v) => v,
            Err(e) => {
                return Err(e);
            },
        };
        let num_rows = data_block.num_rows();
        let width: usize = if has_filter {
            data_block.num_columns() - 1
        } else {
            data_block.num_columns()
        };
        let ghost expected = clause_output(
            data_block@,
            has_filter,
            self.targets(),
            predicates@,
            entries_view(set_values@),
        );
        // which rows this clause takes, and the filter it leaves behind
        let mut applies: Vec<bool> = Vec::with_capacity(num_rows);
        let mut last_filter: Vec<Scalar> = Vec::with_capacity(num_rows);
        let mut r: usize = 0;
        while r < num_rows
            invariant
                0 <= r <= num_rows,
                num_rows == data_block.num_rows,
                predicates@.len() == num_rows,
                data_block.wf(),
                has_filter ==> width + 1 == data_block.columns@.len(),
                !has_filter ==> width == data_block.columns@.len(),
                applies@.len() == r,
                last_filter@.len() == r,
                forall|k: int|
                    0 <= k < r ==> (#[trigger] applies@[k]) == (!(has_filter && marked(
                        data_block@.columns[width as int].1,
                        k,
                    )) && predicates@[k]),
                forall|k: int|
                    0 <= k < r ==> (#[trigger] last_filter@[k]) == Scalar::Boolean(
                        (has_filter && marked(data_block@.columns[width as int].1, k))
                            || predicates@[k],
                    ),
            decreases num_rows - r,
        {
            let old_filter: bool = if has_filter {
                assert(data_block@.columns[width as int] == data_block.columns@[width as int]@);
                match data_block.get_by_offset(width).value[r] {
                    Scalar::Boolean(b) => b,
                    _ => false,
                }
            } else {
                false
            };
            let new_predicate = !old_filter && predicates[r];
            applies.push(new_predicate);
            last_filter.push(Scalar::Boolean(old_filter || new_predicate));
            r += 1;
        }
        // the columns, with the updated ones substituted
        let mut block_entries: Vec<BlockEntry> = Vec::with_capacity(width);
        let mut idx: usize = 0;
        while idx < width
            invariant
                0 <= idx <= width,
                self.fields_known(),
                data_block.wf(),
                num_rows == data_block.num_rows,
                width <= data_block.columns@.len(),
                has_filter ==> width + 1 == data_block.columns@.len(),
                !has_filter ==> width == data_block.columns@.len(),
                applies@.len() == num_rows,
                predicates@.len() == num_rows,
                set_values@.len() == self.update_lists@.len(),
                forall|j: int|
                    0 <= j < set_values@.len() ==> (#[trigger] set_values@[j]).value@.len()
                        == num_rows,
                forall|k: int|
                    0 <= k < num_rows ==> (#[trigger] applies@[k]) == (!(has_filter && marked(
                        data_block@.columns[width as int].1,
                        k,
                    )) && predicates@[k]),
                expected == clause_output(
                    data_block@,
                    has_filter,
                    self.targets(),
                    predicates@,
                    entries_view(set_values@),
                ),
                block_entries@.len() == idx,
                forall|c: int|
                    0 <= c < idx ==> (#[trigger] block_entries@[c])@ == expected.columns[c],
                forall|c: int|
                    0 <= c < idx ==> (#[trigger] block_entries@[c]).value@.len() == num_rows,
            decreases width - idx,
        {
            let mut updater: Option<usize> = None;
            let mut j: usize = 0;
            while j < self.update_lists.len()
                invariant
                    0 <= j <= self.update_lists@.len(),
                    self.fields_known(),
                    updater matches Some(u) ==> u < j,
                    (match updater {
                        Some(u) => Some(u as int),
                        None => None,
                    }) == last_updater(self.targets(), idx as int, j as int),
                decreases self.update_lists@.len() - j,
            {
                let field_index = self.update_lists[j].0;
                match self.field_index_of_input_schema.get(&field_index) {
                    Some(position) => {
                        if *position == idx {
                            updater = Some(j);
                        }
                    },
                    None => {},
                }
                j += 1;
                assert(self.targets()[j - 1] == self.field_index_of_input_schema@[field_index]);
            }
            let origin = data_block.get_by_offset(idx);
            assert(data_block@.columns[idx as int] == origin@);
            match updater {
                Some(u) => {
                    let assigned = &set_values[u];
                    assert(entries_view(set_values@)[u as int] == assigned@);
                    let mut value: Vec<Scalar> = Vec::with_capacity(num_rows);
                    let mut r: usize = 0;
                    while r < num_rows
                        invariant
                            0 <= r <= num_rows,
                            applies@.len() == num_rows,
                            assigned.value@.len() == num_rows,
                            origin.value@.len() == num_rows,
                            value@.len() == r,
                            forall|k: int|
                                0 <= k < r ==> (#[trigger] value@[k]) == (if applies@[k] {
                                    assigned.value@[k]
                                } else {
                                    origin.value@[k]
                                }),
                        decreases num_rows - r,
                    {
                        if applies[r] {
                            value.push(assigned.value[r]);
                        } else {
                            value.push(origin.value[r]);
                        }
                        r += 1;
                    }
                    let entry = BlockEntry { data_type: assigned.data_type, value };
                    assert(entry@.1 =~= expected.columns[idx as int].1);
                    block_entries.push(entry);
                },
                None => {
                    block_entries.push(origin.clone());
                },
            }
            idx += 1;
        }
        // add filter
        let filter_entry = BlockEntry { data_type: DataType::Boolean, value: last_filter };
        assert(filter_entry@.1 =~= expected.columns[width as int].1);
        block_entries.push(filter_entry);
        let out = DataBlock::new(block_entries, num_rows);
        assert(out@.columns =~= expected.columns);
        Ok(out)
    }
}

} // verus!

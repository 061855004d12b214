//! Checks that a caller can run before it hands a plan to the builder.

use crate::executor::AggregateExpand;
use crate::executor::PhysicalPlan;
use crate::expression::Expr;
use crate::expression::IndexType;
use crate::expression::RemoteExpr;
use crate::expression::first_named;
use crate::pipelines::builder_spec::gives_rows;
use crate::pipelines::builder_spec::well_formed;
use crate::pipelines::operators::columns_in_range;
use crate::pipelines::operators::expand_keys;
use crate::pipelines::operators::lookup_all;
use crate::pipelines::operators::offsets_of;
use crate::pipelines::operators::position_of;
use crate::pipelines::operators::sets_within_keys;
use vstd::prelude::*;

verus! {

/// Whether building `plan` leaves open output ports, if it succeeds.
pub fn check_gives_rows(plan: &PhysicalPlan) -> (b: bool)
    ensures
        b == gives_rows(*plan),
    decreases plan,
{
    match plan {
        PhysicalPlan::TableScan(_) => true,
        PhysicalPlan::Filter(p) => check_gives_rows(&p.input),
        PhysicalPlan::Project(p) => check_gives_rows(&p.input),
        PhysicalPlan::EvalScalar(p) => check_gives_rows(&p.input),
        PhysicalPlan::ProjectSet(p) => check_gives_rows(&p.input),
        PhysicalPlan::AggregateExpand(p) => check_gives_rows(&p.input),
        PhysicalPlan::AggregatePartial(p) => check_gives_rows(&p.input),
        PhysicalPlan::AggregateFinal(p) => check_gives_rows(&p.input),
        PhysicalPlan::Window(p) => check_gives_rows(&p.input),
        PhysicalPlan::Sort(p) => check_gives_rows(&p.input),
        PhysicalPlan::Limit(p) => check_gives_rows(&p.input),
        PhysicalPlan::RowFetch(p) => check_gives_rows(&p.input),
        PhysicalPlan::HashJoin(p) => check_gives_rows(&p.probe),
        PhysicalPlan::RangeJoin(p) => check_gives_rows(&p.left),
        PhysicalPlan::Exchange(_) => true,
        PhysicalPlan::UnionAll(p) => check_gives_rows(&p.left),
        PhysicalPlan::RuntimeFilterSource(p) => check_gives_rows(&p.left_side),
        PhysicalPlan::DistributedInsertSelect(_) => false,
        PhysicalPlan::ExchangeSource(_) => true,
        PhysicalPlan::ExchangeSink(p) => check_gives_rows(&p.input),
        PhysicalPlan::DeletePartial(_) => true,
        PhysicalPlan::DeleteFinal(_) => false,
        PhysicalPlan::DistributedCopyIntoTable(_) => false,
    }
}

/// Whether every column that an expression of `exprs` names by itself is
/// among the first `fields` columns.
pub fn check_columns_in_range(exprs: &Vec<(RemoteExpr, IndexType)>, fields: usize) -> (b: bool)
    ensures
        b == columns_in_range(exprs@, fields as int),
{
    let mut k: usize = 0;
    while k < exprs.len()
        invariant
            0 <= k <= exprs@.len(),
            forall|i: int|
                0 <= i < k ==> ((#[trigger] exprs@[i]).0 matches Expr::ColumnRef { id, .. } ==> id
                    < fields),
        decreases exprs@.len() - k,
    {
        match &exprs[k].0 {
            Expr::ColumnRef { id, .. } => {
                if *id >= fields {
                    return false;
                }
            },
            _ => {},
        }
        k += 1;
    }
    true
}

/// Whether every member of every grouping set that the input has is one of
/// the keys.
pub fn check_sets_within_keys(expand: &AggregateExpand) -> (b: bool)
    requires
        1 <= expand.group_bys@.len(),
    ensures
        b == sets_within_keys(*expand),
{
    let input_schema = expand.input.output_schema();
    let fields: usize = input_schema.num_fields();
    let mut keys: Vec<IndexType> = Vec::with_capacity(expand.group_bys.len());
    let mut k: usize = 0;
    while k < expand.group_bys.len() - 1
        invariant
            1 <= expand.group_bys@.len(),
            0 <= k <= expand.group_bys@.len() - 1,
            keys@ == expand.group_bys@.take(k as int),
        decreases expand.group_bys@.len() - k,
    {
        keys.push(expand.group_bys[k]);
        k += 1;
        assert(keys@ =~= expand.group_bys@.take(k as int));
    }
    let offsets = match lookup_all(input_schema, &keys) {
        Ok(offsets) => offsets,
        Err(_) => {
            return true;
        },
    };
    let mut s: usize = 0;
    while s < expand.grouping_sets.len()
        invariant
            0 <= s <= expand.grouping_sets@.len(),
            fields == input_schema.fields@.len(),
            *input_schema == expand.input.schema(),
            offsets_of(input_schema.fields@, expand_keys(*expand),
                expand_keys(*expand).len() as int)
                == Some(offsets@),
            forall|t: int, i: int|
                #![trigger expand.grouping_sets@[t]@[i]]
                0 <= t < s && 0 <= i < expand.grouping_sets@[t]@.len() && first_named(
                    input_schema.fields@,
                    expand.grouping_sets@[t]@[i],
                    0,
                ) < input_schema.fields@.len() ==> position_of(
                    offsets@,
                    first_named(input_schema.fields@, expand.grouping_sets@[t]@[i], 0) as usize,
                    0,
                ) < offsets@.len(),
        decreases expand.grouping_sets@.len() - s,
    {
        let set = &expand.grouping_sets[s];
        let mut i: usize = 0;
        while i < set.len()
            invariant
                0 <= i <= set@.len(),
                0 <= s < expand.grouping_sets@.len(),
                *set == expand.grouping_sets@[s as int],
                fields == input_schema.fields@.len(),
                *input_schema == expand.input.schema(),
                offsets_of(
                    input_schema.fields@,
                    expand_keys(*expand),
                    expand_keys(*expand).len() as int,
                ) == Some(offsets@),
                forall|j: int|
                    #![trigger expand.grouping_sets@[s as int]@[j]]
                    0 <= j < i && first_named(
                        input_schema.fields@,
                        expand.grouping_sets@[s as int]@[j],
                        0,
                    ) < input_schema.fields@.len() ==> position_of(
                        offsets@,
                        first_named(input_schema.fields@, expand.grouping_sets@[s as int]@[j],
                            0) as usize,
                        0,
                    ) < offsets@.len(),
            decreases set@.len() - i,
        {
            match input_schema.index_of(set[i]) {
                Ok(index) => {
                    let mut j: usize = 0;
                    while j < offsets.len() && offsets[j] != index
                        invariant
                            0 <= j <= offsets@.len(),
                            position_of(offsets@, index, 0) == position_of(
                                offsets@,
                                index,
                                j as int,
                            ),
                        decreases offsets@.len() - j,
                    {
                        j += 1;
                    }
                    if j == offsets.len() {
                        assert(expand.grouping_sets@[s as int]@[i as int] == set@[i as int]);
                        return false;
                    }
                },
                Err(_) => {},
            }
            i += 1;
        }
        s += 1;
    }
    true
}

/// Whether `plan` can be built by a builder that is ready for a
/// runtime-filter source, if `ready`, or by one that is not.
pub fn check_well_formed(plan: &PhysicalPlan, ready: bool) -> (b: bool)
    ensures
        b == well_formed(*plan, ready),
    decreases plan,
{
    match plan {
        PhysicalPlan::TableScan(_) => true,
        PhysicalPlan::Filter(p) => check_well_formed(&p.input, ready),
        PhysicalPlan::Project(p) => check_well_formed(&p.input, ready),
        PhysicalPlan::EvalScalar(p) => check_well_formed(&p.input, ready) && check_columns_in_range(
            &p.exprs,
            p.input.output_schema().num_fields(),
        ),
        PhysicalPlan::ProjectSet(p) => check_well_formed(&p.input, ready),
        PhysicalPlan::AggregateExpand(p) => check_well_formed(&p.input, ready) && 1
            <= p.group_bys.len() && p.group_bys.len() <= 64 && check_sets_within_keys(p),
        PhysicalPlan::AggregatePartial(p) => check_well_formed(&p.input, ready),
        PhysicalPlan::AggregateFinal(p) => check_well_formed(&p.input, ready),
        PhysicalPlan::Window(p) => check_well_formed(&p.input, ready),
        PhysicalPlan::Sort(p) => check_well_formed(&p.input, ready),
        PhysicalPlan::Limit(p) => check_well_formed(&p.input, ready),
        PhysicalPlan::RowFetch(p) => {
            let on_limit = match &*p.input {
                PhysicalPlan::Limit(_) => true,
                _ => false,
            };
            on_limit && check_well_formed(&p.input, ready)
        },
        PhysicalPlan::HashJoin(p) => check_gives_rows(&p.build) && check_well_formed(
            &p.build,
            false,
        ) && check_well_formed(&p.probe, ready || p.contain_runtime_filter),
        PhysicalPlan::RangeJoin(p) => check_well_formed(&p.right, false) && check_well_formed(
            &p.left,
            ready,
        ),
        PhysicalPlan::Exchange(_) => true,
        PhysicalPlan::UnionAll(p) => check_well_formed(&p.left, ready) && check_gives_rows(&p.right)
            && check_well_formed(&p.right, false),
        PhysicalPlan::RuntimeFilterSource(p) => ready && check_well_formed(&p.left_side, ready),
        PhysicalPlan::DistributedInsertSelect(p) => check_well_formed(&p.input, ready),
        PhysicalPlan::ExchangeSource(_) => true,
        PhysicalPlan::ExchangeSink(p) => check_well_formed(&p.input, ready),
        PhysicalPlan::DeletePartial(_) => true,
        PhysicalPlan::DeleteFinal(p) => check_well_formed(&p.input, ready),
        PhysicalPlan::DistributedCopyIntoTable(_) => true,
    }
}

} // verus!

//! Relational expressions.

use crate::exception::ErrorCode;
use crate::exception::ErrorKind;
use crate::exception::failure;
use crate::expression::IndexType;
use crate::pipelines::pipeline::JoinType;
use vstd::prelude::*;

verus! {

/// The kinds of relational operator.
#[derive(Clone, Copy, Debug, PartialEq, Eq, Structural)]
pub enum RelOp {
    Scan,
    Join,
    EvalScalar,
    Filter,
    Aggregate,
    Sort,
    Limit,
    Exchange,
    UnionAll,
    DummyTableScan,
    Window,
    ProjectSet,
    /// Stands for any expression, in a pattern.
    Pattern,
}

/// A relational operator. What an operator holds besides what the driver
/// reads is known to the rules under `handle`.
#[derive(Clone, Copy, Debug, PartialEq, Eq, Structural)]
pub enum RelOperator {
    Scan { table_index: IndexType, handle: u64 },
    Join { join_type: JoinType, handle: u64 },
    /// Computes `items` new columns.
    EvalScalar { handle: u64, items: usize },
    Filter { handle: u64 },
    Aggregate { handle: u64 },
    Sort { handle: u64 },
    Limit { handle: u64 },
    Exchange { handle: u64 },
    UnionAll { handle: u64 },
    DummyTableScan,
    Window { handle: u64 },
    ProjectSet { handle: u64 },
    /// In a pattern: an operator of kind `plan_type`, or, with the kind
    /// `Pattern`, any expression.
    Pattern { plan_type: RelOp },
}

impl RelOperator {
    /// The kind of this operator; for an operator of a pattern, the kind it
    /// stands for.
    pub open spec fn spec_rel_op(&self) -> RelOp {
        match self {
            RelOperator::Scan { .. } => RelOp::Scan,
            RelOperator::Join { .. } => RelOp::Join,
            RelOperator::EvalScalar { .. } => RelOp::EvalScalar,
            RelOperator::Filter { .. } => RelOp::Filter,
            RelOperator::Aggregate { .. } => RelOp::Aggregate,
            RelOperator::Sort { .. } => RelOp::Sort,
            RelOperator::Limit { .. } => RelOp::Limit,
            RelOperator::Exchange { .. } => RelOp::Exchange,
            RelOperator::UnionAll { .. } => RelOp::UnionAll,
            RelOperator::DummyTableScan => RelOp::DummyTableScan,
            RelOperator::Window { .. } => RelOp::Window,
            RelOperator::ProjectSet { .. } => RelOp::ProjectSet,
            RelOperator::Pattern { plan_type } => *plan_type,
        }
    }

    #[verifier::when_used_as_spec(spec_rel_op)]
    pub fn rel_op(&self) -> (op: RelOp)
        ensures
            op == self.spec_rel_op(),
    {
        match self {
            RelOperator::Scan { .. } => RelOp::Scan,
            RelOperator::Join { .. } => RelOp::Join,
            RelOperator::EvalScalar { .. } => RelOp::EvalScalar,
            RelOperator::Filter { .. } => RelOp::Filter,
            RelOperator::Aggregate { .. } => RelOp::Aggregate,
            RelOperator::Sort { .. } => RelOp::Sort,
            RelOperator::Limit { .. } => RelOp::Limit,
            RelOperator::Exchange { .. } => RelOp::Exchange,
            RelOperator::UnionAll { .. } => RelOp::UnionAll,
            RelOperator::DummyTableScan => RelOp::DummyTableScan,
            RelOperator::Window { .. } => RelOp::Window,
            RelOperator::ProjectSet { .. } => RelOp::ProjectSet,
            RelOperator::Pattern { plan_type } => *plan_type,
        }
    }
}

/// The children of an expression, in order.
#[derive(Debug, PartialEq, Eq)]
pub enum Children {
    Leaf,
    Unary(Box<SExpr>),
    Binary(Box<SExpr>, Box<SExpr>),
}

/// A relational expression: an operator over its children.
#[derive(Debug, PartialEq, Eq)]
pub struct SExpr {
    pub plan: RelOperator,
    pub children: Children,
}

/// What the optimizer knows of one table.
#[derive(Clone, Copy, Debug, PartialEq, Eq, Structural)]
pub struct TableEntry {
    /// Whether the table lives on this node only.
    pub is_local: bool,
}

/// What the binder recorded of a statement: its tables, by index.
#[derive(Debug)]
pub struct Metadata {
    pub tables: Vec<TableEntry>,
}

impl Clone for SExpr {
    fn clone(&self) -> (res: Self)
        ensures
            res == *self,
        decreases self,
    {
        let children = match &self.children {
            Children::Leaf => Children::Leaf,
            Children::Unary(only) => Children::Unary(Box::new((**only).clone())),
            Children::Binary(left, right) => Children::Binary(
                Box::new((**left).clone()),
                Box::new((**right).clone()),
            ),
        };
        SExpr { plan: self.plan, children }
    }
}

impl SExpr {
    pub fn create_leaf(plan: RelOperator) -> (e: Self)
        ensures
            e == (SExpr { plan, children: Children::Leaf }),
    {
        SExpr { plan, children: Children::Leaf }
    }

    pub fn create_unary(plan: RelOperator, child: SExpr) -> (e: Self)
        ensures
            e == (SExpr { plan, children: Children::Unary(Box::new(child)) }),
    {
        SExpr { plan, children: Children::Unary(Box::new(child)) }
    }

    pub fn create_binary(plan: RelOperator, left: SExpr, right: SExpr) -> (e: Self)
        ensures
            e == (SExpr { plan, children: Children::Binary(Box::new(left), Box::new(right)) }),
    {
        SExpr { plan, children: Children::Binary(Box::new(left), Box::new(right)) }
    }

    /// The number of children.
    pub open spec fn spec_arity(&self) -> int {
        match self.children {
            Children::Leaf => 0,
            Children::Unary(_) => 1,
            Children::Binary(_, _) => 2,
        }
    }

    pub fn arity(&self) -> (n: usize)
        ensures
            n == self.spec_arity(),
    {
        match &self.children {
            Children::Leaf => 0,
            Children::Unary(_) => 1,
            Children::Binary(_, _) => 2,
        }
    }

    /// Child `n`, where there is one.
    pub open spec fn spec_child(&self, n: int) -> Option<SExpr> {
        match self.children {
            Children::Leaf => None,
            Children::Unary(only) => if n == 0 {
                Some(*only)
            } else {
                None
            },
            Children::Binary(left, right) => if n == 0 {
                Some(*left)
            } else if n == 1 {
                Some(*right)
            } else {
                None
            },
        }
    }

    /// Child `n`; `Internal` if there is none.
    pub fn child(&self, n: usize) -> (r: Result<&SExpr, ErrorCode>)
        ensures
            (match self.spec_child(n as int) {
                Some(c) => r matches Ok(found) && *found == c,
                None => r matches Err(e) && e@ == failure(
                    ErrorKind::Internal,
                    "Invalid children index"@,
                ),
            }),
    {
        match &self.children {
            Children::Unary(only) => if n == 0 {
                return Ok(&**only);
            },
            Children::Binary(left, right) => if n == 0 {
                return Ok(&**left);
            } else if n == 1 {
                return Ok(&**right);
            },
            Children::Leaf => {},
        }
        Err(ErrorCode::Internal("Invalid children index".to_string()))
    }

    /// The same operator over other children.
    pub fn replace_children(&self, children: Children) -> (e: Self)
        ensures
            e == (SExpr { plan: self.plan, children }),
    {
        SExpr { plan: self.plan, children }
    }

    /// Whether this expression has the shape of `pattern`: the same kinds of
    /// operator in the same places, where a `Pattern` operator stands for any
    /// expression.
    pub open spec fn matches_pattern(&self, pattern: SExpr) -> bool
        decreases self,
    {
        if pattern.plan.rel_op() == RelOp::Pattern {
            true
        } else if self.plan.rel_op() != pattern.plan.rel_op() {
            false
        } else {
            match (self.children, pattern.children) {
                (Children::Leaf, Children::Leaf) => true,
                (Children::Unary(e), Children::Unary(p)) => e.matches_pattern(*p),
                (Children::Binary(el, er), Children::Binary(pl, pr)) => el.matches_pattern(*pl)
                    && er.matches_pattern(*pr),
                _ => false,
            }
        }
    }

    pub fn match_pattern(&self, pattern: &SExpr) -> (b: bool)
        ensures
            b == self.matches_pattern(*pattern),
        decreases self,
    {
        if pattern.plan.rel_op() == RelOp::Pattern {
            return true;
        }
        // Pattern is plan
        if self.plan.rel_op() != pattern.plan.rel_op() {
            return false;
        }
        match (&self.children, &pattern.children) {
            (Children::Leaf, Children::Leaf) => true,
            (Children::Unary(e), Children::Unary(p)) => e.match_pattern(p),
            (Children::Binary(el, er), Children::Binary(pl, pr)) => el.match_pattern(pl)
                && er.match_pattern(pr),
            _ => false,
        }
    }

    /// Whether two expressions are equal.
    pub fn same(&self, other: &SExpr) -> (b: bool)
        ensures
            b == (*self == *other),
        decreases self,
    {
        if !(self.plan == other.plan) {
            return false;
        }
        match (&self.children, &other.children) {
            (Children::Leaf, Children::Leaf) => true,
            (Children::Unary(a), Children::Unary(b)) => a.same(b),
            (Children::Binary(al, ar), Children::Binary(bl, br)) => al.same(bl) && ar.same(br),
            _ => false,
        }
    }

    /// Every table that a scan of this expression names is in `tables`.
    pub open spec fn bound_to(&self, tables: Seq<TableEntry>) -> bool
        decreases self,
    {
        &&& self.plan matches RelOperator::Scan { table_index, .. } ==> table_index < tables.len()
        &&& match self.children {
            Children::Leaf => true,
            Children::Unary(only) => only.bound_to(tables),
            Children::Binary(left, right) => left.bound_to(tables) && right.bound_to(tables),
        }
    }

    /// Whether this expression scans a table that lives on this node only.
    pub open spec fn scans_local_table(&self, tables: Seq<TableEntry>) -> bool
        decreases self,
    {
        ||| self.plan matches RelOperator::Scan { table_index, .. }
            && tables[table_index as int].is_local
        ||| match self.children {
            Children::Leaf => false,
            Children::Unary(only) => only.scans_local_table(tables),
            Children::Binary(left, right) => left.scans_local_table(tables)
                || right.scans_local_table(tables),
        }
    }
}

/// Whether every table that a scan of `s_expr` names is known to `metadata`.
pub fn check_bound(s_expr: &SExpr, metadata: &Metadata) -> (b: bool)
    ensures
        b == s_expr.bound_to(metadata.tables@),
    decreases s_expr,
{
    let here = match s_expr.plan {
        RelOperator::Scan { table_index, .. } => table_index < metadata.tables.len(),
        _ => true,
    };
    here && match &s_expr.children {
        Children::Leaf => true,
        Children::Unary(only) => check_bound(only, metadata),
        Children::Binary(left, right) => check_bound(left, metadata) && check_bound(
            right,
            metadata,
        ),
    }
}

/// Whether `s_expr` scans a table that lives on this node only.
pub fn contains_local_table_scan(s_expr: &SExpr, metadata: &Metadata) -> (b: bool)
    requires
        s_expr.bound_to(metadata.tables@),
    ensures
        b == s_expr.scans_local_table(metadata.tables@),
    decreases s_expr,
{
    let below = match &s_expr.children {
        Children::Leaf => false,
        Children::Unary(only) => contains_local_table_scan(only, metadata),
        Children::Binary(left, right) => contains_local_table_scan(left, metadata)
            || contains_local_table_scan(right, metadata),
    };
    below || match s_expr.plan {
        RelOperator::Scan { table_index, .. } => metadata.tables[table_index].is_local,
        _ => false,
    }
}

} // verus!

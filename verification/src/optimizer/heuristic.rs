//! Rewriting by rules until nothing changes.
//!
//! The optimizer walks an expression from the root. At each node it tries the
//! rules of a list in their order; the first rule that gives a replacement
//! has it put in place of the node, and the rules are tried again on what
//! stands there now. When no rule gives anything the walk goes on to the
//! children. Walks are repeated until one changes nothing. Bounds on the
//! rewrites at a node, on the depth of a walk and on the number of walks keep
//! rules that undo each other from running forever.

use crate::exception::ErrorCode;
use crate::exception::ErrorKind;
use crate::exception::Failure;
use crate::exception::failure;
use crate::optimizer::rule::Rewrites;
use crate::optimizer::rule::Rule;
use crate::optimizer::rule::RuleID;
use crate::optimizer::rule::TransformResult;
use crate::optimizer::s_expr::Children;
use crate::optimizer::s_expr::SExpr;
use vstd::prelude::*;

verus! {

/// The place of the first rule at or after `from` that is named `id`, or the
/// number of rules.
pub open spec fn find_rule<R: Rule>(rules: Seq<R>, id: RuleID, from: int) -> int
    decreases rules.len() - from,
{
    if from < 0 || from >= rules.len() {
        rules.len() as int
    } else if rules[from].spec_id() == id {
        from
    } else {
        find_rule(rules, id, from + 1)
    }
}

/// What a rewrite fails with when it asks for a rule that is not at hand.
pub open spec fn no_rule() -> Failure {
    failure(ErrorKind::Internal, "Rule is not available"@)
}

/// What the rules named by `ids`, from the `k`-th on, make of the node
/// `s_expr`: the first replacement that a rule whose pattern the node matches
/// gives, or nothing if none gives one. `Internal` if a rule that is asked
/// for is not among `rules`.
pub open spec fn first_rewrite<R: Rule>(
    rules: Seq<R>,
    ids: Seq<RuleID>,
    s_expr: SExpr,
    k: int,
) -> Result<Option<SExpr>, Failure>
    decreases ids.len() - k,
{
    if k < 0 || k >= ids.len() {
        Ok(None)
    } else {
        let place = find_rule(rules, ids[k], 0);
        if place >= rules.len() {
            Err(no_rule())
        } else if !s_expr.matches_pattern(rules[place].spec_pattern()) {
            first_rewrite(rules, ids, s_expr, k + 1)
        } else {
            match rules[place].rewrites(s_expr) {
                Rewrites::Failed(kind) => Err(kind),
                Rewrites::Found(found) => if found.len() > 0 {
                    Ok(Some(found[0]))
                } else {
                    first_rewrite(rules, ids, s_expr, k + 1)
                },
            }
        }
    }
}

/// What a walk made of an expression.
pub struct Walked {
    pub s_expr: SExpr,
    /// Whether a rule gave a replacement.
    pub changed: bool,
    /// Whether a bound kept the walk from going on.
    pub exhausted: bool,
}

/// The node `s_expr` rewritten until no rule gives a replacement, at most
/// `fuel` times.
pub open spec fn settled_node<R: Rule>(
    rules: Seq<R>,
    ids: Seq<RuleID>,
    s_expr: SExpr,
    fuel: nat,
) -> Result<Walked, Failure>
    decreases fuel,
{
    match first_rewrite(rules, ids, s_expr, 0) {
        Err(kind) => Err(kind),
        Ok(None) => Ok(Walked { s_expr, changed: false, exhausted: false }),
        Ok(Some(next)) => if fuel == 0 {
            Ok(Walked { s_expr, changed: false, exhausted: true })
        } else {
            match settled_node(rules, ids, next, (fuel - 1) as nat) {
                Err(kind) => Err(kind),
                Ok(w) => Ok(Walked { s_expr: w.s_expr, changed: true, exhausted: w.exhausted }),
            }
        },
    }
}

/// One walk over `s_expr`: the node is rewritten until no rule gives a
/// replacement, then the children of what stands there are walked, down to
/// `depth` levels below.
pub open spec fn walked<R: Rule>(
    rules: Seq<R>,
    ids: Seq<RuleID>,
    s_expr: SExpr,
    fuel: nat,
    depth: nat,
) -> Result<Walked, Failure>
    decreases depth,
{
    match settled_node(rules, ids, s_expr, fuel) {
        Err(kind) => Err(kind),
        Ok(node) => match node.s_expr.children {
            Children::Leaf => Ok(node),
            Children::Unary(only) => if depth == 0 {
                Ok(Walked { exhausted: true, ..node })
            } else {
                match walked(rules, ids, *only, fuel, (depth - 1) as nat) {
                    Err(kind) => Err(kind),
                    Ok(below) => Ok(
                        Walked {
                            s_expr: SExpr {
                                plan: node.s_expr.plan,
                                children: Children::Unary(Box::new(below.s_expr)),
                            },
                            changed: node.changed || below.changed,
                            exhausted: node.exhausted || below.exhausted,
                        },
                    ),
                }
            },
            Children::Binary(left, right) => if depth == 0 {
                Ok(Walked { exhausted: true, ..node })
            } else {
                match walked(rules, ids, *left, fuel, (depth - 1) as nat) {
                    Err(kind) => Err(kind),
                    Ok(l) => match walked(rules, ids, *right, fuel, (depth - 1) as nat) {
                        Err(kind) => Err(kind),
                        Ok(r) => Ok(
                            Walked {
                                s_expr: SExpr {
                                    plan: node.s_expr.plan,
                                    children: Children::Binary(
                                        Box::new(l.s_expr),
                                        Box::new(r.s_expr),
                                    ),
                                },
                                changed: node.changed || l.changed || r.changed,
                                exhausted: node.exhausted || l.exhausted || r.exhausted,
                            },
                        ),
                    },
                }
            },
        },
    }
}

/// `s_expr` walked until a walk changes nothing, at most `walks` times: what
/// stands in the end, and whether it is settled, that is, whether the last
/// walk changed nothing and met no bound.
pub open spec fn rewritten<R: Rule>(
    rules: Seq<R>,
    ids: Seq<RuleID>,
    s_expr: SExpr,
    fuel: nat,
    depth: nat,
    walks: nat,
) -> Result<(SExpr, bool), Failure>
    decreases walks,
{
    if walks == 0 {
        Ok((s_expr, false))
    } else {
        match walked(rules, ids, s_expr, fuel, depth) {
            Err(kind) => Err(kind),
            Ok(w) => if !w.changed {
                Ok((w.s_expr, !w.exhausted))
            } else {
                rewritten(rules, ids, w.s_expr, fuel, depth, (walks - 1) as nat)
            },
        }
    }
}

/// No rule gives a replacement for any node of `s_expr`, and `s_expr` is at
/// most `depth` levels deep.
pub open spec fn stable<R: Rule>(rules: Seq<R>, ids: Seq<RuleID>, s_expr: SExpr, depth: nat) -> bool
    decreases depth,
{
    &&& first_rewrite(rules, ids, s_expr, 0) == Ok::<Option<SExpr>, Failure>(None)
    &&& match s_expr.children {
        Children::Leaf => true,
        Children::Unary(only) => depth > 0 && stable(rules, ids, *only, (depth - 1) as nat),
        Children::Binary(left, right) => depth > 0 && stable(
            rules,
            ids,
            *left,
            (depth - 1) as nat,
        ) && stable(rules, ids, *right, (depth - 1) as nat),
    }
}

/// A walk that changes nothing and meets no bound has walked a stable
/// expression, and has left it as it was.
pub proof fn lemma_unchanged_is_stable<R: Rule>(
    rules: Seq<R>,
    ids: Seq<RuleID>,
    s_expr: SExpr,
    fuel: nat,
    depth: nat,
)
    requires
        walked(rules, ids, s_expr, fuel, depth) matches Ok(w) && !w.changed && !w.exhausted,
    ensures
        walked(rules, ids, s_expr, fuel, depth) == Ok::<Walked, Failure>(
            Walked { s_expr, changed: false, exhausted: false },
        ),
        stable(rules, ids, s_expr, depth),
    decreases depth,
{
    match s_expr.children {
        Children::Leaf => {},
        Children::Unary(only) => {
            lemma_unchanged_is_stable(rules, ids, *only, fuel, (depth - 1) as nat);
        },
        Children::Binary(left, right) => {
            lemma_unchanged_is_stable(rules, ids, *left, fuel, (depth - 1) as nat);
            lemma_unchanged_is_stable(rules, ids, *right, fuel, (depth - 1) as nat);
        },
    }
}

/// A walk over a stable expression changes nothing and meets no bound.
pub proof fn lemma_stable_is_unchanged<R: Rule>(
    rules: Seq<R>,
    ids: Seq<RuleID>,
    s_expr: SExpr,
    fuel: nat,
    depth: nat,
)
    requires
        stable(rules, ids, s_expr, depth),
    ensures
        walked(rules, ids, s_expr, fuel, depth) == Ok::<Walked, Failure>(
            Walked { s_expr, changed: false, exhausted: false },
        ),
    decreases depth,
{
    match s_expr.children {
        Children::Leaf => {},
        Children::Unary(only) => {
            lemma_stable_is_unchanged(rules, ids, *only, fuel, (depth - 1) as nat);
        },
        Children::Binary(left, right) => {
            lemma_stable_is_unchanged(rules, ids, *left, fuel, (depth - 1) as nat);
            lemma_stable_is_unchanged(rules, ids, *right, fuel, (depth - 1) as nat);
        },
    }
}

/// What rewriting settles on is stable.
pub proof fn lemma_settled_is_stable<R: Rule>(
    rules: Seq<R>,
    ids: Seq<RuleID>,
    s_expr: SExpr,
    fuel: nat,
    depth: nat,
    walks: nat,
)
    requires
        rewritten(rules, ids, s_expr, fuel, depth, walks) matches Ok(r) && r.1,
    ensures
        stable(rules, ids, rewritten(rules, ids, s_expr, fuel, depth, walks)->Ok_0.0, depth),
    decreases walks,
{
    if walks > 0 {
        let w = walked(rules, ids, s_expr, fuel, depth)->Ok_0;
        if !w.changed {
            lemma_unchanged_is_stable(rules, ids, s_expr, fuel, depth);
        } else {
            lemma_settled_is_stable(rules, ids, w.s_expr, fuel, depth, (walks - 1) as nat);
        }
    }
}

/// Rewriting is idempotent where it settles: what it settled on, rewritten
/// again by the same rules, under any bounds on the rewrites at a node and on
/// the number of walks, is settled and stays as it is.
pub proof fn lemma_rewritten_twice<R: Rule>(
    rules: Seq<R>,
    ids: Seq<RuleID>,
    s_expr: SExpr,
    fuel: nat,
    depth: nat,
    walks: nat,
    again_fuel: nat,
    again_walks: nat,
)
    requires
        rewritten(rules, ids, s_expr, fuel, depth, walks) matches Ok(r) && r.1,
        again_walks > 0,
    ensures
        rewritten(
            rules,
            ids,
            rewritten(rules, ids, s_expr, fuel, depth, walks)->Ok_0.0,
            again_fuel,
            depth,
            again_walks,
        ) == Ok::<(SExpr, bool), Failure>(
            (rewritten(rules, ids, s_expr, fuel, depth, walks)->Ok_0.0, true),
        ),
{
    let settled = rewritten(rules, ids, s_expr, fuel, depth, walks)->Ok_0.0;
    lemma_settled_is_stable(rules, ids, s_expr, fuel, depth, walks);
    lemma_stable_is_unchanged(rules, ids, settled, again_fuel, depth);
}

/// Rewrites expressions by the rules it holds.
pub struct HeuristicOptimizer<R: Rule> {
    /// The rules that can be asked for.
    pub rules: Vec<R>,
    /// The most rewrites at one node in one walk.
    pub max_rewrites: usize,
    /// The most levels that a walk goes down.
    pub max_depth: usize,
    /// The most walks over one expression.
    pub max_walks: usize,
}

impl<R: Rule> HeuristicOptimizer<R> {
    pub fn new(rules: Vec<R>, max_rewrites: usize, max_depth: usize,
        max_walks: usize) -> (optimizer:
        Self)
        ensures
            optimizer.rules == rules,
            optimizer.max_rewrites == max_rewrites,
            optimizer.max_depth == max_depth,
            optimizer.max_walks == max_walks,
    {
        HeuristicOptimizer { rules, max_rewrites, max_depth, max_walks }
    }

    /// The place of the rule named `id`.
    fn find(&self, id: RuleID) -> (place: usize)
        ensures
            place == find_rule(self.rules@, id, 0),
    {
        let mut i: usize = 0;
        while i < self.rules.len()
            invariant
                0 <= i <= self.rules@.len(),
                find_rule(self.rules@, id, 0) == find_rule(self.rules@, id, i as int),
            decreases self.rules@.len() - i,
        {
            if self.rules[i].id() == id {
                return i;
            }
            i += 1;
        }
        i
    }

    /// Tries the rules named by `ids` on the node `s_expr`: the first
    /// replacement that one of them gives.
    pub fn apply_transform_rules(&self, s_expr: &SExpr, ids: &Vec<RuleID>) -> (r: Result<
        Option<SExpr>,
        ErrorCode,
    >)
        ensures
            (match first_rewrite(self.rules@, ids@, *s_expr, 0) {
                Ok(found) => r == Ok::<Option<SExpr>, ErrorCode>(found),
                Err(said) => r matches Err(e) && e@ == said,
            }),
    {
        let mut k: usize = 0;
        while k < ids.len()
            invariant
                0 <= k <= ids@.len(),
                first_rewrite(self.rules@, ids@, *s_expr, 0) == first_rewrite(
                    self.rules@,
                    ids@,
                    *s_expr,
                    k as int,
                ),
            decreases ids@.len() - k,
        {
            let place = self.find(ids[k]);
            if place >= self.rules.len() {
                return Err(ErrorCode::Internal("Rule is not available".to_string()));
            }
            let rule = &self.rules[place];
            if s_expr.match_pattern(rule.pattern()) {
                let mut state = TransformResult::new();
                rule.apply(s_expr, &mut state)?;
                assert(state.results@ =~= rule.rewrites(*s_expr)->Found_0);
                if state.results.len() > 0 {
                    // the first replacement takes the place of the node
                    return Ok(Some(state.results[0].clone()));
                }
            }
            k += 1;
        }
        Ok(None)
    }

    /// Rewrites the node `s_expr` until no rule gives a replacement.
    fn settle(&self, s_expr: SExpr, ids: &Vec<RuleID>) -> (r: Result<(SExpr, bool, bool),
        ErrorCode>)
        ensures
            (match settled_node(self.rules@, ids@, s_expr, self.max_rewrites as nat) {
                Ok(w) => r == Ok::<(SExpr, bool, bool), ErrorCode>(
                    (w.s_expr, w.changed, w.exhausted),
                ),
                Err(said) => r matches Err(e) && e@ == said,
            }),
    {
        let mut current = s_expr;
        let mut changed = false;
        let mut fuel = self.max_rewrites;
        loop
            invariant
                settled_node(self.rules@, ids@, s_expr, self.max_rewrites as nat) == (
                match settled_node(self.rules@, ids@, current, fuel as nat) {
                    Ok(w) => Ok(
                        Walked {
                            s_expr: w.s_expr,
                            changed: w.changed || changed,
                            exhausted: w.exhausted,
                        },
                    ),
                    Err(kind) => Err(kind),
                }),
            decreases fuel,
        {
            match self.apply_transform_rules(&current, ids)? {
                None => {
                    return Ok((current, changed, false));
                },
                Some(next) => {
                    if fuel == 0 {
                        return Ok((current, changed, true));
                    }
                    current = next;
                    changed = true;
                    fuel -= 1;
                },
            }
        }
    }

    /// Walks once over `s_expr`, down to `depth` levels below.
    fn walk(&self, s_expr: SExpr, ids: &Vec<RuleID>, depth: usize) -> (r: Result<
        (SExpr, bool, bool),
        ErrorCode,
    >)
        ensures
            (match walked(self.rules@, ids@, s_expr, self.max_rewrites as nat, depth as nat) {
                Ok(w) => r == Ok::<(SExpr, bool, bool), ErrorCode>(
                    (w.s_expr, w.changed, w.exhausted),
                ),
                Err(said) => r matches Err(e) && e@ == said,
            }),
        decreases depth,
    {
        let (node, changed, exhausted) = self.settle(s_expr, ids)?;
        let plan = node.plan;
        match node.children {
            Children::Leaf => Ok((SExpr { plan, children: Children::Leaf }, changed, exhausted)),
            Children::Unary(only) => {
                if depth == 0 {
                    return Ok((SExpr { plan, children: Children::Unary(only) }, changed, true));
                }
                let (below, c, x) = self.walk(*only, ids, depth - 1)?;
                Ok((SExpr::create_unary(plan, below), changed || c, exhausted || x))
            },
            Children::Binary(left, right) => {
                if depth == 0 {
                    return Ok(
                        (SExpr { plan, children: Children::Binary(left, right) }, changed, true),
                    );
                }
                let (l, cl, xl) = self.walk(*left, ids, depth - 1)?;
                let (r, cr, xr) = self.walk(*right, ids, depth - 1)?;
                Ok((SExpr::create_binary(plan, l, r), changed || cl || cr, exhausted || xl || xr))
            },
        }
    }

    /// Rewrites `s_expr` by the rules named by `ids` until a walk changes
    /// nothing, and says whether what it gives is settled.
    pub fn optimize(&self, s_expr: SExpr, ids: &Vec<RuleID>) -> (r: Result<(SExpr, bool),
        ErrorCode>)
        ensures
            (match rewritten(
                self.rules@,
                ids@,
                s_expr,
                self.max_rewrites as nat,
                self.max_depth as nat,
                self.max_walks as nat,
            ) {
                Ok(found) => r == Ok::<(SExpr, bool), ErrorCode>(found),
                Err(said) => r matches Err(e) && e@ == said,
            }),
    {
        let mut current = s_expr;
        let mut walks = self.max_walks;
        while walks > 0
            invariant
                rewritten(
                    self.rules@,
                    ids@,
                    s_expr,
                    self.max_rewrites as nat,
                    self.max_depth as nat,
                    self.max_walks as nat,
                ) == rewritten(
                    self.rules@,
                    ids@,
                    current,
                    self.max_rewrites as nat,
                    self.max_depth as nat,
                    walks as nat,
                ),
            decreases walks,
        {
            let (next, changed, exhausted) = self.walk(current, ids, self.max_depth)?;
            if !changed {
                return Ok((next, !exhausted));
            }
            current = next;
            walks -= 1;
        }
        Ok((current, false))
    }

    /// Rewrites `s_expr` by the rules named by `ids` until a walk changes
    /// nothing or the bounds are met.
    pub fn optimize_expression(&self, s_expr: &SExpr, ids: &Vec<RuleID>) -> (r: Result<
        SExpr,
        ErrorCode,
    >)
        ensures
            (match rewritten(
                self.rules@,
                ids@,
                *s_expr,
                self.max_rewrites as nat,
                self.max_depth as nat,
                self.max_walks as nat,
            ) {
                Ok(found) => r == Ok::<SExpr, ErrorCode>(found.0),
                Err(said) => r matches Err(e) && e@ == said,
            }),
    {
        let (rewritten, _) = self.optimize(s_expr.clone(), ids)?;
        Ok(rewritten)
    }
}

} // verus!

//! Join reordering.
//!
//! A join tree joins relations pairwise; each join applies some of the
//! conditions of the statement. Reordering looks for a cheaper tree over the
//! same relations with the same conditions. What the rows of a tree are is
//! defined here, and that a reordered tree gives the same rows as the tree it
//! stands for is proved; the search for a cheap order only proposes a tree,
//! and a proposal is taken only after it was checked.

use vstd::arithmetic::power2::lemma2_to64;
use vstd::arithmetic::power2::lemma_pow2_strictly_increases;
use vstd::arithmetic::power2::lemma_pow2_unfold;
use vstd::arithmetic::power2::pow2;
use vstd::prelude::*;

verus! {

/// A tree of inner joins.
#[derive(Debug, PartialEq, Eq)]
pub enum JoinTree {
    /// The relation with the given index.
    Relation { index: usize },
    /// The join of two trees under the conditions with the given indexes.
    Join { left: Box<JoinTree>, right: Box<JoinTree>, conditions: Vec<usize> },
}

/// A tree of inner joins, as a value.
pub enum JoinTreeView {
    Relation { index: usize },
    Join { left: Box<JoinTreeView>, right: Box<JoinTreeView>, conditions: Seq<usize> },
}

/// The value of a tree.
pub open spec fn tree_view(tree: JoinTree) -> JoinTreeView
    decreases tree,
{
    match tree {
        JoinTree::Relation { index } => JoinTreeView::Relation { index },
        JoinTree::Join { left, right, conditions } => JoinTreeView::Join {
            left: Box::new(tree_view(*left)),
            right: Box::new(tree_view(*right)),
            conditions: conditions@,
        },
    }
}

impl View for JoinTree {
    type V = JoinTreeView;

    open spec fn view(&self) -> JoinTreeView {
        tree_view(*self)
    }
}

/// A row of a join: for each relation that takes part, which of its tuples
/// the row is made of.
pub type Binding = Map<int, int>;

/// The relations that a tree joins.
pub open spec fn leaves(tree: JoinTreeView) -> Set<int>
    decreases tree,
{
    match tree {
        JoinTreeView::Relation { index } => set![index as int],
        JoinTreeView::Join { left, right, .. } => leaves(*left) + leaves(*right),
    }
}

/// The conditions of a list.
pub open spec fn listed(conditions: Seq<usize>) -> Set<int> {
    Set::new(|p: int| exists|k: int| 0 <= k < conditions.len() && #[trigger] conditions[k] == p)
}

/// The conditions that a tree applies.
pub open spec fn applied(tree: JoinTreeView) -> Set<int>
    decreases tree,
{
    match tree {
        JoinTreeView::Relation { .. } => Set::empty(),
        JoinTreeView::Join { left, right, conditions } => applied(*left) + applied(*right) + listed(
            conditions,
        ),
    }
}

/// The rows of a tree, where relation `r` has `sizes[r]` tuples and
/// `holds(p, b)` says whether condition `p` holds in row `b`. A relation
/// gives one row for each of its tuples. A join gives a row for each pair of
/// rows of its sides in which its conditions hold.
pub open spec fn rows(
    tree: JoinTreeView,
    sizes: Seq<int>,
    holds: spec_fn(int, Binding) -> bool,
) -> Set<Binding>
    decreases tree,
{
    match tree {
        JoinTreeView::Relation { index } => Set::new(
            |b: Binding| b.dom() == set![index as int]
                && 0 <= b[index as int] < sizes[index as int],
        ),
        JoinTreeView::Join { left, right, conditions } => {
            let l = rows(*left, sizes, holds);
            let r = rows(*right, sizes, holds);
            Set::new(
                |b: Binding|
                    (exists|bl: Binding, br: Binding|
                        #[trigger] l.contains(bl) && #[trigger] r.contains(br) && b
                            == bl.union_prefer_right(br)) && forall|p: int|
                        listed(conditions).contains(p) ==> #[trigger] holds(p, b),
            )
        },
    }
}

/// Whether a condition only looks at the relations it mentions: it holds in
/// two rows alike if the rows are made of the same tuples of those
/// relations.
pub open spec fn local(
    holds: spec_fn(int, Binding) -> bool,
    mentions: spec_fn(int) -> Set<int>,
) -> bool {
    forall|p: int, a: Binding, b: Binding|
        (forall|r: int| #[trigger]
            mentions(p).contains(r) ==> a.contains_key(r) && b.contains_key(r) && a[r] == b[r])
            ==> #[trigger] holds(p, a) == #[trigger] holds(p, b)
}

/// Whether a tree is a proper join tree: no relation is joined twice, and
/// every condition is applied where the relations it mentions are joined.
pub open spec fn well_placed(tree: JoinTreeView, mentions: spec_fn(int) -> Set<int>) -> bool
    decreases tree,
{
    match tree {
        JoinTreeView::Relation { .. } => true,
        JoinTreeView::Join { left, right, conditions } => {
            &&& well_placed(*left, mentions)
            &&& well_placed(*right, mentions)
            &&& leaves(*left).disjoint(leaves(*right))
            &&& forall|p: int|
                listed(conditions).contains(p) ==> (#[trigger] mentions(p)).subset_of(
                    leaves(*left) + leaves(*right),
                )
        },
    }
}

/// Whether `b` is a row over the relations of `tree` in which the conditions
/// of `tree` hold.
pub open spec fn satisfies(
    tree: JoinTreeView,
    sizes: Seq<int>,
    holds: spec_fn(int, Binding) -> bool,
    b: Binding,
) -> bool {
    &&& b.dom() == leaves(tree)
    &&& forall|r: int| leaves(tree).contains(r) ==> 0 <= #[trigger] b[r] < sizes[r]
    &&& forall|p: int| applied(tree).contains(p) ==> #[trigger] holds(p, b)
}

/// In a proper join tree a condition mentions only relations of the tree.
pub proof fn lemma_applied_mentions(tree: JoinTreeView, mentions: spec_fn(int) -> Set<int>, p: int)
    requires
        well_placed(tree, mentions),
        applied(tree).contains(p),
    ensures
        mentions(p).subset_of(leaves(tree)),
    decreases tree,
{
    match tree {
        JoinTreeView::Relation { .. } => {},
        JoinTreeView::Join { left, right, conditions } => {
            if applied(*left).contains(p) {
                lemma_applied_mentions(*left, mentions, p);
            } else if applied(*right).contains(p) {
                lemma_applied_mentions(*right, mentions, p);
            }
        },
    }
}

/// The rows of a proper join tree are the rows over its relations in which
/// its conditions hold: it does not matter in which order the relations are
/// joined, nor at which join a condition is applied.
pub proof fn lemma_rows(
    tree: JoinTreeView,
    sizes: Seq<int>,
    holds: spec_fn(int, Binding) -> bool,
    mentions: spec_fn(int) -> Set<int>,
    b: Binding,
)
    requires
        well_placed(tree, mentions),
        local(holds, mentions),
    ensures
        rows(tree, sizes, holds).contains(b) <==> satisfies(tree, sizes, holds, b),
    decreases tree,
{
    match tree {
        JoinTreeView::Relation { index } => {},
        JoinTreeView::Join { left, right, conditions } => {
            let l = rows(*left, sizes, holds);
            let r = rows(*right, sizes, holds);
            let ll = leaves(*left);
            let lr = leaves(*right);
            if rows(tree, sizes, holds).contains(b) {
                let (bl, br) = choose|bl: Binding, br: Binding|
                    #[trigger] l.contains(bl) && #[trigger] r.contains(br) && b
                        == bl.union_prefer_right(br);
                lemma_rows(*left, sizes, holds, mentions, bl);
                lemma_rows(*right, sizes, holds, mentions, br);
                assert(b.dom() =~= leaves(tree));
                assert forall|p: int| applied(tree).contains(p) implies #[trigger] holds(p, b) by {
                    if applied(*left).contains(p) {
                        lemma_applied_mentions(*left, mentions, p);
                        assert forall|x: int| #[trigger] mentions(p).contains(x) implies bl.contains_key(x)
                            && b.contains_key(x) && bl[x] == b[x] by {
                            assert(ll.contains(x));
                            assert(!lr.contains(x));
                        }
                        assert(holds(p, bl) == holds(p, b));
                    } else if applied(*right).contains(p) {
                        lemma_applied_mentions(*right, mentions, p);
                        assert forall|x: int| #[trigger] mentions(p).contains(x) implies br.contains_key(x)
                            && b.contains_key(x) && br[x] == b[x] by {
                            assert(lr.contains(x));
                        }
                        assert(holds(p, br) == holds(p, b));
                    }
                }
                assert forall|x: int| leaves(tree).contains(x) implies 0 <= #[trigger] b[x]
                    < sizes[x] by {
                    if lr.contains(x) {
                        assert(b[x] == br[x]);
                    } else {
                        assert(ll.contains(x));
                        assert(b[x] == bl[x]);
                    }
                }
            }
            if satisfies(tree, sizes, holds, b) {
                let bl = b.restrict(ll);
                let br = b.restrict(lr);
                assert(bl.dom() =~= ll);
                assert(br.dom() =~= lr);
                assert forall|p: int| applied(*left).contains(p) implies #[trigger] holds(p,
                    bl) by {
                    lemma_applied_mentions(*left, mentions, p);
                    assert(applied(tree).contains(p));
                    assert forall|x: int| #[trigger] mentions(p).contains(x) implies bl.contains_key(x)
                        && b.contains_key(x) && bl[x] == b[x] by {
                        assert(ll.contains(x));
                    }
                    assert(holds(p, bl) == holds(p, b));
                }
                assert forall|p: int| applied(*right).contains(p) implies #[trigger] holds(p,
                    br) by {
                    lemma_applied_mentions(*right, mentions, p);
                    assert(applied(tree).contains(p));
                    assert forall|x: int| #[trigger] mentions(p).contains(x) implies br.contains_key(x)
                        && b.contains_key(x) && br[x] == b[x] by {
                        assert(lr.contains(x));
                    }
                    assert(holds(p, br) == holds(p, b));
                }
                assert(satisfies(*left, sizes, holds, bl)) by {
                    assert forall|x: int| ll.contains(x) implies 0 <= #[trigger] bl[x] < sizes[x] by {
                        assert(leaves(tree).contains(x));
                        assert(bl[x] == b[x]);
                    }
                }
                assert(satisfies(*right, sizes, holds, br)) by {
                    assert forall|x: int| lr.contains(x) implies 0 <= #[trigger] br[x] < sizes[x] by {
                        assert(leaves(tree).contains(x));
                        assert(br[x] == b[x]);
                    }
                }
                lemma_rows(*left, sizes, holds, mentions, bl);
                lemma_rows(*right, sizes, holds, mentions, br);
                assert(b =~= bl.union_prefer_right(br));
                assert(l.contains(bl) && r.contains(br) && b == bl.union_prefer_right(br));
                assert forall|p: int| listed(conditions).contains(p) implies #[trigger] holds(
                    p,
                    b,
                ) by {
                    assert(applied(tree).contains(p));
                }
            }
        },
    }
}

/// Whether two trees join the same relations under the same conditions, both
/// properly.
pub open spec fn same_join(a: JoinTreeView, b: JoinTreeView,
    mentions: spec_fn(int) -> Set<int>) -> bool {
    &&& well_placed(a, mentions)
    &&& well_placed(b, mentions)
    &&& leaves(a) == leaves(b)
    &&& applied(a) == applied(b)
}

/// Reordering keeps the rows: two proper join trees over the same relations
/// with the same conditions give the same rows, whatever tuples the
/// relations hold, as long as each condition only looks at the relations it
/// mentions.
pub proof fn lemma_reordering_keeps_rows(
    a: JoinTreeView,
    b: JoinTreeView,
    sizes: Seq<int>,
    holds: spec_fn(int, Binding) -> bool,
    mentions: spec_fn(int) -> Set<int>,
)
    requires
        same_join(a, b, mentions),
        local(holds, mentions),
    ensures
        rows(a, sizes, holds) == rows(b, sizes, holds),
{
    assert forall|x: Binding| rows(a, sizes, holds).contains(x) == rows(b, sizes, holds).contains(
        x,
    ) by {
        lemma_rows(a, sizes, holds, mentions, x);
        lemma_rows(b, sizes, holds, mentions, x);
    }
    assert(rows(a, sizes, holds) =~= rows(b, sizes, holds));
}

/// A join condition: the relations it mentions.
#[derive(Debug)]
pub struct JoinCondition {
    pub relations: Vec<usize>,
}

/// Which relations a tree joins and which conditions it applies, one mark
/// for each relation and each condition of the statement.
#[derive(Debug)]
pub struct Marks {
    pub relations: Vec<bool>,
    pub conditions: Vec<bool>,
}

/// The reordering of the joins of one statement.
#[derive(Debug)]
pub struct DPhpy {
    /// For each relation, the number of rows that it is taken to hold.
    pub cardinalities: Vec<u64>,
    pub conditions: Vec<JoinCondition>,
    /// The most relations for which orders are enumerated.
    pub max_relations: usize,
}

/// Whether condition `p` mentions relation `r`.
pub open spec fn mentions_relation(conditions: Seq<JoinCondition>, p: int, r: int) -> bool {
    0 <= p < conditions.len() && exists|j: int|
        0 <= j < conditions[p].relations@.len() && #[trigger] conditions[p].relations@[j] == r
}

/// The relations that the conditions of a statement mention.
pub open spec fn mentioned(conditions: Seq<JoinCondition>) -> spec_fn(int) -> Set<int> {
    |p: int| Set::new(|r: int| mentions_relation(conditions, p, r))
}

/// Whether `tree` is a proper join tree over the first `relations` relations
/// and the first `conditions` conditions.
pub open spec fn proper(
    tree: JoinTreeView,
    mentions: spec_fn(int) -> Set<int>,
    relations: int,
    conditions: int,
) -> bool {
    &&& well_placed(tree, mentions)
    &&& forall|i: int| #[trigger] leaves(tree).contains(i) ==> 0 <= i < relations
    &&& forall|p: int| #[trigger] applied(tree).contains(p) ==> 0 <= p < conditions
}

/// The sides of a proper join tree are proper join trees.
pub proof fn lemma_proper_below(
    tree: JoinTreeView,
    mentions: spec_fn(int) -> Set<int>,
    relations: int,
    conditions: int,
)
    requires
        tree is Join,
        proper(tree, mentions, relations, conditions),
    ensures
        proper(*tree->left, mentions, relations, conditions),
        proper(*tree->right, mentions, relations, conditions),
{
    let left = *tree->left;
    let right = *tree->right;
    assert forall|i: int| #[trigger] leaves(left).contains(i) implies 0 <= i < relations by {
        assert(leaves(tree).contains(i));
    }
    assert forall|i: int| #[trigger] leaves(right).contains(i) implies 0 <= i < relations by {
        assert(leaves(tree).contains(i));
    }
    assert forall|p: int| #[trigger] applied(left).contains(p) implies 0 <= p < conditions by {
        assert(applied(tree).contains(p));
    }
    assert forall|p: int| #[trigger] applied(right).contains(p) implies 0 <= p < conditions by {
        assert(applied(tree).contains(p));
    }
}

/// `marks` says rightly which relations `tree` joins and which conditions it
/// applies.
pub open spec fn marked(tree: JoinTreeView, marks: Marks, relations: int, conditions: int) -> bool {
    &&& marks.relations@.len() == relations
    &&& marks.conditions@.len() == conditions
    &&& forall|i: int| #[trigger] leaves(tree).contains(i) <==> 0 <= i < relations
        && marks.relations@[i]
    &&& forall|p: int| #[trigger]
        applied(tree).contains(p) <==> 0 <= p < conditions && marks.conditions@[p]
}

/// For each of the first `n` relations, whether `tree` joins it.
pub open spec fn relation_marks(tree: JoinTreeView, n: int) -> Seq<bool> {
    Seq::new(n as nat, |i: int| leaves(tree).contains(i))
}

/// For each of the first `m` conditions, whether `tree` applies it.
pub open spec fn condition_marks(tree: JoinTreeView, m: int) -> Seq<bool> {
    Seq::new(m as nat, |p: int| applied(tree).contains(p))
}

/// Two lists of marks are the same.
fn same_marks(a: &Vec<bool>, b: &Vec<bool>) -> (same: bool)
    ensures
        same == (a@ == b@),
{
    if a.len() != b.len() {
        return false;
    }
    let mut i: usize = 0;
    while i < a.len()
        invariant
            0 <= i <= a@.len(),
            a@.len() == b@.len(),
            forall|k: int| 0 <= k < i ==> a@[k] == b@[k],
        decreases a@.len() - i,
    {
        if a[i] != b[i] {
            return false;
        }
        i += 1;
    }
    assert(a@ =~= b@);
    true
}

/// `n` marks, none set.
fn no_marks(n: usize) -> (marks: Vec<bool>)
    ensures
        marks@.len() == n,
        forall|i: int| 0 <= i < n ==> !marks@[i],
{
    let mut marks: Vec<bool> = Vec::with_capacity(n);
    let mut i: usize = 0;
    while i < n
        invariant
            0 <= i <= n,
            marks@.len() == i,
            forall|k: int| 0 <= k < i ==> !marks@[k],
        decreases n - i,
    {
        marks.push(false);
        i += 1;
    }
    marks
}

/// Whether two lists of indexes are the same.
fn same_list(a: &Vec<usize>, b: &Vec<usize>) -> (same: bool)
    ensures
        same == (a@ == b@),
{
    if a.len() != b.len() {
        return false;
    }
    let mut k: usize = 0;
    while k < a.len()
        invariant
            0 <= k <= a@.len(),
            a@.len() == b@.len(),
            forall|i: int| 0 <= i < k ==> a@[i] == b@[i],
        decreases a@.len() - k,
    {
        if a[k] != b[k] {
            return false;
        }
        k += 1;
    }
    assert(a@ =~= b@);
    true
}

/// Whether two trees are the same.
pub fn check_same_tree(a: &JoinTree, b: &JoinTree) -> (same: bool)
    ensures
        same == (a@ == b@),
    decreases a,
{
    match (a, b) {
        (JoinTree::Relation { index: i }, JoinTree::Relation { index: j }) => *i == *j,
        (
            JoinTree::Join { left: al, right: ar, conditions: ac },
            JoinTree::Join { left: bl, right: br, conditions: bc },
        ) => check_same_tree(al, bl) && check_same_tree(ar, br) && same_list(ac, bc),
        _ => false,
    }
}

/// The cheapest way found to join a set of relations. Sets of relations are
/// numbers: bit `i` of the number says whether relation `i` is in the set.
#[derive(Clone, Copy, Debug, PartialEq, Eq, Structural)]
pub struct Entry {
    /// The rows that all the joins below give, together.
    pub cost: u64,
    /// The rows that the set is taken to give.
    pub cardinality: u64,
    /// The relation, for a set of one.
    pub leaf: Option<usize>,
    /// The two sets that are joined, for a larger set.
    pub left: usize,
    pub right: usize,
}

/// The sets of one relation each, for the first `n` relations: `2^i` for
/// relation `i`.
pub open spec fn single_sets(n: int) -> Seq<usize> {
    Seq::new(n as nat, |i: int| pow2(i as nat) as usize)
}

/// The relations of the first `j` of `relations`, as a set; nothing if one
/// of them has no set of its own.
pub open spec fn relation_set(relations: Seq<usize>, bits: Seq<usize>, j: int) -> Option<usize>
    decreases j,
{
    if j <= 0 {
        Some(0usize)
    } else {
        match relation_set(relations, bits, j - 1) {
            None => None,
            Some(set) => if relations[j - 1] < bits.len() {
                Some(set | bits[relations[j - 1] as int])
            } else {
                None
            },
        }
    }
}

/// For each of the first `p` conditions, the relations it mentions, as a
/// set; the empty set for a condition without a mark.
pub open spec fn condition_sets(
    conditions: Seq<JoinCondition>,
    marks: Seq<bool>,
    bits: Seq<usize>,
    p: int,
) -> Option<Seq<usize>>
    decreases p,
{
    if p <= 0 {
        Some(Seq::empty())
    } else {
        match condition_sets(conditions, marks, bits, p - 1) {
            None => None,
            Some(sets) => if p - 1 < marks.len() && marks[p - 1] {
                match relation_set(
                    conditions[p - 1].relations@,
                    bits,
                    conditions[p - 1].relations@.len() as int,
                ) {
                    None => None,
                    Some(set) => Some(sets.push(set)),
                }
            } else {
                Some(sets.push(0usize))
            },
        }
    }
}

pub proof fn lemma_relation_set_fails(relations: Seq<usize>, bits: Seq<usize>, j: int, k: int)
    requires
        0 <= j <= k,
        relation_set(relations, bits, j) is None,
    ensures
        relation_set(relations, bits, k) is None,
    decreases k - j,
{
    if j < k {
        lemma_relation_set_fails(relations, bits, j, k - 1);
    }
}

pub proof fn lemma_condition_sets_fails(
    conditions: Seq<JoinCondition>,
    marks: Seq<bool>,
    bits: Seq<usize>,
    p: int,
    q: int,
)
    requires
        0 <= p <= q,
        condition_sets(conditions, marks, bits, p) is None,
    ensures
        condition_sets(conditions, marks, bits, q) is None,
    decreases q - p,
{
    if p < q {
        lemma_condition_sets_fails(conditions, marks, bits, p, q - 1);
    }
}

/// The marked ones of the first `i` relations, as a set.
pub open spec fn full_set(marks: Seq<bool>, bits: Seq<usize>, i: int) -> usize
    decreases i,
{
    if i <= 0 {
        0usize
    } else if marks[i - 1] {
        full_set(marks, bits, i - 1) | bits[i - 1]
    } else {
        full_set(marks, bits, i - 1)
    }
}

/// The table of `size` sets in which the marked ones of the first `i`
/// relations stand, each as a set of its own.
pub open spec fn leaf_table(
    cardinalities: Seq<u64>,
    marks: Seq<bool>,
    bits: Seq<usize>,
    size: int,
    i: int,
) -> Seq<Option<Entry>>
    decreases i,
{
    if i <= 0 {
        Seq::new(size as nat, |k: int| None::<Entry>)
    } else {
        let below = leaf_table(cardinalities, marks, bits, size, i - 1);
        if marks[i - 1] && bits[i - 1] < size {
            below.update(
                bits[i - 1] as int,
                Some(
                    Entry {
                        cost: 0,
                        cardinality: cardinalities[i - 1],
                        leaf: Some((i - 1) as usize),
                        left: 0,
                        right: 0,
                    },
                ),
            )
        } else {
            below
        }
    }
}

/// Whether the condition that mentions `set` ties `left` and `right`
/// together: all the relations it mentions are in one of the two, and some
/// in each.
pub open spec fn ties(set: usize, left: usize, right: usize) -> bool {
    set != 0 && set & (left | right) == set && set & left != 0 && set & right != 0
}

/// Whether one of the conditions from the `p`-th on ties `left` and `right`
/// together.
pub open spec fn connected(sets: Seq<usize>, left: usize, right: usize, p: int) -> bool
    decreases sets.len() - p,
{
    if p < 0 || p >= sets.len() {
        false
    } else if ties(sets[p], left, right) {
        true
    } else {
        connected(sets, left, right, p + 1)
    }
}

/// The join of two sets: it is taken to give a tenth of the pairs of rows of
/// its sides, and one row at least; its cost is that of its sides and the
/// rows it gives.
pub open spec fn joined(l: Entry, r: Entry, left: usize, right: usize) -> Entry {
    let pairs = match l.cardinality.checked_mul(r.cardinality) {
        Some(product) => product / 10,
        None => u64::MAX / 10,
    };
    let cardinality = if pairs == 0 {
        1u64
    } else {
        pairs
    };
    Entry {
        cost: l.cost.saturating_add(r.cost).saturating_add(cardinality),
        cardinality,
        leaf: None,
        left,
        right,
    }
}

/// The number before `x`; 0 for 0.
pub open spec fn before(x: usize) -> usize {
    if x == 0 {
        0usize
    } else {
        (x - 1) as usize
    }
}

/// The set to try after `left` as one side of `set`: the next smaller part
/// of `set`, or 0 when there is none.
pub open spec fn next_part(set: usize, left: usize) -> usize {
    if (before(left) & set) >= left {
        0usize
    } else {
        before(left) & set
    }
}

/// The cheapest way to join `set` from two parts that a condition ties
/// together, the first part being `left` or a smaller one, or `best` if that
/// is cheaper; of two ways that cost the same, the one that is tried first.
pub open spec fn best_split(
    table: Seq<Option<Entry>>,
    sets: Seq<usize>,
    set: usize,
    left: usize,
    best: Option<Entry>,
) -> Option<Entry>
    decreases left,
{
    if left == 0 {
        best
    } else {
        let right = set ^ left;
        let found = if left < set && right < set && right > 0 && set < table.len() {
            match (table[left as int], table[right as int]) {
                (Some(l), Some(r)) => if connected(sets, left, right, 0) && (best matches Some(b)
                    ==> joined(l, r, left, right).cost < b.cost) {
                    Some(joined(l, r, left, right))
                } else {
                    best
                },
                _ => best,
            }
        } else {
            best
        };
        best_split(table, sets, set, next_part(set, left), found)
    }
}

/// The table after the sets below `set` were gone through, in rising order:
/// each set of marked relations that has no way yet gets the cheapest way to
/// join it from two smaller sets.
pub open spec fn filled(table: Seq<Option<Entry>>, sets: Seq<usize>, full: usize, set: int) -> Seq<
    Option<Entry>,
>
    decreases set,
{
    if set <= 1 {
        table
    } else {
        let before = filled(table, sets, full, set - 1);
        let s = (set - 1) as usize;
        if s < before.len() && s & full == s && before[s as int] is None {
            before.update(s as int, best_split(before, sets, s, self::before(s) & s, None))
        } else {
            before
        }
    }
}

/// What enumerating the orders of a statement leaves behind.
pub struct Enumerated {
    pub table: Seq<Option<Entry>>,
    /// For each condition, the relations it mentions, as a set.
    pub sets: Seq<usize>,
    /// The relations to join, as a set.
    pub full: usize,
}

/// The table of the cheapest ways to join the marked relations, or nothing
/// if orders are not enumerated: for no relation at all, for more relations
/// than `max_relations` or than 16, or if a marked condition mentions a
/// relation that the statement does not have.
pub open spec fn enumerated(
    cardinalities: Seq<u64>,
    conditions: Seq<JoinCondition>,
    max_relations: usize,
    relations: Seq<bool>,
    applied: Seq<bool>,
) -> Option<Enumerated> {
    let n = cardinalities.len() as int;
    if n == 0 || n > max_relations || relations.len() != n || n > 16 {
        None
    } else {
        let bits = single_sets(n);
        match condition_sets(conditions, applied, bits, conditions.len() as int) {
            None => None,
            Some(sets) => {
                let size = pow2(n as nat) as int;
                let full = full_set(relations, bits, n);
                if full == 0 || full >= size {
                    None
                } else {
                    Some(
                        Enumerated {
                            table: filled(
                                leaf_table(cardinalities, relations, bits, size, n),
                                sets,
                                full,
                                size,
                            ),
                            sets,
                            full,
                        },
                    )
                }
            },
        }
    }
}

/// Of the first `p` conditions, those that are applied at the join of
/// `left` and `right`: the ones that mention relations of the two only and
/// are not applied at a join below.
pub open spec fn conditions_at(
    sets: Seq<usize>,
    left: usize,
    left_is_join: bool,
    right: usize,
    right_is_join: bool,
    set: usize,
    p: int,
) -> Seq<usize>
    decreases p,
{
    if p <= 0 {
        Seq::empty()
    } else {
        let below = conditions_at(sets, left, left_is_join, right, right_is_join, set, p - 1);
        let mentioned = sets[p - 1];
        if mentioned != 0 && mentioned & set == mentioned && !(left_is_join && mentioned & left
            == mentioned) && !(right_is_join && mentioned & right == mentioned) {
            below.push((p - 1) as usize)
        } else {
            below
        }
    }
}

/// Whether the table holds a join for `set`.
pub open spec fn is_join(table: Seq<Option<Entry>>, set: usize) -> bool {
    set < table.len() && (table[set as int] matches Some(e) && e.leaf is None)
}

/// The tree that the table holds for `set`.
pub open spec fn tree_of(table: Seq<Option<Entry>>, sets: Seq<usize>, set: usize) -> Option<
    JoinTreeView,
>
    decreases set,
{
    if set >= table.len() {
        None
    } else {
        match table[set as int] {
            None => None,
            Some(entry) => match entry.leaf {
                Some(index) => Some(JoinTreeView::Relation { index }),
                None => if entry.left >= set || entry.right >= set {
                    None
                } else {
                    match (tree_of(table, sets, entry.left), tree_of(table, sets, entry.right)) {
                        (Some(left), Some(right)) => Some(
                            JoinTreeView::Join {
                                left: Box::new(left),
                                right: Box::new(right),
                                conditions: conditions_at(
                                    sets,
                                    entry.left,
                                    is_join(table, entry.left),
                                    entry.right,
                                    is_join(table, entry.right),
                                    set,
                                    sets.len() as int,
                                ),
                            },
                        ),
                        _ => None,
                    }
                },
            },
        }
    }
}

/// The tree that reordering proposes for `tree`, if it proposes one.
pub open spec fn proposed(
    cardinalities: Seq<u64>,
    conditions: Seq<JoinCondition>,
    max_relations: usize,
    tree: JoinTreeView,
) -> Option<JoinTreeView> {
    match enumerated(
        cardinalities,
        conditions,
        max_relations,
        relation_marks(tree, cardinalities.len() as int),
        condition_marks(tree, conditions.len() as int),
    ) {
        None => None,
        Some(found) => tree_of(found.table, found.sets, found.full),
    }
}

/// What reordering makes of `tree`: the tree to use, and whether it is
/// another tree. The proposed tree is taken if it is another tree and a
/// proper join tree over the same relations with the same conditions.
pub open spec fn reordered(
    cardinalities: Seq<u64>,
    conditions: Seq<JoinCondition>,
    max_relations: usize,
    tree: JoinTreeView,
) -> (JoinTreeView, bool) {
    let mentions = mentioned(conditions);
    let n = cardinalities.len() as int;
    let m = conditions.len() as int;
    if !proper(tree, mentions, n, m) {
        (tree, false)
    } else {
        match proposed(cardinalities, conditions, max_relations, tree) {
            None => (tree, false),
            Some(candidate) => if proper(candidate, mentions, n, m) && leaves(candidate) == leaves(
                tree,
            ) && applied(candidate) == applied(tree) && candidate != tree {
                (candidate, true)
            } else {
                (tree, false)
            },
        }
    }
}

/// What reordering gives in place of a tree gives the same rows as the
/// tree, whatever tuples the relations hold, as long as each condition only
/// looks at the relations it mentions.
pub proof fn lemma_reordered_keeps_rows(
    cardinalities: Seq<u64>,
    conditions: Seq<JoinCondition>,
    max_relations: usize,
    tree: JoinTreeView,
    sizes: Seq<int>,
    holds: spec_fn(int, Binding) -> bool,
)
    requires
        local(holds, mentioned(conditions)),
    ensures
        rows(reordered(cardinalities, conditions, max_relations, tree).0, sizes, holds) == rows(
            tree,
            sizes,
            holds,
        ),
{
    let r = reordered(cardinalities, conditions, max_relations, tree);
    if r.1 {
        lemma_reordering_keeps_rows(tree, r.0, sizes, holds, mentioned(conditions));
    }
}

/// The sets of one relation each, as numbers. None for more than 16
/// relations.
fn build_single_sets(n: usize) -> (bits: Option<Vec<usize>>)
    ensures
        n <= 16 ==> (bits matches Some(b) && b@ == single_sets(n as int)),
        n > 16 ==> bits is None,
{
    if n > 16 {
        return None;
    }
    let mut bits: Vec<usize> = Vec::with_capacity(n);
    let mut bit: usize = 1;
    let mut i: usize = 0;
    proof {
        lemma2_to64();
    }
    while i < n
        invariant
            0 <= i <= n <= 16,
            bits@ == single_sets(i as int),
            bit == pow2(i as nat),
            bit <= 65536,
        decreases n - i,
    {
        bits.push(bit);
        proof {
            lemma2_to64();
            lemma_pow2_unfold((i + 1) as nat);
            if i + 1 < 16 {
                lemma_pow2_strictly_increases((i + 1) as nat, 16);
            }
            assert(bits@ =~= single_sets(i as int + 1));
        }
        bit = bit * 2;
        i += 1;
    }
    Some(bits)
}

impl DPhpy {
    pub fn new(cardinalities: Vec<u64>, conditions: Vec<JoinCondition>,
        max_relations: usize) -> (dp:
        Self)
        ensures
            dp.cardinalities == cardinalities,
            dp.conditions == conditions,
            dp.max_relations == max_relations,
    {
        DPhpy { cardinalities, conditions, max_relations }
    }

    /// The relations that each condition mentions.
    pub open spec fn mentions(&self) -> spec_fn(int) -> Set<int> {
        mentioned(self.conditions@)
    }

    /// Checks that `tree` is a proper join tree over relations and
    /// conditions of the statement, and marks the ones it has.
    pub fn check(&self, tree: &JoinTree) -> (r: Option<Marks>)
        ensures
            r is Some <==> proper(
                tree@,
                self.mentions(),
                self.cardinalities@.len() as int,
                self.conditions@.len() as int,
            ),
            r matches Some(marks) ==> marked(
                tree@,
                marks,
                self.cardinalities@.len() as int,
                self.conditions@.len() as int,
            ),
        decreases tree,
    {
        let n = self.cardinalities.len();
        let m = self.conditions.len();
        match tree {
            JoinTree::Relation { index } => {
                if *index >= n {
                    assert(leaves(tree@).contains(*index as int));
                    return None;
                }
                let mut relations = no_marks(n);
                relations.set(*index, true);
                let conditions = no_marks(m);
                Some(Marks { relations, conditions })
            },
            JoinTree::Join { left, right, conditions } => {
                let l = match self.check(left) {
                    Some(marks) => marks,
                    None => {
                        proof {
                            if proper(tree@, self.mentions(), n as int, m as int) {
                                lemma_proper_below(tree@, self.mentions(), n as int, m as int);
                            }
                        }
                        return None;
                    },
                };
                let r = match self.check(right) {
                    Some(marks) => marks,
                    None => {
                        proof {
                            if proper(tree@, self.mentions(), n as int, m as int) {
                                lemma_proper_below(tree@, self.mentions(), n as int, m as int);
                            }
                        }
                        return None;
                    },
                };
                let mut relations: Vec<bool> = Vec::with_capacity(n);
                let mut i: usize = 0;
                while i < n
                    invariant
                        0 <= i <= n,
                        *tree == (JoinTree::Join {
                            left: *left,
                            right: *right,
                            conditions: *conditions,
                        }),
                        marked(left@, l, n as int, m as int),
                        marked(right@, r, n as int, m as int),
                        l.relations@.len() == n,
                        r.relations@.len() == n,
                        relations@.len() == i,
                        forall|k: int| 0 <= k < i ==> !(l.relations@[k] && r.relations@[k]),
                        forall|k: int|
                            0 <= k < i ==> relations@[k] == (l.relations@[k] || r.relations@[k]),
                    decreases n - i,
                {
                    if l.relations[i] && r.relations[i] {
                        assert(leaves(left@).contains(i as int) && leaves(right@).contains(
                            i as int,
                        ));
                        return None;
                    }
                    relations.push(l.relations[i] || r.relations[i]);
                    i += 1;
                }
                let mut applied_here: Vec<bool> = Vec::with_capacity(m);
                let mut p: usize = 0;
                while p < m
                    invariant
                        0 <= p <= m,
                        l.conditions@.len() == m,
                        r.conditions@.len() == m,
                        applied_here@.len() == p,
                        forall|k: int|
                            0 <= k < p ==> applied_here@[k] == (l.conditions@[k]
                                || r.conditions@[k]),
                    decreases m - p,
                {
                    applied_here.push(l.conditions[p] || r.conditions[p]);
                    p += 1;
                }
                let mut k: usize = 0;
                while k < conditions.len()
                    invariant
                        0 <= k <= conditions@.len(),
                        *tree == (JoinTree::Join {
                            left: *left,
                            right: *right,
                            conditions: *conditions,
                        }),
                        marked(left@, l, n as int, m as int),
                        marked(right@, r, n as int, m as int),
                        forall|x: int|
                            0 <= x < n ==> relations@[x] == (l.relations@[x] || r.relations@[x]),
                        n == self.cardinalities@.len(),
                        m == self.conditions@.len(),
                        relations@.len() == n,
                        l.conditions@.len() == m,
                        r.conditions@.len() == m,
                        applied_here@.len() == m,
                        forall|q: int|
                            0 <= q < m ==> applied_here@[q] == (l.conditions@[q]
                                || r.conditions@[q] || exists|j: int|
                                0 <= j < k && #[trigger] conditions@[j] == q),
                        forall|j: int| 0 <= j < k ==> (#[trigger] conditions@[j]) < m,
                        forall|j: int, x: int|
                            0 <= j < k && #[trigger] mentions_relation(
                                self.conditions@,
                                conditions@[j] as int,
                                x,
                            ) ==> 0 <= x < n && relations@[x],
                    decreases conditions@.len() - k,
                {
                    let condition = conditions[k];
                    assert(listed(conditions@).contains(condition as int));
                    if condition >= m {
                        assert(applied(tree@).contains(condition as int));
                        return None;
                    }
                    let mentioned = &self.conditions[condition].relations;
                    let mut j: usize = 0;
                    while j < mentioned.len()
                        invariant
                            0 <= j <= mentioned@.len(),
                            *tree == (JoinTree::Join {
                                left: *left,
                                right: *right,
                                conditions: *conditions,
                            }),
                            marked(left@, l, n as int, m as int),
                            marked(right@, r, n as int, m as int),
                            forall|x: int|
                                0 <= x < n ==> relations@[x] == (l.relations@[x]
                                    || r.relations@[x]),
                            listed(conditions@).contains(condition as int),
                            condition < m,
                            m == self.conditions@.len(),
                            *mentioned == self.conditions@[condition as int].relations,
                            relations@.len() == n,
                            forall|i: int|
                                0 <= i < j ==> (#[trigger] mentioned@[i]) < n
                                    && relations@[mentioned@[i] as int],
                        decreases mentioned@.len() - j,
                    {
                        let relation = mentioned[j];
                        if relation >= n || !relations[relation] {
                            proof {
                                assert(mentions_relation(
                                    self.conditions@,
                                    condition as int,
                                    relation as int,
                                ));
                                assert(self.mentions()(condition as int).contains(relation as int));
                                assert(!(leaves(left@) + leaves(right@)).contains(relation as int));
                            }
                            return None;
                        }
                        j += 1;
                    }
                    let ghost before = applied_here@;
                    applied_here.set(condition, true);
                    k += 1;
                    assert forall|q: int| 0 <= q < m implies applied_here@[q] == (l.conditions@[q]
                        || r.conditions@[q] || exists|j: int|
                        0 <= j < k && #[trigger] conditions@[j] == q) by {
                        if q == condition {
                            assert(conditions@[k - 1] == q);
                        } else {
                            assert(applied_here@[q] == before[q]);
                        }
                    }
                }
                let marks = Marks { relations, conditions: applied_here };
                proof {
                    assert forall|p: int| listed(conditions@).contains(p) implies (
                    #[trigger] self.mentions()(p)).subset_of(leaves(left@) + leaves(right@)) by {
                        let j = choose|j: int| 0 <= j < conditions@.len()
                            && #[trigger] conditions@[j] == p;
                        assert forall|x: int| self.mentions()(p).contains(x) implies (leaves(left@)
                            + leaves(right@)).contains(x) by {
                            assert(mentions_relation(self.conditions@, conditions@[j] as int, x));
                            assert(relations@[x]);
                            assert(leaves(left@).contains(x) || leaves(right@).contains(x));
                        }
                    }
                    assert(leaves(left@).disjoint(leaves(right@))) by {
                        assert forall|x: int|
                            !(leaves(left@).contains(x) && leaves(right@).contains(x)) by {
                            if leaves(left@).contains(x) && leaves(right@).contains(x) {
                                assert(l.relations@[x] && r.relations@[x]);
                            }
                        }
                    }
                    assert forall|i: int| #[trigger] leaves(tree@).contains(i) <==> 0 <= i < n
                        && marks.relations@[i] by {
                        assert(leaves(tree@).contains(i) == (leaves(left@).contains(i) || leaves(
                            right@,
                        ).contains(i)));
                    }
                    assert forall|p: int| #[trigger] applied(tree@).contains(p) <==> 0 <= p < m
                        && marks.conditions@[p] by {
                        assert(applied(tree@).contains(p) == (applied(left@).contains(p)
                            || applied(right@).contains(p) || listed(conditions@).contains(p)));
                        if listed(conditions@).contains(p) {
                            let j = choose|j: int|
                                0 <= j < conditions@.len() && #[trigger] conditions@[j] == p;
                            assert(0 <= p < m);
                        }
                    }
                }
                Some(marks)
            },
        }
    }

    /// The relations that each marked condition mentions, as a set.
    fn build_condition_sets(&self, marks: &Vec<bool>,
        bits: &Vec<usize>) -> (sets: Option<Vec<usize>>)
        ensures
            (match condition_sets(
                self.conditions@,
                marks@,
                bits@,
                self.conditions@.len() as int,
            ) {
                Some(s) => sets matches Some(v) && v@ == s,
                None => sets is None,
            }),
    {
        let mut sets: Vec<usize> = Vec::with_capacity(self.conditions.len());
        let mut p: usize = 0;
        while p < self.conditions.len()
            invariant
                0 <= p <= self.conditions@.len(),
                condition_sets(self.conditions@, marks@, bits@, p as int) == Some(sets@),
            decreases self.conditions@.len() - p,
        {
            let mut set: usize = 0;
            if p < marks.len() && marks[p] {
                let mentioned = &self.conditions[p].relations;
                let mut j: usize = 0;
                while j < mentioned.len()
                    invariant
                        0 <= j <= mentioned@.len(),
                        0 <= p < self.conditions@.len(),
                        p < marks@.len() && marks@[p as int],
                        *mentioned == self.conditions@[p as int].relations,
                        condition_sets(self.conditions@, marks@, bits@, p as int) == Some(sets@),
                        relation_set(mentioned@, bits@, j as int) == Some(set),
                    decreases mentioned@.len() - j,
                {
                    if mentioned[j] >= bits.len() {
                        proof {
                            lemma_relation_set_fails(
                                mentioned@,
                                bits@,
                                j as int + 1,
                                mentioned@.len() as int,
                            );
                            lemma_condition_sets_fails(
                                self.conditions@,
                                marks@,
                                bits@,
                                p as int + 1,
                                self.conditions@.len() as int,
                            );
                        }
                        return None;
                    }
                    set = set | bits[mentioned[j]];
                    j += 1;
                }
            }
            sets.push(set);
            p += 1;
        }
        Some(sets)
    }

    /// Whether a condition ties the two sets together.
    fn check_connected(sets: &Vec<usize>, left: usize, right: usize) -> (b: bool)
        ensures
            b == connected(sets@, left, right, 0),
    {
        let mut p: usize = 0;
        while p < sets.len()
            invariant
                0 <= p <= sets@.len(),
                connected(sets@, left, right, 0) == connected(sets@, left, right, p as int),
            decreases sets@.len() - p,
        {
            let set = sets[p];
            if set != 0 && set & (left | right) == set && set & left != 0 && set & right != 0 {
                return true;
            }
            p += 1;
        }
        false
    }

    /// Looks for the cheapest order in which to join the marked relations,
    /// two sets at a time that a condition ties together. The cost of an
    /// order is the number of rows that its joins give.
    fn enumerate(&self, marks: &Marks) -> (r: Option<(Vec<Option<Entry>>, Vec<usize>, usize)>)
        ensures
            (match enumerated(
                self.cardinalities@,
                self.conditions@,
                self.max_relations,
                marks.relations@,
                marks.conditions@,
            ) {
                Some(found) => r matches Some(t) && t.0@ == found.table && t.1@ == found.sets
                    && t.2 == found.full,
                None => r is None,
            }),
    {
        let n = self.cardinalities.len();
        if n == 0 || n > self.max_relations || marks.relations.len() != n {
            return None;
        }
        let bits = build_single_sets(n)?;
        let sets = self.build_condition_sets(&marks.conditions, &bits)?;
        let mut size: usize = 1;
        let mut full: usize = 0;
        let mut i: usize = 0;
        proof {
            lemma2_to64();
        }
        while i < n
            invariant
                0 <= i <= n <= 16,
                bits@ == single_sets(n as int),
                marks.relations@.len() == n,
                size == pow2(i as nat),
                size <= 65536,
                full == full_set(marks.relations@, bits@, i as int),
            decreases n - i,
        {
            proof {
                lemma2_to64();
                lemma_pow2_unfold((i + 1) as nat);
                if i + 1 < 16 {
                    lemma_pow2_strictly_increases((i + 1) as nat, 16);
                }
            }
            size = size * 2;
            if marks.relations[i] {
                full = full | bits[i];
            }
            i += 1;
        }
        if full == 0 || full >= size {
            return None;
        }
        let mut table: Vec<Option<Entry>> = Vec::with_capacity(size);
        let mut k: usize = 0;
        while k < size
            invariant
                0 <= k <= size,
                table@ =~= Seq::new(k as nat, |j: int| None::<Entry>),
            decreases size - k,
        {
            table.push(None);
            k += 1;
        }
        let mut i: usize = 0;
        while i < n
            invariant
                0 <= i <= n,
                bits@.len() == n,
                marks.relations@.len() == n,
                self.cardinalities@.len() == n,
                table@.len() == size,
                table@ == leaf_table(
                    self.cardinalities@,
                    marks.relations@,
                    bits@,
                    size as int,
                    i as int,
                ),
            decreases n - i,
        {
            if marks.relations[i] && bits[i] < size {
                table.set(
                    bits[i],
                    Some(
                        Entry {
                            cost: 0,
                            cardinality: self.cardinalities[i],
                            leaf: Some(i),
                            left: 0,
                            right: 0,
                        },
                    ),
                );
            }
            i += 1;
        }
        let ghost leaves_only = table@;
        let mut set: usize = 1;
        while set < size
            invariant
                1 <= set <= size,
                table@.len() == size,
                table@ == filled(leaves_only, sets@, full, set as int),
            decreases size - set,
        {
            if set & full == set && table[set].is_none() {
                let ghost before = table@;
                let mut best: Option<Entry> = None;
                let mut left: usize = (set - 1) & set;
                while left > 0
                    invariant
                        table@ == before,
                        table@.len() == size,
                        set < size,
                        best_split(before, sets@, set, left, best) == best_split(
                            before,
                            sets@,
                            set,
                            self::before(set) & set,
                            None,
                        ),
                    decreases left,
                {
                    let right = set ^ left;
                    if left < set && right < set && right > 0 {
                        match (table[left], table[right]) {
                            (Some(l), Some(r)) => {
                                if Self::check_connected(&sets, left, right) {
                                    let pairs = match l.cardinality.checked_mul(r.cardinality) {
                                        Some(product) => product / 10,
                                        None => u64::MAX / 10,
                                    };
                                    let cardinality = if pairs == 0 {
                                        1
                                    } else {
                                        pairs
                                    };
                                    let cost = l.cost.saturating_add(r.cost).saturating_add(
                                        cardinality,
                                    );
                                    let cheaper = match best {
                                        Some(b) => cost < b.cost,
                                        None => true,
                                    };
                                    if cheaper {
                                        best = Some(
                                            Entry { cost, cardinality, leaf: None, left, right },
                                        );
                                    }
                                }
                            },
                            _ => {},
                        }
                    }
                    let next = (left - 1) & set;
                    left = if next >= left {
                        0
                    } else {
                        next
                    };
                }
                table.set(set, best);
            }
            set += 1;
        }
        Some((table, sets, full))
    }

    /// The tree that the table holds for `set`.
    fn build(table: &Vec<Option<Entry>>, sets: &Vec<usize>, set: usize) -> (tree: Option<JoinTree>)
        ensures
            (match tree_of(table@, sets@, set) {
                Some(t) => tree matches Some(found) && found@ == t,
                None => tree is None,
            }),
        decreases set,
    {
        if set >= table.len() {
            return None;
        }
        let entry = table[set]?;
        match entry.leaf {
            Some(index) => Some(JoinTree::Relation { index }),
            None => {
                if entry.left >= set || entry.right >= set {
                    return None;
                }
                let left = Self::build(table, sets, entry.left)?;
                let right = Self::build(table, sets, entry.right)?;
                let left_is_join = match table[entry.left] {
                    Some(e) => e.leaf.is_none(),
                    None => false,
                };
                let right_is_join = match table[entry.right] {
                    Some(e) => e.leaf.is_none(),
                    None => false,
                };
                // a condition is applied at the lowest join that has all the
                // relations it mentions
                let mut conditions: Vec<usize> = Vec::new();
                let mut p: usize = 0;
                while p < sets.len()
                    invariant
                        0 <= p <= sets@.len(),
                        conditions@ == conditions_at(
                            sets@,
                            entry.left,
                            left_is_join,
                            entry.right,
                            right_is_join,
                            set,
                            p as int,
                        ),
                    decreases sets@.len() - p,
                {
                    let mentioned = sets[p];
                    let below_left = left_is_join && mentioned & entry.left == mentioned;
                    let below_right = right_is_join && mentioned & entry.right == mentioned;
                    if mentioned != 0 && mentioned & set == mentioned && !below_left
                        && !below_right {
                        conditions.push(p);
                    }
                    p += 1;
                }
                Some(JoinTree::Join { left: Box::new(left), right: Box::new(right), conditions })
            },
        }
    }

    /// Reorders the joins of `tree`. Gives the tree to use and says whether
    /// it is another tree. Another tree joins the same relations under the
    /// same conditions, each applied where the relations it mentions are
    /// joined, so that it gives the same rows. The tree stays as it is if it
    /// is no proper join tree of the statement, if it joins more relations
    /// than orders are enumerated for, or if no order is found in which every
    /// join has a condition.
    pub fn optimize(&self, tree: JoinTree) -> (r: (JoinTree, bool))
        ensures
            (r.0@, r.1) == reordered(
                self.cardinalities@,
                self.conditions@,
                self.max_relations,
                tree@,
            ),
            !r.1 ==> r.0 == tree,
            r.1 ==> same_join(tree@, r.0@, self.mentions()) && r.0@ != tree@,
    {
        let marks = match self.check(&tree) {
            Some(marks) => marks,
            None => {
                return (tree, false);
            },
        };
        proof {
            assert(marks.relations@ =~= relation_marks(tree@, self.cardinalities@.len() as int));
            assert(marks.conditions@ =~= condition_marks(tree@, self.conditions@.len() as int));
        }
        let (table, sets, full) = match self.enumerate(&marks) {
            Some(found) => found,
            None => {
                return (tree, false);
            },
        };
        let candidate = match Self::build(&table, &sets, full) {
            Some(candidate) => candidate,
            None => {
                return (tree, false);
            },
        };
        match self.check(&candidate) {
            Some(found) => {
                let same_relations = same_marks(&found.relations, &marks.relations);
                let same_conditions = same_marks(&found.conditions, &marks.conditions);
                proof {
                    if same_relations {
                        assert(leaves(tree@) =~= leaves(candidate@));
                    } else if leaves(candidate@) == leaves(tree@) {
                        assert(found.relations@ =~= marks.relations@);
                    }
                    if same_conditions {
                        assert(applied(tree@) =~= applied(candidate@));
                    } else if applied(candidate@) == applied(tree@) {
                        assert(found.conditions@ =~= marks.conditions@);
                    }
                }
                if same_relations && same_conditions && !check_same_tree(&candidate, &tree) {
                    (candidate, true)
                } else {
                    (tree, false)
                }
            },
            None => (tree, false),
        }
    }
}

} // verus!

//! Row addresses inside the build side of a hash join, and the index that maps
//! ranges of build rows back to the blocks of the table they came from.

use vstd::prelude::*;

verus! {

/// A closed range `(first, last)` of row offsets in the flattened build side.
pub type Interval = (u32, u32);

/// One task of the final scan. With a non-empty list: the unmodified
/// intervals, each with the prefix of its block, that lie in the chunk whose
/// index is the second component. With an empty list: the block whose prefix is
/// the second component was matched as a whole.
pub type MergeIntoChunkPartialUnmodified = (Vec<(Interval, u64)>, u64);

/// A row of the build side: the chunk and the row inside it.
#[derive(Clone, Copy, Debug, PartialEq, Eq, Structural)]
pub struct RowPtr {
    pub chunk_index: u32,
    pub row_index: u32,
}

/// Every row of `lo..=hi` is tagged.
pub open spec fn all_tagged(hits: Seq<u8>, lo: int, hi: int) -> bool {
    forall|o: int| lo <= o <= hi ==> #[trigger] hits[o] != 0
}

/// No row of `lo..=hi` is tagged.
pub open spec fn none_tagged(hits: Seq<u8>, lo: int, hi: int) -> bool {
    forall|o: int| lo <= o <= hi ==> #[trigger] hits[o] == 0
}

/// Some rows of `lo..=hi` are tagged and some are not.
pub open spec fn partly_tagged(hits: Seq<u8>, lo: int, hi: int) -> bool {
    !all_tagged(hits, lo, hi) && !none_tagged(hits, lo, hi)
}

/// The maximal runs of untagged rows in `at..=hi`, in rising order, each paired
/// with `prefix`. `open` is the start of a run that reaches `at` from the left.
pub open spec fn untagged_runs(
    hits: Seq<u8>,
    at: int,
    hi: int,
    open: Option<int>,
    prefix: u64,
) -> Seq<(Interval, u64)>
    decreases hi - at + 1,
{
    if at > hi {
        match open {
            Some(s) => seq![((s as u32, hi as u32), prefix)],
            None => Seq::empty(),
        }
    } else if hits[at] == 0 {
        untagged_runs(
            hits,
            at + 1,
            hi,
            Some(
                match open {
                    Some(s) => s,
                    None => at,
                },
            ),
            prefix,
        )
    } else {
        (match open {
            Some(s) => seq![((s as u32, (at - 1) as u32), prefix)],
            None => Seq::empty(),
        }) + untagged_runs(hits, at + 1, hi, None, prefix)
    }
}

/// What one block contributes to the partial scan: its runs of untagged rows
/// if it is partly tagged, nothing otherwise.
pub open spec fn block_unmodified(hits: Seq<u8>, block: (Interval, u64)) -> Seq<(Interval, u64)> {
    if partly_tagged(hits, block.0.0 as int, block.0.1 as int) {
        untagged_runs(hits, block.0.0 as int, block.0.1 as int, None, block.1)
    } else {
        Seq::empty()
    }
}

/// The unmodified intervals of all partly tagged blocks, block by block.
pub open spec fn partial_unmodified(blocks: Seq<(Interval, u64)>, hits: Seq<u8>) -> Seq<
    (Interval, u64),
>
    decreases blocks.len(),
{
    if blocks.len() == 0 {
        Seq::empty()
    } else {
        partial_unmodified(blocks.drop_last(), hits) + block_unmodified(hits, blocks.last())
    }
}

/// The prefixes of the blocks whose rows are all tagged, in block order.
pub open spec fn matched_all_blocks(blocks: Seq<(Interval, u64)>, hits: Seq<u8>) -> Seq<u64>
    decreases blocks.len(),
{
    if blocks.len() == 0 {
        Seq::empty()
    } else {
        let rest = matched_all_blocks(blocks.drop_last(), hits);
        let b = blocks.last();
        if all_tagged(hits, b.0.0 as int, b.0.1 as int) {
            rest.push(b.1)
        } else {
            rest
        }
    }
}

/// The part of `item` that lies in the rows `lo..hi`, if any.
pub open spec fn clipped(item: (Interval, u64), lo: int, hi: int) -> Seq<(Interval, u64)> {
    let first = if item.0.0 as int > lo {
        item.0.0 as int
    } else {
        lo
    };
    let last = if (item.0.1 as int) < hi - 1 {
        item.0.1 as int
    } else {
        hi - 1
    };
    if first <= last {
        seq![((first as u32, last as u32), item.1)]
    } else {
        Seq::empty()
    }
}

/// The parts of `items` that lie in the rows `lo..hi`, in the order of `items`.
pub open spec fn pieces_in(items: Seq<(Interval, u64)>, lo: int, hi: int) -> Seq<(Interval, u64)>
    decreases items.len(),
{
    if items.len() == 0 {
        Seq::empty()
    } else {
        pieces_in(items.drop_last(), lo, hi) + clipped(items.last(), lo, hi)
    }
}

/// The first row of chunk `k`, where `ends[k]` is the number of rows in the
/// chunks up to and including `k`.
pub open spec fn chunk_start(ends: Seq<u32>, k: int) -> int {
    if k <= 0 {
        0
    } else {
        ends[k - 1] as int
    }
}

/// The tasks of the first `n` chunks: for each chunk that holds a piece, its
/// pieces and its index.
pub open spec fn chunk_tasks(items: Seq<(Interval, u64)>, ends: Seq<u32>, n: int) -> Seq<
    (Seq<(Interval, u64)>, u64),
>
    decreases n,
{
    if n <= 0 {
        Seq::empty()
    } else {
        let rest = chunk_tasks(items, ends, n - 1);
        let pieces = pieces_in(items, chunk_start(ends, n - 1), ends[n - 1] as int);
        if pieces.len() > 0 {
            rest.push((pieces, (n - 1) as u64))
        } else {
            rest
        }
    }
}

/// The view of a list of tasks: each list of intervals as a sequence.
pub open spec fn tasks_view(tasks: Seq<MergeIntoChunkPartialUnmodified>) -> Seq<
    (Seq<(Interval, u64)>, u64),
> {
    tasks.map_values(|t: MergeIntoChunkPartialUnmodified| (t.0@, t.1))
}

/// Row `o` lies in one of the intervals of `items`.
pub open spec fn covers(items: Seq<(Interval, u64)>, o: int) -> bool {
    exists|k: int| 0 <= k < items.len() && (#[trigger] items[k]).0.0 <= o <= items[k].0.1
}

/// Row `o` lies in a block of `blocks` whose rows are all tagged.
pub open spec fn in_matched_block(blocks: Seq<(Interval, u64)>, hits: Seq<u8>, o: int) -> bool {
    exists|i: int|
        0 <= i < blocks.len() && (#[trigger] blocks[i]).0.0 <= o <= blocks[i].0.1 && all_tagged(
            hits,
            blocks[i].0.0 as int,
            blocks[i].0.1 as int,
        )
}

/// Row `o` lies in a block of `blocks` that is partly tagged.
pub open spec fn in_partial_block(blocks: Seq<(Interval, u64)>, hits: Seq<u8>, o: int) -> bool {
    exists|i: int|
        0 <= i < blocks.len() && (#[trigger] blocks[i]).0.0 <= o <= blocks[i].0.1
            && partly_tagged(hits, blocks[i].0.0 as int, blocks[i].0.1 as int)
}

/// Every block of `blocks` is non-empty and ends before row `rows`.
pub open spec fn blocks_within(blocks: Seq<(Interval, u64)>, rows: int) -> bool {
    forall|i: int| 0 <= i < blocks.len() ==> (#[trigger] blocks[i]).0.0 <= blocks[i].0.1 < rows
}

pub proof fn lemma_covers_concat(a: Seq<(Interval, u64)>, b: Seq<(Interval, u64)>, o: int)
    ensures
        covers(a + b, o) <==> covers(a, o) || covers(b, o),
{
    if covers(a + b, o) {
        let k = choose|k: int| 0 <= k < (a + b).len()
            && (#[trigger] (a + b)[k]).0.0 <= o <= (a + b)[k].0.1;
        if k < a.len() {
            assert(a[k] == (a + b)[k]);
        } else {
            assert(b[k - a.len()] == (a + b)[k]);
        }
    }
    if covers(a, o) {
        let k = choose|k: int| 0 <= k < a.len() && (#[trigger] a[k]).0.0 <= o <= a[k].0.1;
        assert((a + b)[k] == a[k]);
    }
    if covers(b, o) {
        let k = choose|k: int| 0 <= k < b.len() && (#[trigger] b[k]).0.0 <= o <= b[k].0.1;
        assert((a + b)[k + a.len()] == b[k]);
    }
}

/// The runs of untagged rows hold exactly the untagged rows of the range they
/// were taken from, and carry the prefix they were given.
pub proof fn lemma_untagged_runs(hits: Seq<u8>, at: int, hi: int, open: Option<int>, prefix: u64)
    requires
        0 <= at <= hi + 1,
        hi < hits.len(),
        hi <= u32::MAX,
        open matches Some(s) ==> 0 <= s < at && none_tagged(hits, s, at - 1),
    ensures
        forall|o: int| #[trigger]
            covers(untagged_runs(hits, at, hi, open, prefix), o) <==> (match open {
                Some(s) => s,
                None => at,
            }) <= o <= hi && hits[o] == 0,
        forall|k: int|
            0 <= k < untagged_runs(hits, at, hi, open, prefix).len() ==> (
            #[trigger] untagged_runs(hits, at, hi, open, prefix)[k]).1 == prefix,
    decreases hi - at + 1,
{
    let runs = untagged_runs(hits, at, hi, open, prefix);
    let from = match open {
        Some(s) => s,
        None => at,
    };
    if at > hi {
        match open {
            Some(s) => {
                assert(runs =~= seq![((s as u32, hi as u32), prefix)]);
                assert forall|o: int| #[trigger] covers(runs, o) <==> from <= o <= hi
                    && hits[o] == 0 by {
                    if from <= o <= hi {
                        assert(runs[0].0.0 <= o <= runs[0].0.1);
                    }
                }
            },
            None => {
                assert(runs =~= Seq::empty());
            },
        }
    } else if hits[at] == 0 {
        let next = Some(from);
        assert(none_tagged(hits, from, at));
        lemma_untagged_runs(hits, at + 1, hi, next, prefix);
        assert(runs == untagged_runs(hits, at + 1, hi, next, prefix));
        assert forall|o: int| #[trigger] covers(runs, o) <==> from <= o <= hi && hits[o] == 0 by {}
    } else {
        let head: Seq<(Interval, u64)> = match open {
            Some(s) => seq![((s as u32, (at - 1) as u32), prefix)],
            None => Seq::empty(),
        };
        let tail = untagged_runs(hits, at + 1, hi, None, prefix);
        assert(runs == head + tail);
        lemma_untagged_runs(hits, at + 1, hi, None, prefix);
        assert forall|o: int| #[trigger] covers(runs, o) <==> from <= o <= hi && hits[o] == 0 by {
            lemma_covers_concat(head, tail, o);
            assert(covers(tail, o) <==> at + 1 <= o <= hi && hits[o] == 0);
            match open {
                Some(s) => {
                    assert(head[0] == ((s as u32, (at - 1) as u32), prefix));
                    if s <= o <= at - 1 {
                        assert(head[0].0.0 <= o <= head[0].0.1);
                    }
                    assert(covers(head, o) <==> s <= o <= at - 1);
                },
                None => {
                    assert(!covers(head, o));
                },
            }
        }
        assert forall|k: int| 0 <= k < runs.len() implies (#[trigger] runs[k]).1 == prefix by {
            if k >= head.len() {
                assert(runs[k] == tail[k - head.len()]);
            } else {
                assert(runs[k] == head[k]);
            }
        }
    }
}

/// The unmodified intervals hold exactly the untagged rows of the partly
/// tagged blocks.
pub proof fn lemma_partial_unmodified(blocks: Seq<(Interval, u64)>, hits: Seq<u8>, o: int)
    requires
        blocks_within(blocks, hits.len() as int),
    ensures
        covers(partial_unmodified(blocks, hits), o) <==> in_partial_block(blocks, hits, o)
            && hits[o] == 0,
    decreases blocks.len(),
{
    if blocks.len() > 0 {
        let rest = blocks.drop_last();
        let b = blocks.last();
        assert(blocks_within(rest, hits.len() as int)) by {
            assert forall|i: int| 0 <= i < rest.len() implies (#[trigger] rest[i]).0.0
                <= rest[i].0.1 < hits.len() by {
                assert(rest[i] == blocks[i]);
            }
        }
        lemma_partial_unmodified(rest, hits, o);
        lemma_covers_concat(partial_unmodified(rest, hits), block_unmodified(hits, b), o);
        assert(blocks[blocks.len() - 1] == b);
        let partly = partly_tagged(hits, b.0.0 as int, b.0.1 as int);
        if partly {
            lemma_untagged_runs(hits, b.0.0 as int, b.0.1 as int, None, b.1);
        }
        if in_partial_block(blocks, hits, o) {
            let i = choose|i: int|
                0 <= i < blocks.len() && (#[trigger] blocks[i]).0.0 <= o <= blocks[i].0.1
                    && partly_tagged(hits, blocks[i].0.0 as int, blocks[i].0.1 as int);
            if i < rest.len() {
                assert(rest[i] == blocks[i]);
            }
        }
        if in_partial_block(rest, hits, o) {
            let i = choose|i: int|
                0 <= i < rest.len() && (#[trigger] rest[i]).0.0 <= o <= rest[i].0.1
                    && partly_tagged(hits, rest[i].0.0 as int, rest[i].0.1 as int);
            assert(rest[i] == blocks[i]);
        }
    }
}

/// The blocks reported as matched as a whole are those whose rows are all
/// tagged: a prefix is reported exactly if it names such a block.
pub proof fn lemma_matched_all_blocks(blocks: Seq<(Interval, u64)>, hits: Seq<u8>, prefix: u64)
    ensures
        matched_all_blocks(blocks, hits).contains(prefix) <==> exists|i: int|
            0 <= i < blocks.len() && (#[trigger] blocks[i]).1 == prefix && all_tagged(
                hits,
                blocks[i].0.0 as int,
                blocks[i].0.1 as int,
            ),
    decreases blocks.len(),
{
    if blocks.len() > 0 {
        let rest = blocks.drop_last();
        let b = blocks.last();
        lemma_matched_all_blocks(rest, hits, prefix);
        let got = matched_all_blocks(rest, hits);
        let all = all_tagged(hits, b.0.0 as int, b.0.1 as int);
        assert(blocks[blocks.len() - 1] == b);
        if matched_all_blocks(blocks, hits).contains(prefix) {
            if got.contains(prefix) {
                let i = choose|i: int|
                    0 <= i < rest.len() && (#[trigger] rest[i]).1 == prefix && all_tagged(
                        hits,
                        rest[i].0.0 as int,
                        rest[i].0.1 as int,
                    );
                assert(rest[i] == blocks[i]);
            } else {
                let k = choose|k: int| 0 <= k < got.push(b.1).len() && got.push(b.1)[k] == prefix;
                if k < got.len() {
                    assert(got[k] == prefix);
                }
            }
        }
        if exists|i: int|
            0 <= i < blocks.len() && (#[trigger] blocks[i]).1 == prefix && all_tagged(
                hits,
                blocks[i].0.0 as int,
                blocks[i].0.1 as int,
            ) {
            let i = choose|i: int|
                0 <= i < blocks.len() && (#[trigger] blocks[i]).1 == prefix && all_tagged(
                    hits,
                    blocks[i].0.0 as int,
                    blocks[i].0.1 as int,
                );
            if i < rest.len() {
                assert(rest[i] == blocks[i]);
                let k = choose|k: int| 0 <= k < got.len() && got[k] == prefix;
                if all {
                    assert(got.push(b.1)[k] == prefix);
                }
            } else {
                assert(got.push(b.1)[got.len() as int] == prefix);
            }
        }
    }
}

/// How the scan tasks classify the rows of a block: a row is tagged exactly if
/// its block was matched as a whole, or is partly tagged and the row lies
/// outside the unmodified intervals. The unmodified intervals hold untagged
/// rows only.
pub proof fn lemma_classification(blocks: Seq<(Interval, u64)>, hits: Seq<u8>, i: int, o: int)
    requires
        blocks_within(blocks, hits.len() as int),
        0 <= i < blocks.len(),
        blocks[i].0.0 <= o <= blocks[i].0.1,
    ensures
        hits[o] != 0 <==> all_tagged(hits, blocks[i].0.0 as int, blocks[i].0.1 as int) || (
        partly_tagged(hits, blocks[i].0.0 as int, blocks[i].0.1 as int) && !covers(
            partial_unmodified(blocks, hits),
            o,
        )),
        covers(partial_unmodified(blocks, hits), o) ==> hits[o] == 0,
{
    lemma_partial_unmodified(blocks, hits, o);
}

/// When no block is partly tagged, the rows that the scan tasks name, those of
/// the unmodified intervals and those of the blocks matched as a whole, are
/// exactly the tagged rows among the rows that the index covers.
pub proof fn lemma_round_trip(blocks: Seq<(Interval, u64)>, hits: Seq<u8>, i: int, o: int)
    requires
        blocks_within(blocks, hits.len() as int),
        forall|j: int|
            0 <= j < blocks.len() ==> !partly_tagged(
                hits,
                (#[trigger] blocks[j]).0.0 as int,
                blocks[j].0.1 as int,
            ),
        0 <= i < blocks.len(),
        blocks[i].0.0 <= o <= blocks[i].0.1,
    ensures
        (covers(partial_unmodified(blocks, hits), o) || in_matched_block(blocks, hits, o))
            <==> hits[o] != 0,
{
    lemma_partial_unmodified(blocks, hits, o);
    if in_matched_block(blocks, hits, o) {
        let j = choose|j: int|
            0 <= j < blocks.len() && (#[trigger] blocks[j]).0.0 <= o <= blocks[j].0.1
                && all_tagged(hits, blocks[j].0.0 as int, blocks[j].0.1 as int);
        assert(hits[o] != 0);
    }
    if hits[o] != 0 {
        assert(!none_tagged(hits, blocks[i].0.0 as int, blocks[i].0.1 as int));
        assert(all_tagged(hits, blocks[i].0.0 as int, blocks[i].0.1 as int));
    }
}

/// Row `o` lies in an interval of one of `tasks`.
pub open spec fn tasks_cover(tasks: Seq<(Seq<(Interval, u64)>, u64)>, o: int) -> bool {
    exists|t: int| 0 <= t < tasks.len() && covers((#[trigger] tasks[t]).0, o)
}

/// The pieces cut out for the rows `lo..hi` hold exactly the rows of `items`
/// that lie there.
pub proof fn lemma_pieces_in(items: Seq<(Interval, u64)>, lo: int, hi: int, o: int)
    requires
        0 <= lo,
        hi <= u32::MAX + 1,
    ensures
        covers(pieces_in(items, lo, hi), o) <==> covers(items, o) && lo <= o < hi,
    decreases items.len(),
{
    if items.len() > 0 {
        let rest = items.drop_last();
        let item = items.last();
        lemma_pieces_in(rest, lo, hi, o);
        lemma_covers_concat(pieces_in(rest, lo, hi), clipped(item, lo, hi), o);
        let piece = clipped(item, lo, hi);
        if covers(piece, o) {
            let k = choose|k: int| 0 <= k < piece.len()
                && (#[trigger] piece[k]).0.0 <= o <= piece[k].0.1;
            assert(items[items.len() - 1] == item);
        }
        if item.0.0 <= o <= item.0.1 && lo <= o < hi {
            assert(piece[0].0.0 <= o <= piece[0].0.1);
        }
        if covers(items, o) {
            let k = choose|k: int| 0 <= k < items.len()
                && (#[trigger] items[k]).0.0 <= o <= items[k].0.1;
            if k < rest.len() {
                assert(rest[k] == items[k]);
            }
        }
        if covers(rest, o) {
            let k = choose|k: int| 0 <= k < rest.len()
                && (#[trigger] rest[k]).0.0 <= o <= rest[k].0.1;
            assert(rest[k] == items[k]);
        }
    }
}

/// Sorting intervals into chunks loses no row and adds none: the tasks of the
/// first `n` chunks hold exactly the rows of `items` that lie in those chunks.
pub proof fn lemma_chunk_tasks(items: Seq<(Interval, u64)>, ends: Seq<u32>, n: int, o: int)
    requires
        0 <= n <= ends.len(),
        forall|a: int, b: int| 0 <= a <= b < ends.len() ==> ends[a] <= ends[b],
    ensures
        tasks_cover(chunk_tasks(items, ends, n), o) <==> covers(items, o) && o < chunk_start(
            ends,
            n,
        ),
    decreases n,
{
    if n > 0 {
        let rest = chunk_tasks(items, ends, n - 1);
        let lo = chunk_start(ends, n - 1);
        let hi = ends[n - 1] as int;
        let pieces = pieces_in(items, lo, hi);
        let all = chunk_tasks(items, ends, n);
        lemma_chunk_tasks(items, ends, n - 1, o);
        lemma_pieces_in(items, lo, hi, o);
        if n > 1 {
            assert(ends[n - 2] <= ends[n - 1]);
        }
        if tasks_cover(all, o) {
            let t = choose|t: int| 0 <= t < all.len() && covers((#[trigger] all[t]).0, o);
            if t < rest.len() {
                assert(rest[t] == all[t]);
                assert(tasks_cover(rest, o));
            } else {
                assert(all[t].0 == pieces);
            }
        }
        if tasks_cover(rest, o) {
            let t = choose|t: int| 0 <= t < rest.len() && covers((#[trigger] rest[t]).0, o);
            assert(all[t] == rest[t]);
        }
        if covers(pieces, o) {
            assert(pieces.len() > 0);
            assert(all[rest.len() as int].0 == pieces);
        }
        if covers(items, o) {
            let k = choose|k: int| 0 <= k < items.len()
                && (#[trigger] items[k]).0.0 <= o <= items[k].0.1;
            assert(0 <= o);
        }
    } else {
        if covers(items, o) {
            let k = choose|k: int| 0 <= k < items.len()
                && (#[trigger] items[k]).0.0 <= o <= items[k].0.1;
            assert(0 <= o);
        }
    }
}

/// For each block that was fed to the build side, the rows it occupies there
/// and the prefix that names it.
#[derive(Debug)]
pub struct BlockInfoIndex {
    /// The row ranges, in rising order.
    pub intervals: Vec<Interval>,
    pub prefixs: Vec<u64>,
    pub length: usize,
}

impl View for BlockInfoIndex {
    type V = Seq<(Interval, u64)>;

    open spec fn view(&self) -> Seq<(Interval, u64)> {
        Seq::new(self.intervals@.len(), |i: int| (self.intervals@[i], self.prefixs@[i]))
    }
}

impl BlockInfoIndex {
    /// Ranges and prefixes pair up.
    pub open spec fn wf(&self) -> bool {
        &&& self.intervals@.len() == self.prefixs@.len()
        &&& self.intervals@.len() == self.length
    }

    /// Every range is non-empty and ends before `rows`.
    pub open spec fn within(&self, rows: int) -> bool {
        forall|i: int|
            0 <= i < self.intervals@.len() ==> (#[trigger] self.intervals@[i]).0
                <= self.intervals@[i].1 < rows
    }

    /// Every range is non-empty and ends before the next one starts.
    pub open spec fn ordered(&self) -> bool {
        &&& forall|i: int|
            0 <= i < self.intervals@.len() ==> (#[trigger] self.intervals@[i]).0
                <= self.intervals@[i].1
        &&& forall|i: int, j: int|
            0 <= i < j < self.intervals@.len() ==> (#[trigger] self.intervals@[i]).1 < (
            #[trigger] self.intervals@[j]).0
    }

    /// One more than the last row that the index covers.
    pub open spec fn end(&self) -> int {
        if self.intervals@.len() == 0 {
            0
        } else {
            self.intervals@.last().1 + 1
        }
    }

    pub fn new_with_capacity(capacity: usize) -> (index: Self)
        ensures
            index.wf(),
            index@.len() == 0,
            index.ordered(),
    {
        BlockInfoIndex {
            intervals: Vec::with_capacity(capacity),
            prefixs: Vec::with_capacity(capacity),
            length: 0,
        }
    }

    /// Whether ranges and prefixes pair up and every range is non-empty and
    /// ends before `rows`.
    pub fn check_within(&self, rows: usize) -> (b: bool)
        ensures
            b == (self.wf() && self.within(rows as int)),
    {
        if self.intervals.len() != self.prefixs.len() || self.intervals.len() != self.length {
            return false;
        }
        let mut i: usize = 0;
        while i < self.intervals.len()
            invariant
                0 <= i <= self.intervals@.len(),
                forall|k: int|
                    0 <= k < i ==> (#[trigger] self.intervals@[k]).0 <= self.intervals@[k].1 < rows,
            decreases self.intervals@.len() - i,
        {
            let interval = self.intervals[i];
            if interval.0 > interval.1 || interval.1 as u64 >= rows as u64 {
                return false;
            }
            i += 1;
        }
        true
    }

    /// Records that the block named by `prefix` occupies the rows `interval`.
    pub fn insert_block_offsets(&mut self, interval: Interval, prefix: u64)
        requires
            old(self).wf(),
        ensures
            final(self).wf(),
            final(self)@ == old(self)@.push((interval, prefix)),
            old(self).ordered() && old(self).end() <= interval.0 <= interval.1
                ==> final(self).ordered(),
            final(self).intervals@ == old(self).intervals@.push(interval),
    {
        self.intervals.push(interval);
        self.prefixs.push(prefix);
        assert(self.length < self.intervals.len());
        self.length += 1;
        assert(self@ =~= old(self)@.push((interval, prefix)));
    }

    /// The prefixes of the blocks whose rows are all tagged in `hits`.
    pub fn gather_matched_all_blocks(&self, hits: &[u8]) -> (res: Vec<u64>)
        requires
            self.wf(),
            self.within(hits@.len() as int),
        ensures
            res@ == matched_all_blocks(self@, hits@),
    {
        let mut res: Vec<u64> = Vec::with_capacity(10);
        let mut i: usize = 0;
        assert(self@.take(0) =~= Seq::empty());
        while i < self.length
            invariant
                self.wf(),
                self.within(hits@.len() as int),
                0 <= i <= self.length,
                res@ == matched_all_blocks(self@.take(i as int), hits@),
            decreases self.length - i,
        {
            let (lo, hi) = self.intervals[i];
            let prefix = self.prefixs[i];
            let mut all: bool = true;
            let mut o: usize = lo as usize;
            while o <= hi as usize
                invariant
                    lo <= o <= hi + 1,
                    hi < hits@.len(),
                    all == all_tagged(hits@, lo as int, o - 1),
                decreases hi + 1 - o,
            {
                if hits[o] == 0 {
                    all = false;
                }
                o += 1;
            }
            proof {
                let upto = self@.take(i as int + 1);
                assert(upto.drop_last() =~= self@.take(i as int));
                assert(upto.last() == (self.intervals@[i as int], self.prefixs@[i as int]));
            }
            if all {
                res.push(prefix);
            }
            i += 1;
        }
        assert(self@.take(i as int) =~= self@);
        res
    }

    /// The unmodified intervals of the blocks that are partly tagged in
    /// `hits`: for each such block, in block order, its maximal runs of
    /// untagged rows with its prefix.
    pub fn gather_all_partial_block_offsets(&self, hits: &[u8]) -> (res: Vec<(Interval, u64)>)
        requires
            self.wf(),
            self.within(hits@.len() as int),
        ensures
            res@ == partial_unmodified(self@, hits@),
    {
        let mut res: Vec<(Interval, u64)> = Vec::with_capacity(10);
        let mut i: usize = 0;
        assert(self@.take(0) =~= Seq::empty());
        while i < self.length
            invariant
                self.wf(),
                self.within(hits@.len() as int),
                0 <= i <= self.length,
                res@ == partial_unmodified(self@.take(i as int), hits@),
            decreases self.length - i,
        {
            let (lo, hi) = self.intervals[i];
            let prefix = self.prefixs[i];
            let mut all: bool = true;
            let mut none: bool = true;
            let mut o: usize = lo as usize;
            while o <= hi as usize
                invariant
                    lo <= o <= hi + 1,
                    hi < hits@.len(),
                    all == all_tagged(hits@, lo as int, o - 1),
                    none == none_tagged(hits@, lo as int, o - 1),
                decreases hi + 1 - o,
            {
                if hits[o] == 0 {
                    all = false;
                } else {
                    none = false;
                }
                o += 1;
            }
            proof {
                let upto = self@.take(i as int + 1);
                assert(upto.drop_last() =~= self@.take(i as int));
                assert(upto.last() == (self.intervals@[i as int], self.prefixs@[i as int]));
            }
            if !all && !none {
                let ghost base = res@;
                let mut at: usize = lo as usize;
                let mut open: Option<usize> = None;
                while at <= hi as usize
                    invariant
                        lo <= at <= hi + 1,
                        hi < hits@.len(),
                        open matches Some(s) ==> lo <= s < at,
                        base + untagged_runs(hits@, lo as int, hi as int, None, prefix) == res@
                            + untagged_runs(
                            hits@,
                            at as int,
                            hi as int,
                            match open {
                                Some(s) => Some(s as int),
                                None => None,
                            },
                            prefix,
                        ),
                    decreases hi + 1 - at,
                {
                    let ghost before = res@;
                    if hits[at] == 0 {
                        if open.is_none() {
                            open = Some(at);
                        }
                    } else {
                        match open {
                            Some(s) => {
                                res.push(((s as u32, (at - 1) as u32), prefix));
                                assert(res@ =~= before + seq![
                                    ((s as int as u32, (at - 1) as int as u32), prefix),
                                ]);
                            },
                            None => {
                                assert(before + Seq::<(Interval, u64)>::empty() =~= before);
                            },
                        }
                        open = None;
                        assert(forall|a: Seq<(Interval, u64)>, b: Seq<(Interval, u64)>,
                            c: Seq<(Interval, u64)>| (a + b) + c =~= a + (b + c));
                    }
                    at += 1;
                }
                match open {
                    Some(s) => {
                        let ghost before = res@;
                        res.push(((s as u32, hi), prefix));
                        assert(res@ =~= before + seq![((s as int as u32, hi as int as u32),
                            prefix)]);
                    },
                    None => {
                        assert(res@ + Seq::<(Interval, u64)>::empty() =~= res@);
                    },
                }
            } else {
                assert(res@ + Seq::<(Interval, u64)>::empty() =~= res@);
            }
            i += 1;
        }
        assert(self@.take(i as int) =~= self@);
        res
    }

    /// Sorts the unmodified intervals into the chunks of the build side, cutting
    /// an interval where it crosses from one chunk into the next.
    /// `chunks_offsets[k]` is the number of rows in the chunks up to and
    /// including chunk `k`. A chunk without a piece gets no task.
    pub fn chunk_offsets(
        &self,
        partial_unmodified: &Vec<(Interval, u64)>,
        chunks_offsets: &Vec<u32>,
    ) -> (res: Vec<MergeIntoChunkPartialUnmodified>)
        ensures
            tasks_view(res@) == chunk_tasks(
                partial_unmodified@,
                chunks_offsets@,
                chunks_offsets@.len() as int,
            ),
    {
        let mut res: Vec<MergeIntoChunkPartialUnmodified> = Vec::with_capacity(
            chunks_offsets.len(),
        );
        let mut k: usize = 0;
        assert(tasks_view(res@) =~= Seq::empty());
        while k < chunks_offsets.len()
            invariant
                0 <= k <= chunks_offsets@.len(),
                tasks_view(res@) == chunk_tasks(partial_unmodified@, chunks_offsets@, k as int),
            decreases chunks_offsets@.len() - k,
        {
            let lo: u32 = if k == 0 {
                0
            } else {
                chunks_offsets[k - 1]
            };
            let hi: u32 = chunks_offsets[k];
            let mut pieces: Vec<(Interval, u64)> = Vec::new();
            let mut j: usize = 0;
            assert(partial_unmodified@.take(0) =~= Seq::empty());
            while j < partial_unmodified.len()
                invariant
                    0 <= j <= partial_unmodified@.len(),
                    pieces@ == pieces_in(partial_unmodified@.take(j as int), lo as int, hi as int),
                decreases partial_unmodified@.len() - j,
            {
                let item = partial_unmodified[j];
                let first: u32 = if item.0.0 > lo {
                    item.0.0
                } else {
                    lo
                };
                proof {
                    let upto = partial_unmodified@.take(j as int + 1);
                    assert(upto.drop_last() =~= partial_unmodified@.take(j as int));
                    assert(upto.last() == item);
                }
                let ghost before = pieces@;
                if hi > 0 {
                    let last: u32 = if item.0.1 < hi - 1 {
                        item.0.1
                    } else {
                        hi - 1
                    };
                    if first <= last {
                        pieces.push(((first, last), item.1));
                    }
                }
                assert(pieces@ =~= before + clipped(item, lo as int, hi as int));
                j += 1;
            }
            assert(partial_unmodified@.take(j as int) =~= partial_unmodified@);
            let ghost before = res@;
            if pieces.len() > 0 {
                let ghost p = pieces@;
                res.push((pieces, k as u64));
                assert(tasks_view(res@) =~= tasks_view(before).push((p, k as u64)));
            }
            k += 1;
        }
        res
    }
}

} // verus!

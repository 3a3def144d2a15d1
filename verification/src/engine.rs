//! The analytics engine: the blocks of the last minute kept by hash, and the
//! minute and ten-minute buckets that older blocks are folded into.
use std::collections::VecDeque;
use vstd::multiset::Multiset;
use vstd::prelude::*;

use crate::analytics::{
    aggregate_blocks, aggregate_buckets_from, aggregate_fits, derefs, block_item, block_items,
    bucket_item, buckets_from, empty_item, is_merged, is_view_of, item_can_merge, AggItem,
    AggregatedView, BlockSummary, TimeBucket, MAX_MINUTE_BUCKETS, MAX_TEN_MINUTE_BUCKETS,
    ONE_HOUR_MS, ONE_MINUTE_MS, TEN_MINUTES_MS, TWENTY_FOUR_HOURS_MS,
};
use crate::app_state::TimeWindow;
pub use crate::recent::RecentBlocks;

verus! {

/// No two blocks share a hash.
pub open spec fn hashes_unique(s: Seq<BlockSummary>) -> bool {
    forall|i: int, j: int|
        0 <= i < j < s.len() ==> (#[trigger] s[i]).hash@ != (#[trigger] s[j]).hash@
}

/// Some block has hash `h`.
pub open spec fn has_hash(s: Seq<BlockSummary>, h: Seq<char>) -> bool {
    exists|i: int| 0 <= i < s.len() && (#[trigger] s[i]).hash@ == h
}

/// The position of a block with hash `h`.
pub open spec fn hash_index(s: Seq<BlockSummary>, h: Seq<char>) -> int {
    choose|i: int| 0 <= i < s.len() && (#[trigger] s[i]).hash@ == h
}

/// `s` after inserting `b`: a block with the same hash is replaced where it
/// stands, otherwise `b` goes last.
pub open spec fn inserted(s: Seq<BlockSummary>, b: BlockSummary) -> Seq<BlockSummary> {
    if has_hash(s, b.hash@) {
        s.update(hash_index(s, b.hash@), b)
    } else {
        s.push(b)
    }
}

/// `s` after removing the block with hash `h`: the last block takes its place.
pub open spec fn without(s: Seq<BlockSummary>, h: Seq<char>) -> Seq<BlockSummary> {
    if has_hash(s, h) {
        s.update(hash_index(s, h), s.last()).drop_last()
    } else {
        s
    }
}

/// `s` after removing the blocks with the hashes `hs`, one after another.
pub open spec fn without_all(s: Seq<BlockSummary>, hs: Seq<Seq<char>>) -> Seq<BlockSummary>
    decreases hs.len(),
{
    if hs.len() == 0 {
        s
    } else {
        without(without_all(s, hs.drop_last()), hs.last())
    }
}

/// The blocks of `s` stamped before `cutoff`, in order.
pub open spec fn older_than(s: Seq<BlockSummary>, cutoff: u64) -> Seq<BlockSummary>
    decreases s.len(),
{
    if s.len() == 0 {
        s
    } else if s.last().timestamp_ms < cutoff {
        older_than(s.drop_last(), cutoff).push(s.last())
    } else {
        older_than(s.drop_last(), cutoff)
    }
}

/// `b` is one of the blocks of `s`.
pub open spec fn holds_block(s: Seq<BlockSummary>, b: BlockSummary) -> bool {
    exists|i: int| 0 <= i < s.len() && #[trigger] s[i] == b
}

/// The hashes of `s`.
pub open spec fn hashes_of(s: Seq<BlockSummary>) -> Seq<Seq<char>> {
    Seq::new(s.len(), |i: int| s[i].hash@)
}

/// With unique hashes, the block at `i` is the one `hash_index` finds.
pub(crate) proof fn lemma_hash_index(s: Seq<BlockSummary>, i: int)
    requires
        hashes_unique(s),
        0 <= i < s.len(),
    ensures
        has_hash(s, s[i].hash@),
        hash_index(s, s[i].hash@) == i,
{
    assert(has_hash(s, s[i].hash@));
    let j = hash_index(s, s[i].hash@);
    if j != i {
        if j < i {
            assert(s[j].hash@ != s[i].hash@);
        } else {
            assert(s[i].hash@ != s[j].hash@);
        }
    }
}

pub(crate) proof fn lemma_without_unique(s: Seq<BlockSummary>, h: Seq<char>)
    requires
        hashes_unique(s),
    ensures
        hashes_unique(without(s, h)),
        !has_hash(without(s, h), h),
        without(s, h).len() == if has_hash(s, h) {
            s.len() - 1
        } else {
            s.len() as int
        },
{
    if has_hash(s, h) {
        let k = hash_index(s, h);
        let w = without(s, h);
        let n = s.len() - 1;
        assert forall|i: int, j: int| 0 <= i < j < w.len() implies (#[trigger] w[i]).hash@
            != (#[trigger] w[j]).hash@ by {
            let a = if i == k {
                n
            } else {
                i
            };
            let b = if j == k {
                n
            } else {
                j
            };
            assert(w[i] == s[a]);
            assert(w[j] == s[b]);
            if a < b {
                assert(s[a].hash@ != s[b].hash@);
            } else {
                assert(s[b].hash@ != s[a].hash@);
            }
        }
        if has_hash(w, h) {
            let i = choose|i: int| 0 <= i < w.len() && (#[trigger] w[i]).hash@ == h;
            let a = if i == k {
                n
            } else {
                i
            };
            assert(w[i] == s[a]);
            assert(s[k].hash@ == h);
            if a < k {
                assert(s[a].hash@ != s[k].hash@);
            } else {
                assert(s[k].hash@ != s[a].hash@);
            }
        }
    }
}

/// Removing by another hash keeps `b` in the sequence.
proof fn lemma_without_keeps(s: Seq<BlockSummary>, h: Seq<char>, i: int)
    requires
        hashes_unique(s),
        0 <= i < s.len(),
        s[i].hash@ != h,
    ensures
        holds_block(without(s, h), s[i]),
{
    let w = without(s, h);
    if has_hash(s, h) {
        let k = hash_index(s, h);
        assert(k != i);
        if i == s.len() - 1 {
            assert(w[k] == s[i]);
        } else {
            assert(w[i] == s[i]);
        }
    } else {
        assert(w[i] == s[i]);
    }
}

pub(crate) proof fn lemma_inserted_unique(s: Seq<BlockSummary>, b: BlockSummary)
    requires
        hashes_unique(s),
    ensures
        hashes_unique(inserted(s, b)),
{
    let r = inserted(s, b);
    if has_hash(s, b.hash@) {
        let k = hash_index(s, b.hash@);
        assert forall|i: int, j: int| 0 <= i < j < r.len() implies (#[trigger] r[i]).hash@
            != (#[trigger] r[j]).hash@ by {
            assert(s[i].hash@ != s[j].hash@);
        }
    } else {
        assert forall|i: int, j: int| 0 <= i < j < r.len() implies (#[trigger] r[i]).hash@
            != (#[trigger] r[j]).hash@ by {
            if j == s.len() {
                assert(r[i] == s[i]);
            } else {
                assert(s[i].hash@ != s[j].hash@);
            }
        }
    }
}

/// The blocks older than the cutoff come from `s` and keep unique hashes.
proof fn lemma_older_than(s: Seq<BlockSummary>, cutoff: u64)
    requires
        hashes_unique(s),
    ensures
        hashes_unique(older_than(s, cutoff)),
        forall|j: int|
            0 <= j < older_than(s, cutoff).len() ==> holds_block(s, #[trigger] older_than(s, cutoff)[j]),
        forall|j: int|
            0 <= j < older_than(s, cutoff).len() ==> (#[trigger] older_than(s, cutoff)[j]).timestamp_ms
                < cutoff,
    decreases s.len(),
{
    if s.len() > 0 {
        let p = s.drop_last();
        assert(hashes_unique(p)) by {
            assert forall|i: int, j: int| 0 <= i < j < p.len() implies (#[trigger] p[i]).hash@
                != (#[trigger] p[j]).hash@ by {
                assert(s[i].hash@ != s[j].hash@);
            }
        }
        lemma_older_than(p, cutoff);
        let o = older_than(p, cutoff);
        let r = older_than(s, cutoff);
        assert forall|j: int| 0 <= j < r.len() implies holds_block(s, #[trigger] r[j]) by {
            if j < o.len() {
                let i = choose|i: int| 0 <= i < p.len() && #[trigger] p[i] == o[j];
                assert(s[i] == p[i]);
            } else {
                assert(s[s.len() - 1] == r[j]);
            }
        }
        if s.last().timestamp_ms < cutoff {
            assert forall|i: int, j: int| 0 <= i < j < r.len() implies (#[trigger] r[i]).hash@
                != (#[trigger] r[j]).hash@ by {
                if j == o.len() {
                    let a = choose|a: int| 0 <= a < p.len() && #[trigger] p[a] == o[i];
                    assert(s[a] == p[a]);
                    assert(s[a].hash@ != s[s.len() - 1].hash@);
                } else {
                    assert(o[i].hash@ != o[j].hash@);
                }
            }
        }
    }
}


/// Every bucket names each tally key once.
pub open spec fn buckets_wf(s: Seq<TimeBucket>) -> bool {
    forall|i: int| 0 <= i < s.len() ==> (#[trigger] s[i]).wf()
}

/// Start of the bucket of width `width` that holds time `t`.
pub open spec fn bucket_start(t: u64, width: u64) -> u64 {
    ((t / width) * width) as u64
}

/// Placing `block` into `before` does not overflow a counter.
pub open spec fn can_place(before: Seq<TimeBucket>, block: BlockSummary, width: u64) -> bool {
    let start = bucket_start(block.timestamp_ms, width);
    if before.len() > 0 && before.last().bucket_start_ms == start {
        before.last().can_merge(&block)
    } else {
        item_can_merge(empty_item(start), block_item(block))
    }
}

/// `after` is `before` with `block` placed into the bucket of width `width`
/// that holds its time: merged into the last bucket when that one starts
/// there, otherwise into a new bucket put last.
pub open spec fn placed(
    before: Seq<TimeBucket>,
    after: Seq<TimeBucket>,
    block: BlockSummary,
    width: u64,
) -> bool {
    let start = bucket_start(block.timestamp_ms, width);
    &&& after.len() > 0
    &&& after.last().wf()
    &&& if before.len() > 0 && before.last().bucket_start_ms == start {
        &&& after.len() == before.len()
        &&& after.drop_last() == before.drop_last()
        &&& after.last().is_merge_of(&before.last(), &block)
    } else {
        &&& after.len() == before.len() + 1
        &&& after.drop_last() == before
        &&& after.last().bucket_start_ms == start
        &&& is_merged(bucket_item(after.last()), empty_item(start), block_item(block))
    }
}

/// `states` runs from `before` through the placing of each of `blocks` in turn.
pub open spec fn is_chain(
    before: Seq<TimeBucket>,
    states: Seq<Seq<TimeBucket>>,
    blocks: Seq<BlockSummary>,
    width: u64,
) -> bool {
    &&& states.len() == blocks.len() + 1
    &&& states[0] == before
    &&& forall|j: int|
        0 <= j < blocks.len() ==> placed(#[trigger] states[j], states[j + 1], blocks[j], width)
}

/// `after` is `before` with `blocks` placed one after another.
pub open spec fn placed_all(
    before: Seq<TimeBucket>,
    after: Seq<TimeBucket>,
    blocks: Seq<BlockSummary>,
    width: u64,
) -> bool {
    exists|states: Seq<Seq<TimeBucket>>|
        #[trigger] is_chain(before, states, blocks, width) && states.last() == after
}

/// Placing `blocks` one after another into `before` overflows no counter,
/// however ties between equal address counts are broken when a tally is cut.
pub open spec fn can_place_all(before: Seq<TimeBucket>, blocks: Seq<BlockSummary>, width: u64) -> bool {
    forall|states: Seq<Seq<TimeBucket>>, i: int|
        #![trigger is_chain(before, states, blocks.take(i), width)]
        0 <= i < blocks.len() && is_chain(before, states, blocks.take(i), width) ==> can_place(
            states.last(),
            blocks[i],
            width,
        )
}

/// A chain over the first `k` blocks grows by one placing.
proof fn lemma_chain_step(
    before: Seq<TimeBucket>,
    states: Seq<Seq<TimeBucket>>,
    after: Seq<TimeBucket>,
    blocks: Seq<BlockSummary>,
    k: int,
    width: u64,
)
    requires
        0 <= k < blocks.len(),
        is_chain(before, states, blocks.take(k), width),
        placed(states.last(), after, blocks[k], width),
    ensures
        is_chain(before, states.push(after), blocks.take(k + 1), width),
{
    let s2 = states.push(after);
    let b2 = blocks.take(k + 1);
    assert forall|j: int| 0 <= j < b2.len() implies placed(#[trigger] s2[j], s2[j + 1], b2[j], width) by {
        if j < k {
            assert(s2[j] == states[j]);
            assert(s2[j + 1] == states[j + 1]);
            assert(b2[j] == blocks.take(k)[j]);
        } else {
            assert(s2[j] == states.last());
        }
    }
}

/// Puts `block` into the bucket of width `width` that holds its time;
/// `last_start` records the start of a bucket when one is created.
fn add_to_bucket(
    buckets: &mut VecDeque<TimeBucket>,
    last_start: &mut u64,
    block: &BlockSummary,
    width: u64,
)
    requires
        width > 0,
        buckets_wf(old(buckets)@),
        can_place(old(buckets)@, *block, width),
    ensures
        buckets_wf(final(buckets)@),
        placed(old(buckets)@, final(buckets)@, *block, width),
        *final(last_start) == if final(buckets)@.len() > old(buckets)@.len() {
            final(buckets)@.last().bucket_start_ms
        } else {
            *old(last_start)
        },
{
    let t = block.timestamp_ms;
    proof {
        assert((t / width) * width <= t) by (nonlinear_arith)
            requires
                width > 0,
        ;
    }
    let bucket_ts = t / width * width;
    let n = buckets.len();
    if n > 0 && buckets[n - 1].bucket_start_ms == bucket_ts {
        let ghost before = buckets@;
        match buckets.pop_back() {
            Some(mut last) => {
                last.merge_block(block);
                buckets.push_back(last);
                proof {
                    assert(buckets@.drop_last() =~= before.drop_last());
                }
            },
            None => {},
        }
        return;
    }
    let ghost before = buckets@;
    let mut bucket = TimeBucket::new(bucket_ts);
    bucket.merge_block(block);
    buckets.push_back(bucket);
    *last_start = bucket_ts;
    proof {
        assert(buckets@.drop_last() =~= before);
    }
}

/// Transaction analytics over the chain: counters, the blocks of the last
/// minute by hash, and minute and ten-minute buckets of older blocks.
pub struct AnalyticsEngine {
    pub recent_blocks: RecentBlocks,
    pub minute_buckets: VecDeque<TimeBucket>,
    pub ten_minute_buckets: VecDeque<TimeBucket>,
    pub total_blocks_processed: u64,
    pub total_transactions: u64,
    pub last_known_chain_block: Option<String>,
    pub last_minute_bucket_ts: u64,
    pub last_ten_minute_bucket_ts: u64,
}

/// Blocks stamped before this time move into buckets at `now_ms`.
pub open spec fn finalize_cutoff(now_ms: u64) -> u64 {
    now_ms.saturating_sub(ONE_MINUTE_MS)
}

/// `s` without its leading buckets that start before `cutoff`.
pub open spec fn drop_old(s: Seq<TimeBucket>, cutoff: u64) -> Seq<TimeBucket>
    decreases s.len(),
{
    if s.len() > 0 && s[0].bucket_start_ms < cutoff {
        drop_old(s.drop_first(), cutoff)
    } else {
        s
    }
}

/// The last `n` entries of `s` (all of them when there are fewer).
pub open spec fn keep_last<T>(s: Seq<T>, n: int) -> Seq<T> {
    if s.len() > n {
        s.skip(s.len() - n)
    } else {
        s
    }
}

/// Where a window of the last `n` buckets of `len` starts.
pub open spec fn last_n_start(len: nat, n: int) -> int {
    if len > n {
        len - n
    } else {
        0
    }
}

impl AnalyticsEngine {
    /// Hashes of recent blocks are unique and every bucket tally names each key once.
    pub open spec fn wf(&self) -> bool {
        &&& self.recent_blocks.wf()
        &&& buckets_wf(self.minute_buckets@)
        &&& buckets_wf(self.ten_minute_buckets@)
    }

    /// What a view of `window` sums: the recent blocks for the last minute,
    /// the last 15, 30 or all minute buckets, or the last 36, 72 or all
    /// ten-minute buckets.
    pub open spec fn window_items(&self, window: TimeWindow) -> Seq<AggItem> {
        let m = self.minute_buckets@;
        let t = self.ten_minute_buckets@;
        match window {
            TimeWindow::OneMin => block_items(self.recent_blocks@),
            TimeWindow::FifteenMin => buckets_from(m, last_n_start(m.len(), 15)),
            TimeWindow::ThirtyMin => buckets_from(m, last_n_start(m.len(), 30)),
            TimeWindow::OneHour => buckets_from(m, 0),
            TimeWindow::SixHour => buckets_from(t, last_n_start(t.len(), 36)),
            TimeWindow::TwelveHour => buckets_from(t, last_n_start(t.len(), 72)),
            TimeWindow::TwentyFourHour => buckets_from(t, 0),
        }
    }

    pub fn new() -> (r: AnalyticsEngine)
        ensures
            r.wf(),
            r.recent_blocks@.len() == 0,
            r.minute_buckets@.len() == 0,
            r.ten_minute_buckets@.len() == 0,
            r.total_blocks_processed == 0,
            r.total_transactions == 0,
            r.last_known_chain_block is None,
            r.last_minute_bucket_ts == 0,
            r.last_ten_minute_bucket_ts == 0,
    {
        AnalyticsEngine {
            recent_blocks: RecentBlocks::new(),
            minute_buckets: VecDeque::new(),
            ten_minute_buckets: VecDeque::new(),
            total_blocks_processed: 0,
            total_transactions: 0,
            last_known_chain_block: None,
            last_minute_bucket_ts: 0,
            last_ten_minute_bucket_ts: 0,
        }
    }

    /// Counts `summary` and keeps it among the recent blocks; it becomes the
    /// last known chain block.
    pub fn add_block(&mut self, summary: BlockSummary)
        requires
            old(self).wf(),
            old(self).total_blocks_processed < u64::MAX,
            old(self).total_transactions + summary.tx_count <= u64::MAX,
        ensures
            final(self).wf(),
            final(self).total_blocks_processed == old(self).total_blocks_processed + 1,
            final(self).total_transactions == old(self).total_transactions + summary.tx_count,
            final(self).last_known_chain_block matches Some(h) && h@ == summary.hash@,
            final(self).recent_blocks@ == inserted(old(self).recent_blocks@, summary),
            final(self).minute_buckets@ == old(self).minute_buckets@,
            final(self).ten_minute_buckets@ == old(self).ten_minute_buckets@,
            final(self).last_minute_bucket_ts == old(self).last_minute_bucket_ts,
            final(self).last_ten_minute_bucket_ts == old(self).last_ten_minute_bucket_ts,
    {
        self.total_blocks_processed = self.total_blocks_processed + 1;
        self.total_transactions = self.total_transactions + summary.tx_count as u64;
        self.last_known_chain_block = Some(summary.hash.clone());
        self.recent_blocks.insert(summary);
    }

    /// Takes the block with hash `hash` out of the recent blocks (a reorg) and
    /// uncounts it. Returns `false`, counting nothing back, when no recent
    /// block has that hash: it was already folded into the buckets.
    pub fn remove_block(&mut self, hash: &str) -> (r: bool)
        requires
            old(self).wf(),
        ensures
            final(self).wf(),
            r == has_hash(old(self).recent_blocks@, hash@),
            final(self).recent_blocks@ == without(old(self).recent_blocks@, hash@),
            final(self).total_blocks_processed == if r {
                old(self).total_blocks_processed.saturating_sub(1)
            } else {
                old(self).total_blocks_processed
            },
            final(self).total_transactions == if r {
                old(self).total_transactions.saturating_sub(
                    old(self).recent_blocks@[hash_index(
                        old(self).recent_blocks@,
                        hash@,
                    )].tx_count as u64,
                )
            } else {
                old(self).total_transactions
            },
            final(self).last_known_chain_block == old(self).last_known_chain_block,
            final(self).minute_buckets@ == old(self).minute_buckets@,
            final(self).ten_minute_buckets@ == old(self).ten_minute_buckets@,
            final(self).last_minute_bucket_ts == old(self).last_minute_bucket_ts,
            final(self).last_ten_minute_bucket_ts == old(self).last_ten_minute_bucket_ts,
    {
        match self.recent_blocks.swap_remove(hash) {
            Some(block) => {
                self.total_blocks_processed = self.total_blocks_processed.saturating_sub(1);
                self.total_transactions = self.total_transactions.saturating_sub(
                    block.tx_count as u64,
                );
                true
            },
            None => false,
        }
    }

    /// Moves the blocks stamped more than a minute before `now_ms` out of the
    /// recent blocks and into their minute and ten-minute buckets, in the
    /// order they were kept.
    pub fn finalize_old_blocks(&mut self, now_ms: u64)
        requires
            old(self).wf(),
            can_place_all(
                old(self).minute_buckets@,
                older_than(old(self).recent_blocks@, finalize_cutoff(now_ms)),
                ONE_MINUTE_MS,
            ),
            can_place_all(
                old(self).ten_minute_buckets@,
                older_than(old(self).recent_blocks@, finalize_cutoff(now_ms)),
                TEN_MINUTES_MS,
            ),
        ensures
            ({
                let moved = older_than(old(self).recent_blocks@, finalize_cutoff(now_ms));
                &&& final(self).wf()
                &&& final(self).recent_blocks@ == without_all(
                    old(self).recent_blocks@,
                    hashes_of(moved),
                )
                &&& placed_all(
                    old(self).minute_buckets@,
                    final(self).minute_buckets@,
                    moved,
                    ONE_MINUTE_MS,
                )
                &&& placed_all(
                    old(self).ten_minute_buckets@,
                    final(self).ten_minute_buckets@,
                    moved,
                    TEN_MINUTES_MS,
                )
                &&& final(self).last_minute_bucket_ts == if final(self).minute_buckets@.len()
                    > old(self).minute_buckets@.len() {
                    final(self).minute_buckets@.last().bucket_start_ms
                } else {
                    old(self).last_minute_bucket_ts
                }
                &&& final(self).last_ten_minute_bucket_ts == if final(self).ten_minute_buckets@.len()
                    > old(self).ten_minute_buckets@.len() {
                    final(self).ten_minute_buckets@.last().bucket_start_ms
                } else {
                    old(self).last_ten_minute_bucket_ts
                }
            }),
            final(self).total_blocks_processed == old(self).total_blocks_processed,
            final(self).total_transactions == old(self).total_transactions,
            final(self).last_known_chain_block == old(self).last_known_chain_block,
    {
        let cutoff = now_ms.saturating_sub(ONE_MINUTE_MS);
        let ghost start = *self;
        let ghost moved = older_than(self.recent_blocks@, cutoff);
        let ghost hs = hashes_of(moved);
        proof {
            lemma_older_than(start.recent_blocks@, cutoff);
            assert(hs.take(0) =~= Seq::<Seq<char>>::empty());
            assert(moved.take(0) =~= Seq::<BlockSummary>::empty());
        }
        let ghost mut minute_chain = seq![start.minute_buckets@];
        let ghost mut ten_chain = seq![start.ten_minute_buckets@];
        let to_finalize = self.recent_blocks.hashes_older_than(cutoff);
        let mut k: usize = 0;
        while k < to_finalize.len()
            invariant
                self.wf(),
                moved == older_than(start.recent_blocks@, cutoff),
                hs == hashes_of(moved),
                hashes_unique(moved),
                to_finalize@.len() == moved.len(),
                forall|j: int|
                    0 <= j < to_finalize@.len() ==> (#[trigger] to_finalize@[j])@ == moved[j].hash@,
                k <= moved.len(),
                self.recent_blocks@ == without_all(start.recent_blocks@, hs.take(k as int)),
                forall|j: int|
                    k <= j < moved.len() ==> holds_block(self.recent_blocks@, #[trigger] moved[j]),
                is_chain(start.minute_buckets@, minute_chain, moved.take(k as int), ONE_MINUTE_MS),
                minute_chain.last() == self.minute_buckets@,
                is_chain(start.ten_minute_buckets@, ten_chain, moved.take(k as int), TEN_MINUTES_MS),
                ten_chain.last() == self.ten_minute_buckets@,
                can_place_all(start.minute_buckets@, moved, ONE_MINUTE_MS),
                can_place_all(start.ten_minute_buckets@, moved, TEN_MINUTES_MS),
                self.last_minute_bucket_ts == if self.minute_buckets@.len()
                    > start.minute_buckets@.len() {
                    self.minute_buckets@.last().bucket_start_ms
                } else {
                    start.last_minute_bucket_ts
                },
                self.last_ten_minute_bucket_ts == if self.ten_minute_buckets@.len()
                    > start.ten_minute_buckets@.len() {
                    self.ten_minute_buckets@.last().bucket_start_ms
                } else {
                    start.last_ten_minute_bucket_ts
                },
                self.minute_buckets@.len() >= start.minute_buckets@.len(),
                self.ten_minute_buckets@.len() >= start.ten_minute_buckets@.len(),
                self.total_blocks_processed == start.total_blocks_processed,
                self.total_transactions == start.total_transactions,
                self.last_known_chain_block == start.last_known_chain_block,
            decreases moved.len() - k,
        {
            let ghost cur = self.recent_blocks@;
            let ghost b = moved[k as int];
            proof {
                assert(holds_block(cur, b));
                let i = choose|i: int| 0 <= i < cur.len() && #[trigger] cur[i] == b;
                lemma_hash_index(cur, i);
                assert(to_finalize@[k as int]@ == b.hash@);
                assert(has_hash(cur, b.hash@));
                assert forall|j: int| k < j < moved.len() implies holds_block(
                    without(cur, b.hash@),
                    #[trigger] moved[j],
                ) by {
                    assert(holds_block(cur, moved[j]));
                    let i2 = choose|i2: int| 0 <= i2 < cur.len() && #[trigger] cur[i2] == moved[j];
                    assert(moved[j].hash@ != b.hash@);
                    lemma_without_keeps(cur, b.hash@, i2);
                }
                assert(hs.take(k + 1).drop_last() =~= hs.take(k as int));
                assert(moved.take(k + 1).drop_last() =~= moved.take(k as int));
                assert(can_place(minute_chain.last(), moved[k as int], ONE_MINUTE_MS));
                assert(can_place(ten_chain.last(), moved[k as int], TEN_MINUTES_MS));
            }
            let removed = self.recent_blocks.swap_remove(to_finalize[k].as_str());
            match removed {
                Some(block) => {
                    let ghost m0 = self.minute_buckets@;
                    let ghost t0 = self.ten_minute_buckets@;
                    add_to_bucket(
                        &mut self.minute_buckets,
                        &mut self.last_minute_bucket_ts,
                        &block,
                        ONE_MINUTE_MS,
                    );
                    add_to_bucket(
                        &mut self.ten_minute_buckets,
                        &mut self.last_ten_minute_bucket_ts,
                        &block,
                        TEN_MINUTES_MS,
                    );
                    proof {
                        assert(block == b);
                        lemma_chain_step(start.minute_buckets@, minute_chain, self.minute_buckets@, moved, k as int, ONE_MINUTE_MS);
                        lemma_chain_step(start.ten_minute_buckets@, ten_chain, self.ten_minute_buckets@, moved, k as int, TEN_MINUTES_MS);
                        minute_chain = minute_chain.push(self.minute_buckets@);
                        ten_chain = ten_chain.push(self.ten_minute_buckets@);
                    }
                },
                None => {
                    assert(false);
                },
            }
            k = k + 1;
        }
        proof {
            assert(hs.take(moved.len() as int) =~= hs);
            assert(moved.take(moved.len() as int) =~= moved);
            assert(is_chain(start.minute_buckets@, minute_chain, moved, ONE_MINUTE_MS));
            assert(is_chain(start.ten_minute_buckets@, ten_chain, moved, TEN_MINUTES_MS));
        }
    }

    /// Drops minute buckets older than an hour and ten-minute buckets older
    /// than a day, then keeps at most the newest 60 and 144 of them.
    pub fn prune_buckets(&mut self, now_ms: u64)
        requires
            old(self).wf(),
        ensures
            final(self).wf(),
            final(self).minute_buckets@ == keep_last(
                drop_old(old(self).minute_buckets@, now_ms.saturating_sub(ONE_HOUR_MS)),
                MAX_MINUTE_BUCKETS as int,
            ),
            final(self).ten_minute_buckets@ == keep_last(
                drop_old(old(self).ten_minute_buckets@, now_ms.saturating_sub(TWENTY_FOUR_HOURS_MS)),
                MAX_TEN_MINUTE_BUCKETS as int,
            ),
            final(self).recent_blocks@ == old(self).recent_blocks@,
            final(self).total_blocks_processed == old(self).total_blocks_processed,
            final(self).total_transactions == old(self).total_transactions,
            final(self).last_known_chain_block == old(self).last_known_chain_block,
            final(self).last_minute_bucket_ts == old(self).last_minute_bucket_ts,
            final(self).last_ten_minute_bucket_ts == old(self).last_ten_minute_bucket_ts,
    {
        let hour_cutoff = now_ms.saturating_sub(ONE_HOUR_MS);
        prune_front(&mut self.minute_buckets, hour_cutoff, MAX_MINUTE_BUCKETS);
        let day_cutoff = now_ms.saturating_sub(TWENTY_FOUR_HOURS_MS);
        prune_front(&mut self.ten_minute_buckets, day_cutoff, MAX_TEN_MINUTE_BUCKETS);
    }

    /// Sums for the UI over `window`; the series of the last-minute view is
    /// ordered by time, the others follow bucket order.
    pub fn get_view(&self, window: TimeWindow) -> (v: AggregatedView)
        requires
            aggregate_fits(self.window_items(window)),
        ensures
            is_view_of(v, self.window_items(window), window is OneMin),
    {
        match window {
            TimeWindow::OneMin => {
                let blocks = self.recent_blocks.values();
                proof {
                    assert(derefs(blocks@) =~= self.recent_blocks@);
                }
                aggregate_blocks(&blocks)
            },
            TimeWindow::FifteenMin => aggregate_buckets_from(
                &self.minute_buckets,
                self.minute_buckets.len().saturating_sub(15),
            ),
            TimeWindow::ThirtyMin => aggregate_buckets_from(
                &self.minute_buckets,
                self.minute_buckets.len().saturating_sub(30),
            ),
            TimeWindow::OneHour => aggregate_buckets_from(&self.minute_buckets, 0),
            TimeWindow::SixHour => aggregate_buckets_from(
                &self.ten_minute_buckets,
                self.ten_minute_buckets.len().saturating_sub(36),
            ),
            TimeWindow::TwelveHour => aggregate_buckets_from(
                &self.ten_minute_buckets,
                self.ten_minute_buckets.len().saturating_sub(72),
            ),
            TimeWindow::TwentyFourHour => aggregate_buckets_from(&self.ten_minute_buckets, 0),
        }
    }
}

/// Drops the leading buckets that start before `cutoff`, then the oldest
/// ones beyond `max`.
fn prune_front(buckets: &mut VecDeque<TimeBucket>, cutoff: u64, max: usize)
    requires
        buckets_wf(old(buckets)@),
    ensures
        buckets_wf(final(buckets)@),
        final(buckets)@ == keep_last(drop_old(old(buckets)@, cutoff), max as int),
{
    let ghost start = buckets@;
    while buckets.len() > 0 && buckets[0].bucket_start_ms < cutoff
        invariant
            buckets_wf(buckets@),
            drop_old(buckets@, cutoff) == drop_old(start, cutoff),
        decreases buckets@.len(),
    {
        let ghost before = buckets@;
        let _ = buckets.pop_front();
        proof {
            assert(buckets@ =~= before.drop_first());
        }
    }
    let ghost dropped = buckets@;
    while buckets.len() > max
        invariant
            buckets_wf(buckets@),
            keep_last(buckets@, max as int) == keep_last(dropped, max as int),
        decreases buckets@.len(),
    {
        let ghost before = buckets@;
        let _ = buckets.pop_front();
        proof {
            assert(buckets@ =~= before.drop_first());
            assert(keep_last(buckets@, max as int) =~= keep_last(before, max as int));
        }
    }
}

/// Removing a block right after adding it restores the recent blocks and
/// the counters, when no recent block had its hash and nothing overflowed.
pub proof fn law_remove_undoes_add(
    recent: Seq<BlockSummary>,
    blocks_processed: u64,
    transactions: u64,
    b: BlockSummary,
)
    requires
        hashes_unique(recent),
        !has_hash(recent, b.hash@),
        blocks_processed < u64::MAX,
        transactions + b.tx_count <= u64::MAX,
    ensures
        has_hash(inserted(recent, b), b.hash@),
        without(inserted(recent, b), b.hash@) == recent,
        ((blocks_processed + 1) as u64).saturating_sub(1) == blocks_processed,
        ((transactions + b.tx_count) as u64).saturating_sub(b.tx_count as u64) == transactions,
{
    let r = inserted(recent, b);
    assert(r == recent.push(b));
    lemma_inserted_unique(recent, b);
    lemma_hash_index(r, recent.len() as int);
    assert(without(r, b.hash@) =~= recent);
}

/// After pruning at most `n` buckets are left, and they are the newest
/// buckets of `s`, in order.
pub proof fn law_prune_bounded(s: Seq<TimeBucket>, cutoff: u64, n: int)
    requires
        n >= 0,
    ensures
        keep_last(drop_old(s, cutoff), n).len() <= n,
        exists|k: int| 0 <= k <= s.len() && #[trigger] s.skip(k) == keep_last(drop_old(s, cutoff), n),
{
    lemma_drop_old_suffix(s, cutoff);
    let d = drop_old(s, cutoff);
    let k = choose|k: int| 0 <= k <= s.len() && #[trigger] s.skip(k) == d;
    if d.len() > n {
        assert(s.skip(k + (d.len() - n)) =~= keep_last(d, n));
    } else {
        assert(s.skip(k) == keep_last(d, n));
    }
}

proof fn lemma_drop_old_suffix(s: Seq<TimeBucket>, cutoff: u64)
    ensures
        exists|k: int| 0 <= k <= s.len() && #[trigger] s.skip(k) == drop_old(s, cutoff),
    decreases s.len(),
{
    if s.len() > 0 && s[0].bucket_start_ms < cutoff {
        lemma_drop_old_suffix(s.drop_first(), cutoff);
        let k = choose|k: int|
            0 <= k <= s.drop_first().len() && #[trigger] s.drop_first().skip(k) == drop_old(
                s.drop_first(),
                cutoff,
            );
        assert(s.skip(k + 1) =~= s.drop_first().skip(k));
    } else {
        assert(s.skip(0) =~= s);
    }
}

proof fn lemma_without_multiset(s: Seq<BlockSummary>, h: Seq<char>)
    requires
        has_hash(s, h),
    ensures
        without(s, h).to_multiset() == s.to_multiset().remove(s[hash_index(s, h)]),
{
    broadcast use vstd::multiset::group_multiset_axioms;

    let i = hash_index(s, h);
    let n = s.len() - 1;
    let u = s.update(i, s[n]);
    vstd::seq_lib::to_multiset_update(s, i, s[n]);
    assert(u.drop_last().push(u.last()) =~= u);
    vstd::seq_lib::to_multiset_build(u.drop_last(), u.last());
    assert(u.last() == s[n]);
    assert(s.contains(s[i]));
    vstd::seq_lib::to_multiset_contains(s, s[i]);
    assert(s.to_multiset().count(s[i]) > 0);
    assert(u.drop_last().to_multiset() =~= u.to_multiset().remove(s[n]));
    assert(without(s, h).to_multiset() =~= s.to_multiset().remove(s[i]));
}

/// Every block of `s` stamped before `cutoff` is among `older_than(s, cutoff)`.
proof fn lemma_older_complete(s: Seq<BlockSummary>, cutoff: u64, i: int)
    requires
        0 <= i < s.len(),
        s[i].timestamp_ms < cutoff,
    ensures
        older_than(s, cutoff).contains(s[i]),
    decreases s.len(),
{
    let o = older_than(s, cutoff);
    if i == s.len() - 1 {
        assert(o[o.len() - 1] == s[i]);
    } else {
        lemma_older_complete(s.drop_last(), cutoff, i);
        let p = older_than(s.drop_last(), cutoff);
        let j = choose|j: int| 0 <= j < p.len() && p[j] == s[i];
        assert(o[j] == p[j]);
    }
}

proof fn lemma_unique_no_duplicates(s: Seq<BlockSummary>)
    requires
        hashes_unique(s),
    ensures
        s.no_duplicates(),
{
    assert forall|i: int, j: int| 0 <= i < s.len() && 0 <= j < s.len() && i != j implies s[i]
        != s[j] by {
        if i < j {
            assert(s[i].hash@ != s[j].hash@);
        } else {
            assert(s[j].hash@ != s[i].hash@);
        }
    }
}

/// After removing the first `k` of the blocks older than `cutoff`, the rest
/// of them are still there and nothing else went.
proof fn lemma_finalize_prefix(s: Seq<BlockSummary>, cutoff: u64, k: int)
    requires
        hashes_unique(s),
        0 <= k <= older_than(s, cutoff).len(),
    ensures
        ({
            let moved = older_than(s, cutoff);
            let cur = without_all(s, hashes_of(moved).take(k));
            &&& hashes_unique(cur)
            &&& cur.to_multiset().add(moved.take(k).to_multiset()) == s.to_multiset()
            &&& forall|j: int| k <= j < moved.len() ==> holds_block(cur, #[trigger] moved[j])
        }),
    decreases k,
{
    broadcast use vstd::multiset::group_multiset_axioms;

    let moved = older_than(s, cutoff);
    let hs = hashes_of(moved);
    lemma_older_than(s, cutoff);
    if k == 0 {
        assert(hs.take(0) =~= Seq::<Seq<char>>::empty());
        assert(moved.take(0) =~= Seq::<BlockSummary>::empty());
        vstd::seq_lib::to_multiset_len(moved.take(0));
        vstd::multiset::lemma_multiset_empty_len(moved.take(0).to_multiset());
        assert(moved.take(0).to_multiset() =~= Multiset::empty());
        assert(s.to_multiset().add(Multiset::empty()) =~= s.to_multiset());
        assert forall|j: int| 0 <= j < moved.len() implies holds_block(s, #[trigger] moved[j]) by {
        }
    } else {
        lemma_finalize_prefix(s, cutoff, k - 1);
        let prev = without_all(s, hs.take(k - 1));
        assert(hs.take(k).drop_last() =~= hs.take(k - 1));
        let b = moved[k - 1];
        assert(hs.take(k).last() == b.hash@);
        let cur = without_all(s, hs.take(k));
        assert(cur == without(prev, b.hash@));
        assert(holds_block(prev, b));
        let i = choose|i: int| 0 <= i < prev.len() && #[trigger] prev[i] == b;
        lemma_hash_index(prev, i);
        lemma_without_unique(prev, b.hash@);
        lemma_without_multiset(prev, b.hash@);
        assert(moved.take(k) =~= moved.take(k - 1).push(b));
        vstd::seq_lib::to_multiset_build(moved.take(k - 1), b);
        assert(prev.contains(b));
        vstd::seq_lib::to_multiset_contains(prev, b);
        assert(prev.to_multiset().count(b) > 0);
        assert(cur.to_multiset().add(moved.take(k).to_multiset()) =~= s.to_multiset());
        assert forall|j: int| k <= j < moved.len() implies holds_block(cur, #[trigger] moved[j]) by {
            assert(holds_block(prev, moved[j]));
            let i2 = choose|i2: int| 0 <= i2 < prev.len() && #[trigger] prev[i2] == moved[j];
            assert(moved[j].hash@ != b.hash@);
            lemma_without_keeps(prev, b.hash@, i2);
        }
    }
}

/// Finalizing splits the recent blocks in two: those stamped before the
/// cutoff move to the buckets, the others stay, and no block is lost or
/// gained.
pub proof fn law_finalize_partitions(s: Seq<BlockSummary>, cutoff: u64)
    requires
        hashes_unique(s),
    ensures
        ({
            let moved = older_than(s, cutoff);
            let kept = without_all(s, hashes_of(moved));
            &&& kept.to_multiset().add(moved.to_multiset()) == s.to_multiset()
            &&& forall|i: int| 0 <= i < kept.len() ==> (#[trigger] kept[i]).timestamp_ms >= cutoff
            &&& forall|j: int| 0 <= j < moved.len() ==> (#[trigger] moved[j]).timestamp_ms < cutoff
        }),
{
    broadcast use vstd::multiset::group_multiset_axioms;
    broadcast use vstd::seq_lib::group_to_multiset_ensures;

    let moved = older_than(s, cutoff);
    let hs = hashes_of(moved);
    lemma_older_than(s, cutoff);
    lemma_finalize_prefix(s, cutoff, moved.len() as int);
    assert(hs.take(moved.len() as int) =~= hs);
    assert(moved.take(moved.len() as int) =~= moved);
    let kept = without_all(s, hs);
    assert forall|i: int| 0 <= i < kept.len() implies (#[trigger] kept[i]).timestamp_ms >= cutoff by {
        let b = kept[i];
        if b.timestamp_ms < cutoff {
            assert(kept.contains(b));
            assert(kept.to_multiset().count(b) > 0);
            assert(s.to_multiset().count(b) > 0);
            assert(s.contains(b));
            let j = choose|j: int| 0 <= j < s.len() && s[j] == b;
            lemma_older_complete(s, cutoff, j);
            assert(moved.to_multiset().count(b) > 0);
            lemma_unique_no_duplicates(s);
            s.lemma_multiset_has_no_duplicates();
            assert(s.to_multiset().count(b) == 1);
        }
    }
}

/// The bucket a block is placed into starts at a multiple of the width and
/// spans the block's time: `start <= timestamp < start + width`.
pub proof fn law_placed_bucket_spans_block(
    before: Seq<TimeBucket>,
    after: Seq<TimeBucket>,
    block: BlockSummary,
    width: u64,
)
    requires
        width > 0,
        placed(before, after, block, width),
    ensures
        after.last().bucket_start_ms % width == 0,
        after.last().bucket_start_ms <= block.timestamp_ms,
        block.timestamp_ms < after.last().bucket_start_ms + width,
{
    let t = block.timestamp_ms;
    let q = t / width;
    assert(q * width <= t && t < q * width + width && (q * width) % (width as int) == 0)
        by (nonlinear_arith)
        requires
            width > 0,
            q == t / width,
    ;
    assert(bucket_start(t, width) == q * width);
    if before.len() > 0 && before.last().bucket_start_ms == bucket_start(t, width) {
        assert(bucket_item(after.last()).timestamp_ms == bucket_item(before.last()).timestamp_ms);
    }
}

/// Two blocks of the same interval of `width`, placed one after the other,
/// share one bucket: the second is merged into the bucket the first went to.
/// A block of a later interval opens a new bucket at its interval's start.
pub proof fn law_consecutive_placing(
    s0: Seq<TimeBucket>,
    s1: Seq<TimeBucket>,
    s2: Seq<TimeBucket>,
    b1: BlockSummary,
    b2: BlockSummary,
    width: u64,
)
    requires
        width > 0,
        placed(s0, s1, b1, width),
        placed(s1, s2, b2, width),
    ensures
        b1.timestamp_ms / width == b2.timestamp_ms / width ==> {
            &&& s2.len() == s1.len()
            &&& s2.drop_last() == s1.drop_last()
            &&& s2.last().is_merge_of(&s1.last(), &b2)
        },
        b1.timestamp_ms / width < b2.timestamp_ms / width ==> {
            &&& s2.len() == s1.len() + 1
            &&& s2.drop_last() == s1
            &&& s2.last().bucket_start_ms == (b2.timestamp_ms / width) * width
        },
{
    law_placed_bucket_spans_block(s0, s1, b1, width);
    law_placed_bucket_spans_block(s1, s2, b2, width);
    let t1 = b1.timestamp_ms;
    let t2 = b2.timestamp_ms;
    let q1 = t1 / width;
    let q2 = t2 / width;
    assert(q1 * width <= t1 && q2 * width <= t2) by (nonlinear_arith)
        requires
            width > 0,
            q1 == t1 / width,
            q2 == t2 / width,
    ;
    assert(s1.last().bucket_start_ms == bucket_start(t1, width)) by {
        if s0.len() > 0 && s0.last().bucket_start_ms == bucket_start(t1, width) {
            assert(bucket_item(s1.last()).timestamp_ms == bucket_item(s0.last()).timestamp_ms);
        }
    }
    if q1 < q2 {
        assert(q1 * width < q2 * width) by (nonlinear_arith)
            requires
                width > 0,
                q1 < q2,
        ;
    }
}

/// `items` are the items of the newest `n` buckets of `buckets`, oldest
/// first (all of them when there are fewer than `n`).
pub open spec fn newest_bucket_items(items: Seq<AggItem>, buckets: Seq<TimeBucket>, n: int) -> bool {
    let k = if buckets.len() < n {
        buckets.len() as int
    } else {
        n
    };
    &&& items.len() == k
    &&& forall|i: int|
        0 <= i < k ==> #[trigger] items[i] == bucket_item(buckets[buckets.len() - k + i])
}

/// What each window of a view covers: the recent blocks for one minute; the
/// newest 15 or 30 minute buckets, or all of them for an hour; the newest 36
/// or 72 ten-minute buckets (six and twelve hours), or all of them for a day.
pub proof fn law_window_covers_newest_buckets(e: AnalyticsEngine)
    ensures
        e.window_items(TimeWindow::OneMin) == block_items(e.recent_blocks@),
        newest_bucket_items(e.window_items(TimeWindow::FifteenMin), e.minute_buckets@, 15),
        newest_bucket_items(e.window_items(TimeWindow::ThirtyMin), e.minute_buckets@, 30),
        newest_bucket_items(
            e.window_items(TimeWindow::OneHour),
            e.minute_buckets@,
            e.minute_buckets@.len() as int,
        ),
        newest_bucket_items(e.window_items(TimeWindow::SixHour), e.ten_minute_buckets@, 36),
        newest_bucket_items(e.window_items(TimeWindow::TwelveHour), e.ten_minute_buckets@, 72),
        newest_bucket_items(
            e.window_items(TimeWindow::TwentyFourHour),
            e.ten_minute_buckets@,
            e.ten_minute_buckets@.len() as int,
        ),
{
}

/// A view counts exactly the blocks or buckets of its window: for fifteen
/// minutes, `min(15, minute buckets)` buckets, and so on for each window.
pub proof fn law_view_counts_window(e: AnalyticsEngine, w: TimeWindow, v: AggregatedView)
    requires
        is_view_of(v, e.window_items(w), w is OneMin),
    ensures
        ({
            let m = e.minute_buckets@.len() as int;
            let t = e.ten_minute_buckets@.len() as int;
            v.blocks_analyzed == match w {
                TimeWindow::OneMin => e.recent_blocks@.len() as int,
                TimeWindow::FifteenMin => if m < 15 { m } else { 15 },
                TimeWindow::ThirtyMin => if m < 30 { m } else { 30 },
                TimeWindow::OneHour => m,
                TimeWindow::SixHour => if t < 36 { t } else { 36 },
                TimeWindow::TwelveHour => if t < 72 { t } else { 72 },
                TimeWindow::TwentyFourHour => t,
            }
        }),
{
    law_window_covers_newest_buckets(e);
}

} // verus!

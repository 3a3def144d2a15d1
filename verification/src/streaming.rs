//! The decisions of the analytics stream: whether to fetch, wait or stop,
//! how a chain update changes the engine, when the initial sync is over and
//! how long to wait between fetches. Fetching and waiting are left to the
//! caller, which hands back what the node answered.
use vstd::prelude::*;
use vstd::utf8::{decode_utf8, encode_utf8, is_char_boundary};

use crate::analytics::{BlockSummary, TimeBucket, MAX_MINUTE_BUCKETS, MAX_TEN_MINUTE_BUCKETS, ONE_HOUR_MS, ONE_MINUTE_MS, TEN_MINUTES_MS, TWENTY_FOUR_HOURS_MS};
use crate::chain::ChainBlock;
use crate::screen::{AnalyticsState, App};
use crate::engine::{
    can_place_all, drop_old, finalize_cutoff, has_hash, hash_index, hashes_of, hashes_unique,
    inserted, keep_last, older_than, placed_all, without, without_all, AnalyticsEngine,
};

verus! {

/// What the stream does next.
pub enum StreamStep {
    /// The application is quitting: save the engine and end.
    Stop,
    /// Wait this many milliseconds, then ask again.
    Wait(u64),
    /// Fetch the chain update since the last known block.
    Fetch,
}

/// Pause between checks while paused or while the node is not synced.
pub const IDLE_WAIT_MS: u64 = 2000;

/// Pause between fetches once synced.
pub const SYNCED_POLL_MS: u64 = 2000;

/// Pause between fetches during the initial sync.
pub const SYNCING_POLL_MS: u64 = 100;

/// Stop when quitting; wait while paused or while the node is not synced;
/// fetch otherwise.
pub fn next_stream_step(should_quit: bool, paused: bool, node_synced: bool) -> (r: StreamStep)
    ensures
        r == if should_quit {
            StreamStep::Stop
        } else if paused || !node_synced {
            StreamStep::Wait(IDLE_WAIT_MS)
        } else {
            StreamStep::Fetch
        },
{
    if should_quit {
        StreamStep::Stop
    } else if paused || !node_synced {
        StreamStep::Wait(IDLE_WAIT_MS)
    } else {
        StreamStep::Fetch
    }
}

/// The initial sync is over once a fetch brings no new block.
pub fn stream_synced(was_synced: bool, block_count: usize) -> (r: bool)
    ensures
        r == (was_synced || block_count == 0),
{
    was_synced || block_count == 0
}

/// Progress shown while syncing: the last DAA score reached and the tip's.
pub fn sync_progress(synced: bool, last_daa: u64, tip_daa: u64) -> (r: Option<(u64, u64)>)
    ensures
        r == if synced {
            None
        } else {
            Some((last_daa, tip_daa))
        },
{
    if synced {
        None
    } else {
        Some((last_daa, tip_daa))
    }
}

/// Pause before the next fetch.
pub fn poll_delay_ms(synced: bool) -> (r: u64)
    ensures
        r == if synced {
            SYNCED_POLL_MS
        } else {
            SYNCING_POLL_MS
        },
{
    if synced {
        SYNCED_POLL_MS
    } else {
        SYNCING_POLL_MS
    }
}

/// The largest DAA score reported among `blocks`, zero when none is.
pub open spec fn max_daa(blocks: Seq<ChainBlock>) -> u64
    decreases blocks.len(),
{
    if blocks.len() == 0 {
        0
    } else {
        let rest = max_daa(blocks.drop_last());
        match blocks.last().daa_score {
            Some(d) => if d > rest {
                d
            } else {
                rest
            },
            None => rest,
        }
    }
}

/// The largest DAA score reported among `blocks`, zero when none is.
pub fn latest_daa_score(blocks: &Vec<ChainBlock>) -> (r: u64)
    ensures
        r == max_daa(blocks@),
{
    let mut best: u64 = 0;
    let mut i: usize = 0;
    while i < blocks.len()
        invariant
            i <= blocks@.len(),
            best == max_daa(blocks@.take(i as int)),
        decreases blocks@.len() - i,
    {
        proof {
            assert(blocks@.take(i + 1).drop_last() =~= blocks@.take(i as int));
        }
        match blocks[i].daa_score {
            Some(d) => {
                if d > best {
                    best = d;
                }
            },
            None => {},
        }
        i = i + 1;
    }
    proof {
        assert(blocks@.take(i as int) =~= blocks@);
    }
    best
}

/// `h`, cut to its first 16 bytes followed by an ellipsis when longer.
pub open spec fn short_hash(h: Seq<char>) -> Seq<char> {
    if encode_utf8(h).len() > 16 {
        decode_utf8(encode_utf8(h).take(16)) + seq!['…']
    } else {
        h
    }
}

/// The hash can be cut after 16 bytes.
pub open spec fn cuttable(h: Seq<char>) -> bool {
    encode_utf8(h).len() <= 16 || is_char_boundary(encode_utf8(h), 16)
}

/// The note shown when a reorg removes a block that was already folded into
/// the buckets.
pub open spec fn reorg_text(h: Seq<char>) -> Seq<char> {
    "Reorg detected affecting finalized block "@ + short_hash(h)
        + ". Analytics may be slightly inaccurate."@
}

pub fn reorg_message(hash: &str) -> (r: String)
    requires
        cuttable(hash@),
    ensures
        r@ == reorg_text(hash@),
{
    let ghost prefix = "Reorg detected affecting finalized block "@;
    let mut r = String::from_str("Reorg detected affecting finalized block ");
    let ghost start = r@;
    if hash.as_bytes().len() > 16 {
        let (head, _tail) = hash.split_at(16);
        proof {
            vstd::utf8::encode_utf8_decode_utf8(head@);
            assert(encode_utf8(hash@).subrange(0, 16) =~= encode_utf8(hash@).take(16));
            assert(encode_utf8(head@) == encode_utf8(hash@).take(16));
            assert(head@ == decode_utf8(encode_utf8(hash@).take(16)));
        }
        r.append(head);
        r.push('…');
        proof {
            assert(encode_utf8(hash@).len() > 16);
            assert(r@ =~= start + short_hash(hash@));
        }
    } else {
        r.append(hash);
        proof {
            assert(encode_utf8(hash@).len() <= 16);
            assert(r@ =~= start + short_hash(hash@));
        }
    }
    let ghost mid = r@;
    assert(mid == prefix + short_hash(hash@));
    r.append(". Analytics may be slightly inaccurate.");
    r
}

/// Recent blocks, block count, transaction count and reorg note after
/// removing the blocks with hashes `removed`, one after another. A hash that
/// is not among the recent blocks changes nothing but the note.
pub open spec fn after_removals(
    recent: Seq<BlockSummary>,
    blocks: u64,
    txs: u64,
    removed: Seq<Seq<char>>,
) -> (Seq<BlockSummary>, u64, u64, Option<Seq<char>>)
    decreases removed.len(),
{
    if removed.len() == 0 {
        (recent, blocks, txs, None)
    } else {
        let prev = after_removals(recent, blocks, txs, removed.drop_last());
        let h = removed.last();
        if has_hash(prev.0, h) {
            (
                without(prev.0, h),
                prev.1.saturating_sub(1),
                prev.2.saturating_sub(prev.0[hash_index(prev.0, h)].tx_count as u64),
                prev.3,
            )
        } else {
            (prev.0, prev.1, prev.2, Some(reorg_text(h)))
        }
    }
}

/// `recent` after inserting `added`, one after another.
pub open spec fn inserted_all(recent: Seq<BlockSummary>, added: Seq<BlockSummary>) -> Seq<
    BlockSummary,
>
    decreases added.len(),
{
    if added.len() == 0 {
        recent
    } else {
        inserted(inserted_all(recent, added.drop_last()), added.last())
    }
}

/// Transactions of `added`, summed.
pub open spec fn tx_sum(added: Seq<BlockSummary>) -> int
    decreases added.len(),
{
    if added.len() == 0 {
        0
    } else {
        tx_sum(added.drop_last()) + added.last().tx_count
    }
}

proof fn lemma_tx_sum_prefix(added: Seq<BlockSummary>, i: int)
    requires
        0 <= i <= added.len(),
    ensures
        tx_sum(added.take(i)) <= tx_sum(added),
    decreases added.len() - i,
{
    if i < added.len() {
        lemma_tx_sum_prefix(added, i + 1);
        assert(added.take(i + 1).drop_last() =~= added.take(i));
    } else {
        assert(added.take(i) =~= added);
    }
}

/// The text of each string of `v`.
pub open spec fn string_views(v: Seq<String>) -> Seq<Seq<char>> {
    Seq::new(v.len(), |i: int| v[i]@)
}

/// Removes the blocks of a reorg; the note tells of the last one that was
/// already folded into the buckets.
fn remove_all(engine: &mut AnalyticsEngine, removed: &Vec<String>) -> (r: Option<String>)
    requires
        old(engine).wf(),
        forall|k: int| 0 <= k < removed@.len() ==> cuttable(#[trigger] removed@[k]@),
    ensures
        ({
            let st = after_removals(
                old(engine).recent_blocks@,
                old(engine).total_blocks_processed,
                old(engine).total_transactions,
                string_views(removed@),
            );
            &&& final(engine).wf()
            &&& final(engine).recent_blocks@ == st.0
            &&& final(engine).total_blocks_processed == st.1
            &&& final(engine).total_transactions == st.2
            &&& match r {
                Some(m) => st.3 == Some(m@),
                None => st.3 is None,
            }
        }),
        final(engine).minute_buckets@ == old(engine).minute_buckets@,
        final(engine).ten_minute_buckets@ == old(engine).ten_minute_buckets@,
        final(engine).last_known_chain_block == old(engine).last_known_chain_block,
        final(engine).last_minute_bucket_ts == old(engine).last_minute_bucket_ts,
        final(engine).last_ten_minute_bucket_ts == old(engine).last_ten_minute_bucket_ts,
{
    let ghost start = *engine;
    let ghost hs = string_views(removed@);
    let mut note: Option<String> = None;
    let mut k: usize = 0;
    while k < removed.len()
        invariant
            k <= removed@.len(),
            hs == string_views(removed@),
            forall|j: int| 0 <= j < removed@.len() ==> cuttable(#[trigger] removed@[j]@),
            engine.wf(),
            ({
                let st = after_removals(
                    start.recent_blocks@,
                    start.total_blocks_processed,
                    start.total_transactions,
                    hs.take(k as int),
                );
                &&& engine.recent_blocks@ == st.0
                &&& engine.total_blocks_processed == st.1
                &&& engine.total_transactions == st.2
                &&& match note {
                    Some(m) => st.3 == Some(m@),
                    None => st.3 is None,
                }
            }),
            engine.minute_buckets@ == start.minute_buckets@,
            engine.ten_minute_buckets@ == start.ten_minute_buckets@,
            engine.last_known_chain_block == start.last_known_chain_block,
            engine.last_minute_bucket_ts == start.last_minute_bucket_ts,
            engine.last_ten_minute_bucket_ts == start.last_ten_minute_bucket_ts,
        decreases removed@.len() - k,
    {
        proof {
            assert(hs.take(k + 1).drop_last() =~= hs.take(k as int));
            assert(hs.take(k + 1).last() == removed@[k as int]@);
        }
        let hash = removed[k].as_str();
        if !engine.remove_block(hash) {
            proof {
                assert(cuttable(removed@[k as int]@));
            }
            note = Some(reorg_message(hash));
        }
        k = k + 1;
    }
    proof {
        assert(hs.take(k as int) =~= hs);
    }
    note
}

/// Adds the blocks of `added`, in order.
fn add_all(engine: &mut AnalyticsEngine, added: Vec<BlockSummary>)
    requires
        old(engine).wf(),
        old(engine).total_blocks_processed + added@.len() <= u64::MAX,
        old(engine).total_transactions + tx_sum(added@) <= u64::MAX,
    ensures
        final(engine).wf(),
        final(engine).recent_blocks@ == inserted_all(old(engine).recent_blocks@, added@),
        final(engine).total_blocks_processed == old(engine).total_blocks_processed + added@.len(),
        final(engine).total_transactions == old(engine).total_transactions + tx_sum(added@),
        added@.len() == 0 ==> final(engine).last_known_chain_block == old(
            engine,
        ).last_known_chain_block,
        added@.len() > 0 ==> (final(engine).last_known_chain_block matches Some(h) && h@
            == added@.last().hash@),
        final(engine).minute_buckets@ == old(engine).minute_buckets@,
        final(engine).ten_minute_buckets@ == old(engine).ten_minute_buckets@,
        final(engine).last_minute_bucket_ts == old(engine).last_minute_bucket_ts,
        final(engine).last_ten_minute_bucket_ts == old(engine).last_ten_minute_bucket_ts,
{
    let ghost start = *engine;
    let ghost all = added@;
    let n = added.len();
    let mut rest = added;
    let mut reversed: Vec<BlockSummary> = Vec::new();
    while rest.len() > 0
        invariant
            rest@.len() + reversed@.len() == n,
            n == all.len(),
            forall|j: int| 0 <= j < rest@.len() ==> #[trigger] rest@[j] == all[j],
            forall|j: int| 0 <= j < reversed@.len() ==> #[trigger] reversed@[j] == all[n - 1 - j],
        decreases rest@.len(),
    {
        match rest.pop() {
            Some(x) => {
                reversed.push(x);
            },
            None => {},
        }
    }
    let mut k: usize = 0;
    while reversed.len() > 0
        invariant
            n == all.len(),
            k + reversed@.len() == n,
            forall|j: int| 0 <= j < reversed@.len() ==> #[trigger] reversed@[j] == all[n - 1 - j],
            engine.wf(),
            engine.recent_blocks@ == inserted_all(start.recent_blocks@, all.take(k as int)),
            engine.total_blocks_processed == start.total_blocks_processed + k,
            engine.total_transactions == start.total_transactions + tx_sum(all.take(k as int)),
            start.total_blocks_processed + n <= u64::MAX,
            start.total_transactions + tx_sum(all) <= u64::MAX,
            k == 0 ==> engine.last_known_chain_block == start.last_known_chain_block,
            k > 0 ==> (engine.last_known_chain_block matches Some(h) && h@ == all[k - 1].hash@),
            engine.minute_buckets@ == start.minute_buckets@,
            engine.ten_minute_buckets@ == start.ten_minute_buckets@,
            engine.last_minute_bucket_ts == start.last_minute_bucket_ts,
            engine.last_ten_minute_bucket_ts == start.last_ten_minute_bucket_ts,
        decreases reversed@.len(),
    {
        let ghost pre = all.take(k as int);
        let ghost next = all.take(k + 1);
        proof {
            assert(next.drop_last() =~= pre);
            assert(next.last() == all[k as int]);
            assert(reversed@[reversed@.len() - 1] == all[k as int]);
            lemma_tx_sum_prefix(all, k + 1);
        }
        match reversed.pop() {
            Some(summary) => {
                engine.add_block(summary);
            },
            None => {},
        }
        k = k + 1;
    }
    proof {
        assert(all.take(k as int) =~= all);
        if n > 0 {
            assert(all.last() == all[n - 1]);
        }
    }
}

/// Whether a chain update fits the engine `e`: every removed hash can be
/// cut for a note, the counters do not overflow, and every block folded at
/// `now_ms` finds its place among the buckets.
pub open spec fn chain_update_fits(
    e: AnalyticsEngine,
    removed: Seq<Seq<char>>,
    added: Seq<BlockSummary>,
    now_ms: u64,
) -> bool {
    let st = after_removals(e.recent_blocks@, e.total_blocks_processed, e.total_transactions, removed);
    let moved = older_than(inserted_all(st.0, added), finalize_cutoff(now_ms));
    &&& forall|k: int| 0 <= k < removed.len() ==> cuttable(#[trigger] removed[k])
    &&& st.1 + added.len() <= u64::MAX
    &&& st.2 + tx_sum(added) <= u64::MAX
    &&& can_place_all(e.minute_buckets@, moved, ONE_MINUTE_MS)
    &&& can_place_all(e.ten_minute_buckets@, moved, TEN_MINUTES_MS)
}

/// The note a chain update leaves: the reorg text of the last removed hash
/// that was no longer among the recent blocks, if any.
pub open spec fn chain_update_note(e: AnalyticsEngine, removed: Seq<Seq<char>>) -> Option<Seq<char>> {
    after_removals(e.recent_blocks@, e.total_blocks_processed, e.total_transactions, removed).3
}

/// `e1` is `e0` after removing the blocks `removed`, adding the blocks
/// `added` in order, folding the blocks older than a minute at `now_ms`
/// into the buckets and pruning the buckets.
pub open spec fn chain_update_applied(
    e0: AnalyticsEngine,
    e1: AnalyticsEngine,
    removed: Seq<Seq<char>>,
    added: Seq<BlockSummary>,
    now_ms: u64,
) -> bool {
    let st = after_removals(e0.recent_blocks@, e0.total_blocks_processed, e0.total_transactions, removed);
    let recent = inserted_all(st.0, added);
    let moved = older_than(recent, finalize_cutoff(now_ms));
    &&& e1.wf()
    &&& e1.recent_blocks@ == without_all(recent, hashes_of(moved))
    &&& e1.total_blocks_processed == st.1 + added.len()
    &&& e1.total_transactions == st.2 + tx_sum(added)
    &&& exists|m: Seq<TimeBucket>|
        #![trigger placed_all(e0.minute_buckets@, m, moved, ONE_MINUTE_MS)]
        placed_all(e0.minute_buckets@, m, moved, ONE_MINUTE_MS) && e1.minute_buckets@ == keep_last(
            drop_old(m, now_ms.saturating_sub(ONE_HOUR_MS)),
            MAX_MINUTE_BUCKETS as int,
        )
    &&& exists|m: Seq<TimeBucket>|
        #![trigger placed_all(e0.ten_minute_buckets@, m, moved, TEN_MINUTES_MS)]
        placed_all(e0.ten_minute_buckets@, m, moved, TEN_MINUTES_MS)
            && e1.ten_minute_buckets@ == keep_last(
            drop_old(m, now_ms.saturating_sub(TWENTY_FOUR_HOURS_MS)),
            MAX_TEN_MINUTE_BUCKETS as int,
        )
    &&& added.len() == 0 ==> e1.last_known_chain_block == e0.last_known_chain_block
    &&& added.len() > 0 ==> (e1.last_known_chain_block matches Some(h) && h@ == added.last().hash@)
}

/// Applies a chain update to the engine at time `now_ms`: removes the blocks
/// of a reorg, adds the new blocks, folds the blocks older than a minute into
/// the buckets and prunes the buckets. Returns the note to show when a
/// removed block had already been folded into the buckets.
pub fn apply_chain_update(
    engine: &mut AnalyticsEngine,
    removed: &Vec<String>,
    added: Vec<BlockSummary>,
    now_ms: u64,
) -> (r: Option<String>)
    requires
        old(engine).wf(),
        chain_update_fits(*old(engine), string_views(removed@), added@, now_ms),
    ensures
        chain_update_applied(*old(engine), *final(engine), string_views(removed@), added@, now_ms),
        crate::rpc_types::opt_view(r) == chain_update_note(*old(engine), string_views(removed@)),
{
    proof {
        assert forall|k: int| 0 <= k < removed@.len() implies cuttable(#[trigger] removed@[k]@) by {
            assert(string_views(removed@)[k] == removed@[k]@);
        }
    }
    let note = remove_all(engine, removed);
    add_all(engine, added);
    let ghost before_finalize = *engine;
    engine.finalize_old_blocks(now_ms);
    let ghost finalized = *engine;
    engine.prune_buckets(now_ms);
    proof {
        assert(placed_all(before_finalize.minute_buckets@, finalized.minute_buckets@, older_than(before_finalize.recent_blocks@, finalize_cutoff(now_ms)), ONE_MINUTE_MS));
        assert(placed_all(before_finalize.ten_minute_buckets@, finalized.ten_minute_buckets@, older_than(before_finalize.recent_blocks@, finalize_cutoff(now_ms)), TEN_MINUTES_MS));
    }
    note
}

/// Where the next fetch of the chain starts: after the last block the node
/// added, or where this fetch started when it added none.
pub open spec fn next_fetch_start<T>(cursor: T, added_hashes: Seq<T>) -> T {
    if added_hashes.len() > 0 {
        added_hashes.last()
    } else {
        cursor
    }
}

/// One fetch of the analytics stream, once the node has answered: the
/// engine takes the chain update at time `now_ms`; a reorg note, if the
/// update leaves one, replaces the screen's note; the screen is marked for
/// redrawing; and the fetch start moves past the blocks the node added.
/// `cursor` is where this fetch started and `added_hashes` the hashes of
/// the added chain blocks, in order.
pub fn stream_iteration<T: Copy>(
    app: &mut App,
    engine: &mut AnalyticsEngine,
    cursor: T,
    removed: &Vec<String>,
    added: Vec<BlockSummary>,
    added_hashes: &Vec<T>,
    now_ms: u64,
) -> (next: T)
    requires
        old(engine).wf(),
        chain_update_fits(*old(engine), string_views(removed@), added@, now_ms),
    ensures
        chain_update_applied(*old(engine), *final(engine), string_views(removed@), added@, now_ms),
        *final(app) == (App {
            analytics: AnalyticsState {
                reorg_notification: final(app).analytics.reorg_notification,
                ..old(app).analytics
            },
            dirty: true,
            ..*old(app)
        }),
        crate::rpc_types::opt_view(final(app).analytics.reorg_notification) == match chain_update_note(
            *old(engine),
            string_views(removed@),
        ) {
            Some(t) => Some(t),
            None => crate::rpc_types::opt_view(old(app).analytics.reorg_notification),
        },
        next == next_fetch_start(cursor, added_hashes@),
{
    let note = apply_chain_update(engine, removed, added, now_ms);
    match note {
        Some(n) => {
            app.analytics.reorg_notification = Some(n);
        },
        None => {},
    }
    app.dirty = true;
    if added_hashes.len() > 0 {
        added_hashes[added_hashes.len() - 1]
    } else {
        cursor
    }
}

} // verus!

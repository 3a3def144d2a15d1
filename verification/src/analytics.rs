//! Transaction analytics: per-block summaries, the time buckets that
//! accumulate them, and the sums over a window of blocks or buckets.
use std::collections::VecDeque;
use vstd::multiset::Multiset;
use vstd::prelude::*;

use crate::protocol::TransactionProtocol;
use crate::tally::{
    cap_tally, has_key, is_top, keys_unique, merge_tally, tally_of, top_n_sorted, Tally, TallyKey,
};

verus! {

/// Most addresses kept per bucket once a bucket is capped.
pub const MAX_ADDRESSES_PER_BUCKET: usize = 100;

/// Width of a minute bucket, in milliseconds.
pub const ONE_MINUTE_MS: u64 = 60000;

/// Width of a ten-minute bucket, in milliseconds.
pub const TEN_MINUTES_MS: u64 = 600000;

/// How long minute buckets are kept, in milliseconds.
pub const ONE_HOUR_MS: u64 = 3600000;

/// How long ten-minute buckets are kept, in milliseconds.
pub const TWENTY_FOUR_HOURS_MS: u64 = 86400000;

/// Most minute buckets kept.
pub const MAX_MINUTE_BUCKETS: usize = 60;

/// Most ten-minute buckets kept.
pub const MAX_TEN_MINUTE_BUCKETS: usize = 144;

/// What one chain block contributed: transaction counts, mass, fees, and
/// tallies per sending address, receiving address and protocol.
#[derive(Debug, Clone)]
pub struct BlockSummary {
    pub hash: String,
    pub timestamp_ms: u64,
    pub tx_count: usize,
    pub total_mass: u64,
    pub mass_count: usize,
    pub total_fees: u64,
    pub fee_count: usize,
    pub sender_counts: Vec<(String, usize)>,
    pub receiver_counts: Vec<(String, usize)>,
    pub protocol_counts: Vec<(TransactionProtocol, usize)>,
    pub protocol_mass: Vec<(TransactionProtocol, u64)>,
    pub protocol_fees: Vec<(TransactionProtocol, u64)>,
}

/// The blocks of one time interval, summed.
#[derive(Debug, Clone)]
pub struct TimeBucket {
    pub bucket_start_ms: u64,
    pub tx_count: usize,
    pub total_mass: u64,
    pub mass_count: usize,
    pub total_fees: u64,
    pub fee_count: usize,
    pub sender_counts: Vec<(String, usize)>,
    pub receiver_counts: Vec<(String, usize)>,
    pub protocol_counts: Vec<(TransactionProtocol, usize)>,
    pub protocol_mass: Vec<(TransactionProtocol, u64)>,
    pub protocol_fees: Vec<(TransactionProtocol, u64)>,
}

impl BlockSummary {
    /// Every tally names each key once.
    pub open spec fn wf(&self) -> bool {
        &&& keys_unique(self.sender_counts@)
        &&& keys_unique(self.receiver_counts@)
        &&& keys_unique(self.protocol_counts@)
        &&& keys_unique(self.protocol_mass@)
        &&& keys_unique(self.protocol_fees@)
    }
}

/// `m` is the key-wise sum of the tallies `a` and `b`.
pub open spec fn is_sum<K: View, C: Tally>(m: Seq<(K, C)>, a: Seq<(K, C)>, b: Seq<(K, C)>) -> bool {
    &&& keys_unique(m)
    &&& forall|x: K::V| #[trigger] has_key(m, x) == (has_key(a, x) || has_key(b, x))
    &&& forall|x: K::V| tally_of(m, x) == tally_of(a, x) + tally_of(b, x)
}

/// The key-wise sum of `a` and `b` can be formed without overflow.
pub open spec fn sum_fits<K: View, C: Tally>(a: Seq<(K, C)>, b: Seq<(K, C)>) -> bool {
    forall|x: K::V| tally_of(a, x) + tally_of(b, x) <= C::limit()
}

/// `r` is the key-wise sum of `a` and `b`, cut down to its
/// `MAX_ADDRESSES_PER_BUCKET` largest entries when it holds more than twice that many.
pub open spec fn is_capped_sum(r: Seq<(String, usize)>, a: Seq<(String, usize)>, b: Seq<(String, usize)>) -> bool {
    exists|m: Seq<(String, usize)>|
        #![trigger is_sum(m, a, b)]
        is_sum(m, a, b) && if m.len() > 2 * MAX_ADDRESSES_PER_BUCKET {
            is_top(m, r, MAX_ADDRESSES_PER_BUCKET as int) && keys_unique(r)
        } else {
            r == m
        }
}

impl TimeBucket {
    /// Every tally names each key once.
    pub open spec fn wf(&self) -> bool {
        &&& keys_unique(self.sender_counts@)
        &&& keys_unique(self.receiver_counts@)
        &&& keys_unique(self.protocol_counts@)
        &&& keys_unique(self.protocol_mass@)
        &&& keys_unique(self.protocol_fees@)
    }

    /// Merging `block` into this bucket cannot overflow a counter.
    pub open spec fn can_merge(&self, block: &BlockSummary) -> bool {
        item_can_merge(bucket_item(*self), block_item(*block))
    }

    /// `self` is `before` with `block` merged in.
    pub open spec fn is_merge_of(&self, before: &TimeBucket, block: &BlockSummary) -> bool {
        is_merged(bucket_item(*self), bucket_item(*before), block_item(*block))
    }

    /// An empty bucket starting at `bucket_start_ms`.
    pub fn new(bucket_start_ms: u64) -> (r: TimeBucket)
        ensures
            r.bucket_start_ms == bucket_start_ms,
            r.tx_count == 0,
            r.total_mass == 0,
            r.mass_count == 0,
            r.total_fees == 0,
            r.fee_count == 0,
            r.sender_counts@.len() == 0,
            r.receiver_counts@.len() == 0,
            r.protocol_counts@.len() == 0,
            r.protocol_mass@.len() == 0,
            r.protocol_fees@.len() == 0,
            bucket_item(r) == empty_item(bucket_start_ms),
            r.wf(),
    {
        TimeBucket {
            bucket_start_ms,
            tx_count: 0,
            total_mass: 0,
            mass_count: 0,
            total_fees: 0,
            fee_count: 0,
            sender_counts: Vec::new(),
            receiver_counts: Vec::new(),
            protocol_counts: Vec::new(),
            protocol_mass: Vec::new(),
            protocol_fees: Vec::new(),
        }
    }

    /// Adds the counters and tallies of `block`; an address tally that grows
    /// past twice `MAX_ADDRESSES_PER_BUCKET` is cut to its largest entries.
    pub fn merge_block(&mut self, block: &BlockSummary)
        requires
            old(self).wf(),
            old(self).can_merge(block),
        ensures
            final(self).wf(),
            final(self).is_merge_of(old(self), block),
    {
        self.tx_count = self.tx_count + block.tx_count;
        self.total_mass = self.total_mass + block.total_mass;
        self.mass_count = self.mass_count + block.mass_count;
        self.total_fees = self.total_fees + block.total_fees;
        self.fee_count = self.fee_count + block.fee_count;
        merge_tally(&mut self.sender_counts, &block.sender_counts);
        merge_tally(&mut self.receiver_counts, &block.receiver_counts);
        merge_tally(&mut self.protocol_counts, &block.protocol_counts);
        merge_tally(&mut self.protocol_mass, &block.protocol_mass);
        merge_tally(&mut self.protocol_fees, &block.protocol_fees);
        let ghost senders = self.sender_counts@;
        let ghost receivers = self.receiver_counts@;
        if self.sender_counts.len() > MAX_ADDRESSES_PER_BUCKET * 2 {
            cap_tally(&mut self.sender_counts, MAX_ADDRESSES_PER_BUCKET);
        }
        if self.receiver_counts.len() > MAX_ADDRESSES_PER_BUCKET * 2 {
            cap_tally(&mut self.receiver_counts, MAX_ADDRESSES_PER_BUCKET);
        }
        proof {
            assert(is_sum(senders, old(self).sender_counts@, block.sender_counts@));
            assert(is_sum(receivers, old(self).receiver_counts@, block.receiver_counts@));
        }
    }
}


/// How many senders and receivers a view lists.
pub const TOP_ADDRESSES: usize = 20;

/// One summed unit of the analytics: a block or a bucket.
pub struct AggItem {
    pub timestamp_ms: u64,
    pub tx_count: usize,
    pub total_mass: u64,
    pub mass_count: usize,
    pub total_fees: u64,
    pub fee_count: usize,
    pub sender_counts: Seq<(String, usize)>,
    pub receiver_counts: Seq<(String, usize)>,
    pub protocol_counts: Seq<(TransactionProtocol, usize)>,
    pub protocol_mass: Seq<(TransactionProtocol, u64)>,
    pub protocol_fees: Seq<(TransactionProtocol, u64)>,
}

pub open spec fn block_item(b: BlockSummary) -> AggItem {
    AggItem {
        timestamp_ms: b.timestamp_ms,
        tx_count: b.tx_count,
        total_mass: b.total_mass,
        mass_count: b.mass_count,
        total_fees: b.total_fees,
        fee_count: b.fee_count,
        sender_counts: b.sender_counts@,
        receiver_counts: b.receiver_counts@,
        protocol_counts: b.protocol_counts@,
        protocol_mass: b.protocol_mass@,
        protocol_fees: b.protocol_fees@,
    }
}

pub open spec fn bucket_item(b: TimeBucket) -> AggItem {
    AggItem {
        timestamp_ms: b.bucket_start_ms,
        tx_count: b.tx_count,
        total_mass: b.total_mass,
        mass_count: b.mass_count,
        total_fees: b.total_fees,
        fee_count: b.fee_count,
        sender_counts: b.sender_counts@,
        receiver_counts: b.receiver_counts@,
        protocol_counts: b.protocol_counts@,
        protocol_mass: b.protocol_mass@,
        protocol_fees: b.protocol_fees@,
    }
}

pub open spec fn block_items(v: Seq<BlockSummary>) -> Seq<AggItem> {
    Seq::new(v.len(), |i: int| block_item(v[i]))
}

pub open spec fn bucket_items(v: Seq<TimeBucket>) -> Seq<AggItem> {
    Seq::new(v.len(), |i: int| bucket_item(v[i]))
}

/// An item with nothing counted, starting at `start`.
pub open spec fn empty_item(start: u64) -> AggItem {
    AggItem {
        timestamp_ms: start,
        tx_count: 0,
        total_mass: 0,
        mass_count: 0,
        total_fees: 0,
        fee_count: 0,
        sender_counts: Seq::empty(),
        receiver_counts: Seq::empty(),
        protocol_counts: Seq::empty(),
        protocol_mass: Seq::empty(),
        protocol_fees: Seq::empty(),
    }
}

/// Adding `block` to `before` cannot overflow a counter.
pub open spec fn item_can_merge(before: AggItem, block: AggItem) -> bool {
    &&& before.tx_count + block.tx_count <= usize::MAX
    &&& before.total_mass + block.total_mass <= u64::MAX
    &&& before.mass_count + block.mass_count <= usize::MAX
    &&& before.total_fees + block.total_fees <= u64::MAX
    &&& before.fee_count + block.fee_count <= usize::MAX
    &&& sum_fits(before.sender_counts, block.sender_counts)
    &&& sum_fits(before.receiver_counts, block.receiver_counts)
    &&& sum_fits(before.protocol_counts, block.protocol_counts)
    &&& sum_fits(before.protocol_mass, block.protocol_mass)
    &&& sum_fits(before.protocol_fees, block.protocol_fees)
}

/// `after` is `before` with `block` added: same start, counters summed,
/// tallies summed key by key, and each address tally cut to its largest
/// `MAX_ADDRESSES_PER_BUCKET` entries once it holds more than twice that many.
pub open spec fn is_merged(after: AggItem, before: AggItem, block: AggItem) -> bool {
    &&& after.timestamp_ms == before.timestamp_ms
    &&& after.tx_count == before.tx_count + block.tx_count
    &&& after.total_mass == before.total_mass + block.total_mass
    &&& after.mass_count == before.mass_count + block.mass_count
    &&& after.total_fees == before.total_fees + block.total_fees
    &&& after.fee_count == before.fee_count + block.fee_count
    &&& is_capped_sum(after.sender_counts, before.sender_counts, block.sender_counts)
    &&& is_capped_sum(after.receiver_counts, before.receiver_counts, block.receiver_counts)
    &&& is_sum(after.protocol_counts, before.protocol_counts, block.protocol_counts)
    &&& is_sum(after.protocol_mass, before.protocol_mass, block.protocol_mass)
    &&& is_sum(after.protocol_fees, before.protocol_fees, block.protocol_fees)
}

/// Sum of a sequence of integers.
pub open spec fn sum_int(s: Seq<int>) -> int
    decreases s.len(),
{
    if s.len() == 0 {
        0
    } else {
        sum_int(s.drop_last()) + s.last()
    }
}

pub open spec fn tx_counts(items: Seq<AggItem>) -> Seq<int> {
    Seq::new(items.len(), |i: int| items[i].tx_count as int)
}

pub open spec fn masses(items: Seq<AggItem>) -> Seq<int> {
    Seq::new(items.len(), |i: int| items[i].total_mass as int)
}

pub open spec fn mass_counts(items: Seq<AggItem>) -> Seq<int> {
    Seq::new(items.len(), |i: int| items[i].mass_count as int)
}

pub open spec fn fees(items: Seq<AggItem>) -> Seq<int> {
    Seq::new(items.len(), |i: int| items[i].total_fees as int)
}

pub open spec fn fee_counts(items: Seq<AggItem>) -> Seq<int> {
    Seq::new(items.len(), |i: int| items[i].fee_count as int)
}

pub open spec fn senders_of(items: Seq<AggItem>) -> Seq<Seq<(String, usize)>> {
    Seq::new(items.len(), |i: int| items[i].sender_counts)
}

pub open spec fn receivers_of(items: Seq<AggItem>) -> Seq<Seq<(String, usize)>> {
    Seq::new(items.len(), |i: int| items[i].receiver_counts)
}

pub open spec fn protocol_counts_of(items: Seq<AggItem>) -> Seq<Seq<(TransactionProtocol, usize)>> {
    Seq::new(items.len(), |i: int| items[i].protocol_counts)
}

pub open spec fn protocol_mass_of(items: Seq<AggItem>) -> Seq<Seq<(TransactionProtocol, u64)>> {
    Seq::new(items.len(), |i: int| items[i].protocol_mass)
}

pub open spec fn protocol_fees_of(items: Seq<AggItem>) -> Seq<Seq<(TransactionProtocol, u64)>> {
    Seq::new(items.len(), |i: int| items[i].protocol_fees)
}

/// Total counted for `x` over a sequence of tallies.
pub open spec fn tally_total<K: View, C: Tally>(ts: Seq<Seq<(K, C)>>, x: K::V) -> int
    decreases ts.len(),
{
    if ts.len() == 0 {
        0
    } else {
        tally_total(ts.drop_last(), x) + tally_of(ts.last(), x)
    }
}

/// Some tally of `ts` has key `x`.
pub open spec fn any_has_key<K: View, C>(ts: Seq<Seq<(K, C)>>, x: K::V) -> bool {
    exists|i: int| 0 <= i < ts.len() && has_key(#[trigger] ts[i], x)
}

/// `t` is the key-wise total of the tallies `ts`.
pub open spec fn is_total<K: View, C: Tally>(t: Seq<(K, C)>, ts: Seq<Seq<(K, C)>>) -> bool {
    &&& keys_unique(t)
    &&& forall|x: K::V| #[trigger] has_key(t, x) == any_has_key(ts, x)
    &&& forall|x: K::V| #[trigger] tally_of(t, x) == tally_total(ts, x)
}

/// No key-wise total of `ts` overflows.
pub open spec fn total_fits<K: View, C: Tally>(ts: Seq<Seq<(K, C)>>) -> bool {
    forall|x: K::V| #[trigger] tally_total(ts, x) <= C::limit()
}

/// One point of the series that the charts draw.
#[derive(Debug, Clone, Copy, PartialEq, Eq, Structural)]
pub struct SeriesPoint {
    pub timestamp_ms: u64,
    pub total_mass: u64,
    pub mass_count: usize,
    pub tx_count: usize,
}

pub open spec fn point_of(it: AggItem) -> SeriesPoint {
    SeriesPoint {
        timestamp_ms: it.timestamp_ms,
        total_mass: it.total_mass,
        mass_count: it.mass_count,
        tx_count: it.tx_count,
    }
}

pub open spec fn points_of(items: Seq<AggItem>) -> Seq<SeriesPoint> {
    Seq::new(items.len(), |i: int| point_of(items[i]))
}

/// Timestamps never decrease along `v`.
pub open spec fn sorted_by_time(v: Seq<SeriesPoint>) -> bool {
    forall|i: int, j: int|
        0 <= i < j < v.len() ==> (#[trigger] v[i]).timestamp_ms <= (#[trigger] v[j]).timestamp_ms
}

/// Sums over a window of blocks or buckets. The averages that the screens
/// show are these totals divided by their counts.
#[derive(Debug, Clone)]
pub struct AggregatedView {
    pub total_mass: u64,
    pub mass_count: usize,
    pub total_fees: u64,
    pub fee_count: usize,
    pub tx_count: usize,
    pub blocks_analyzed: usize,
    pub top_senders: Vec<(String, usize)>,
    pub top_receivers: Vec<(String, usize)>,
    pub protocol_counts: Vec<(TransactionProtocol, usize)>,
    pub protocol_mass: Vec<(TransactionProtocol, u64)>,
    pub protocol_fees: Vec<(TransactionProtocol, u64)>,
    pub series: Vec<SeriesPoint>,
}

/// The sums over `items` fit their counters.
pub open spec fn aggregate_fits(items: Seq<AggItem>) -> bool {
    &&& sum_int(tx_counts(items)) <= usize::MAX
    &&& sum_int(masses(items)) <= u64::MAX
    &&& sum_int(mass_counts(items)) <= usize::MAX
    &&& sum_int(fees(items)) <= u64::MAX
    &&& sum_int(fee_counts(items)) <= usize::MAX
    &&& total_fits(senders_of(items))
    &&& total_fits(receivers_of(items))
    &&& total_fits(protocol_counts_of(items))
    &&& total_fits(protocol_mass_of(items))
    &&& total_fits(protocol_fees_of(items))
}

/// `v` sums `items`: counters are totals, the address lists are the
/// `TOP_ADDRESSES` largest totals, the protocol lists hold every protocol
/// total, largest first, and the series has one point per item, in item
/// order or, when `by_time`, ordered by time.
pub open spec fn is_view_of(v: AggregatedView, items: Seq<AggItem>, by_time: bool) -> bool {
    &&& v.blocks_analyzed == items.len()
    &&& v.tx_count == sum_int(tx_counts(items))
    &&& v.total_mass == sum_int(masses(items))
    &&& v.mass_count == sum_int(mass_counts(items))
    &&& v.total_fees == sum_int(fees(items))
    &&& v.fee_count == sum_int(fee_counts(items))
    &&& exists|t: Seq<(String, usize)>|
        #![trigger is_total(t, senders_of(items))]
        is_total(t, senders_of(items)) && is_top(t, v.top_senders@, TOP_ADDRESSES as int)
    &&& exists|t: Seq<(String, usize)>|
        #![trigger is_total(t, receivers_of(items))]
        is_total(t, receivers_of(items)) && is_top(t, v.top_receivers@, TOP_ADDRESSES as int)
    &&& exists|t: Seq<(TransactionProtocol, usize)>|
        #![trigger is_total(t, protocol_counts_of(items))]
        is_total(t, protocol_counts_of(items)) && is_top(t, v.protocol_counts@, t.len() as int)
    &&& exists|t: Seq<(TransactionProtocol, u64)>|
        #![trigger is_total(t, protocol_mass_of(items))]
        is_total(t, protocol_mass_of(items)) && is_top(t, v.protocol_mass@, t.len() as int)
    &&& exists|t: Seq<(TransactionProtocol, u64)>|
        #![trigger is_total(t, protocol_fees_of(items))]
        is_total(t, protocol_fees_of(items)) && is_top(t, v.protocol_fees@, t.len() as int)
    &&& if by_time {
        &&& v.series@.to_multiset() == points_of(items).to_multiset()
        &&& sorted_by_time(v.series@)
    } else {
        v.series@ == points_of(items)
    }
}

proof fn lemma_sum_step(s: Seq<int>, i: int)
    requires
        0 <= i < s.len(),
    ensures
        sum_int(s.take(i + 1)) == sum_int(s.take(i)) + s[i],
{
    assert(s.take(i + 1).drop_last() =~= s.take(i));
}

proof fn lemma_sum_prefix(s: Seq<int>, i: int)
    requires
        0 <= i <= s.len(),
        forall|j: int| 0 <= j < s.len() ==> s[j] >= 0,
    ensures
        sum_int(s.take(i)) <= sum_int(s),
    decreases s.len() - i,
{
    if i < s.len() {
        lemma_sum_prefix(s, i + 1);
        lemma_sum_step(s, i);
    } else {
        assert(s.take(i) =~= s);
    }
}

proof fn lemma_total_nonneg<K: View, C: Tally>(ts: Seq<Seq<(K, C)>>, x: K::V)
    ensures
        tally_total(ts, x) >= 0,
    decreases ts.len(),
{
    if ts.len() > 0 {
        lemma_total_nonneg(ts.drop_last(), x);
        crate::tally::lemma_tally_nonneg(ts.last(), x);
    }
}

proof fn lemma_total_prefix<K: View, C: Tally>(ts: Seq<Seq<(K, C)>>, i: int, x: K::V)
    requires
        0 <= i <= ts.len(),
    ensures
        tally_total(ts.take(i), x) <= tally_total(ts, x),
    decreases ts.len() - i,
{
    if i < ts.len() {
        lemma_total_prefix(ts, i + 1, x);
        assert(ts.take(i + 1).drop_last() =~= ts.take(i));
        crate::tally::lemma_tally_nonneg(ts[i], x);
    } else {
        assert(ts.take(i) =~= ts);
    }
}

/// Adding one more tally to a running total.
proof fn lemma_total_step<K: View, C: Tally>(
    before: Seq<(K, C)>,
    after: Seq<(K, C)>,
    ts: Seq<Seq<(K, C)>>,
    i: int,
)
    requires
        0 <= i < ts.len(),
        is_total(before, ts.take(i)),
        is_sum(after, before, ts[i]),
    ensures
        is_total(after, ts.take(i + 1)),
{
    let t1 = ts.take(i + 1);
    assert(t1.drop_last() =~= ts.take(i));
    assert(t1.last() == ts[i]);
    assert forall|x: K::V| #[trigger] has_key(after, x) == any_has_key(t1, x) by {
        if any_has_key(ts.take(i), x) {
            let j = choose|j: int| 0 <= j < ts.take(i).len() && has_key(#[trigger] ts.take(i)[j], x);
            assert(t1[j] == ts.take(i)[j]);
        }
        if has_key(ts[i], x) {
            assert(t1[i] == ts[i]);
        }
        if any_has_key(t1, x) {
            let j = choose|j: int| 0 <= j < t1.len() && has_key(#[trigger] t1[j], x);
            if j < i {
                assert(t1[j] == ts.take(i)[j]);
            }
        }
    }
}

/// Running sums while a view is built.
struct Accum {
    blocks: usize,
    tx: usize,
    mass: u64,
    mass_count: usize,
    fees: u64,
    fee_count: usize,
    senders: Vec<(String, usize)>,
    receivers: Vec<(String, usize)>,
    protocols: Vec<(TransactionProtocol, usize)>,
    protocol_mass: Vec<(TransactionProtocol, u64)>,
    protocol_fees: Vec<(TransactionProtocol, u64)>,
    series: Vec<SeriesPoint>,
}

/// `a` holds the sums over the first `i` of `items`.
spec fn accum_of(a: Accum, items: Seq<AggItem>, i: int) -> bool {
    let p = items.take(i);
    &&& a.blocks == i
    &&& a.tx == sum_int(tx_counts(p))
    &&& a.mass == sum_int(masses(p))
    &&& a.mass_count == sum_int(mass_counts(p))
    &&& a.fees == sum_int(fees(p))
    &&& a.fee_count == sum_int(fee_counts(p))
    &&& is_total(a.senders@, senders_of(p))
    &&& is_total(a.receivers@, receivers_of(p))
    &&& is_total(a.protocols@, protocol_counts_of(p))
    &&& is_total(a.protocol_mass@, protocol_mass_of(p))
    &&& is_total(a.protocol_fees@, protocol_fees_of(p))
    &&& a.series@ == points_of(p)
}

fn empty_accum() -> (a: Accum)
    ensures
        forall|items: Seq<AggItem>| accum_of(a, items, 0),
{
    let a = Accum {
        blocks: 0,
        tx: 0,
        mass: 0,
        mass_count: 0,
        fees: 0,
        fee_count: 0,
        senders: Vec::new(),
        receivers: Vec::new(),
        protocols: Vec::new(),
        protocol_mass: Vec::new(),
        protocol_fees: Vec::new(),
        series: Vec::new(),
    };
    proof {
        assert forall|items: Seq<AggItem>| accum_of(a, items, 0) by {
            let p = items.take(0);
            assert(p.len() == 0);
            assert(points_of(p) =~= Seq::<SeriesPoint>::empty());
        }
    }
    a
}

/// Facts about the item at `i` that a running sum step needs.
proof fn lemma_item_step(items: Seq<AggItem>, i: int)
    requires
        0 <= i < items.len(),
    ensures
        tx_counts(items.take(i + 1)) =~= tx_counts(items).take(i + 1),
        tx_counts(items.take(i)) =~= tx_counts(items).take(i),
        masses(items.take(i + 1)) =~= masses(items).take(i + 1),
        masses(items.take(i)) =~= masses(items).take(i),
        mass_counts(items.take(i + 1)) =~= mass_counts(items).take(i + 1),
        mass_counts(items.take(i)) =~= mass_counts(items).take(i),
        fees(items.take(i + 1)) =~= fees(items).take(i + 1),
        fees(items.take(i)) =~= fees(items).take(i),
        fee_counts(items.take(i + 1)) =~= fee_counts(items).take(i + 1),
        fee_counts(items.take(i)) =~= fee_counts(items).take(i),
        senders_of(items.take(i + 1)) =~= senders_of(items).take(i + 1),
        senders_of(items.take(i)) =~= senders_of(items).take(i),
        receivers_of(items.take(i + 1)) =~= receivers_of(items).take(i + 1),
        receivers_of(items.take(i)) =~= receivers_of(items).take(i),
        protocol_counts_of(items.take(i + 1)) =~= protocol_counts_of(items).take(i + 1),
        protocol_counts_of(items.take(i)) =~= protocol_counts_of(items).take(i),
        protocol_mass_of(items.take(i + 1)) =~= protocol_mass_of(items).take(i + 1),
        protocol_mass_of(items.take(i)) =~= protocol_mass_of(items).take(i),
        protocol_fees_of(items.take(i + 1)) =~= protocol_fees_of(items).take(i + 1),
        protocol_fees_of(items.take(i)) =~= protocol_fees_of(items).take(i),
        points_of(items.take(i + 1)) =~= points_of(items.take(i)).push(point_of(items[i])),
{
}

proof fn lemma_fits_step<K: View, C: Tally>(acc: Seq<(K, C)>, ts: Seq<Seq<(K, C)>>, i: int)
    requires
        0 <= i < ts.len(),
        is_total(acc, ts.take(i)),
        total_fits(ts),
    ensures
        sum_fits(acc, ts[i]),
{
    assert forall|x: K::V| tally_of(acc, x) + tally_of(ts[i], x) <= C::limit() by {
        lemma_total_prefix(ts, i + 1, x);
        assert(ts.take(i + 1).drop_last() =~= ts.take(i));
        assert(ts.take(i + 1).last() == ts[i]);
        assert(tally_total(ts, x) <= C::limit());
    }
}

/// Adds the item at `i` (given by its fields) to the running sums.
fn accumulate(
    a: &mut Accum,
    Ghost(items): Ghost<Seq<AggItem>>,
    Ghost(i): Ghost<int>,
    timestamp_ms: u64,
    tx_count: usize,
    total_mass: u64,
    mass_count: usize,
    total_fees: u64,
    fee_count: usize,
    sender_counts: &Vec<(String, usize)>,
    receiver_counts: &Vec<(String, usize)>,
    protocol_counts: &Vec<(TransactionProtocol, usize)>,
    protocol_mass: &Vec<(TransactionProtocol, u64)>,
    protocol_fees: &Vec<(TransactionProtocol, u64)>,
)
    requires
        0 <= i < items.len(),
        accum_of(*old(a), items, i),
        aggregate_fits(items),
        items[i] == (AggItem {
            timestamp_ms,
            tx_count,
            total_mass,
            mass_count,
            total_fees,
            fee_count,
            sender_counts: sender_counts@,
            receiver_counts: receiver_counts@,
            protocol_counts: protocol_counts@,
            protocol_mass: protocol_mass@,
            protocol_fees: protocol_fees@,
        }),
        old(a).blocks < usize::MAX,
    ensures
        accum_of(*final(a), items, i + 1),
{
    proof {
        lemma_item_step(items, i);
        lemma_sum_step(tx_counts(items), i);
        lemma_sum_prefix(tx_counts(items), i + 1);
        lemma_sum_step(masses(items), i);
        lemma_sum_prefix(masses(items), i + 1);
        lemma_sum_step(mass_counts(items), i);
        lemma_sum_prefix(mass_counts(items), i + 1);
        lemma_sum_step(fees(items), i);
        lemma_sum_prefix(fees(items), i + 1);
        lemma_sum_step(fee_counts(items), i);
        lemma_sum_prefix(fee_counts(items), i + 1);
        lemma_fits_step(a.senders@, senders_of(items), i);
        lemma_fits_step(a.receivers@, receivers_of(items), i);
        lemma_fits_step(a.protocols@, protocol_counts_of(items), i);
        lemma_fits_step(a.protocol_mass@, protocol_mass_of(items), i);
        lemma_fits_step(a.protocol_fees@, protocol_fees_of(items), i);
    }
    let ghost before = *a;
    a.blocks = a.blocks + 1;
    a.tx = a.tx + tx_count;
    a.mass = a.mass + total_mass;
    a.mass_count = a.mass_count + mass_count;
    a.fees = a.fees + total_fees;
    a.fee_count = a.fee_count + fee_count;
    merge_tally(&mut a.senders, sender_counts);
    merge_tally(&mut a.receivers, receiver_counts);
    merge_tally(&mut a.protocols, protocol_counts);
    merge_tally(&mut a.protocol_mass, protocol_mass);
    merge_tally(&mut a.protocol_fees, protocol_fees);
    a.series.push(SeriesPoint { timestamp_ms, total_mass, mass_count, tx_count });
    proof {
        lemma_total_step(before.senders@, a.senders@, senders_of(items), i);
        lemma_total_step(before.receivers@, a.receivers@, receivers_of(items), i);
        lemma_total_step(before.protocols@, a.protocols@, protocol_counts_of(items), i);
        lemma_total_step(before.protocol_mass@, a.protocol_mass@, protocol_mass_of(items), i);
        lemma_total_step(before.protocol_fees@, a.protocol_fees@, protocol_fees_of(items), i);
    }
}


/// Index of a point with the earliest timestamp.
fn index_of_earliest(v: &Vec<SeriesPoint>) -> (m: usize)
    requires
        v@.len() > 0,
    ensures
        m < v@.len(),
        forall|j: int| 0 <= j < v@.len() ==> v@[m as int].timestamp_ms <= (#[trigger] v@[j]).timestamp_ms,
{
    let mut m: usize = 0;
    let mut i: usize = 1;
    while i < v.len()
        invariant
            1 <= i <= v@.len(),
            m < i,
            forall|j: int| 0 <= j < i ==> v@[m as int].timestamp_ms <= (#[trigger] v@[j]).timestamp_ms,
        decreases v@.len() - i,
    {
        if v[i].timestamp_ms < v[m].timestamp_ms {
            m = i;
        }
        i = i + 1;
    }
    m
}

/// The points ordered by timestamp.
fn sort_series_by_time(v: Vec<SeriesPoint>) -> (r: Vec<SeriesPoint>)
    ensures
        r@.to_multiset() == v@.to_multiset(),
        sorted_by_time(r@),
{
    broadcast use vstd::seq_lib::group_to_multiset_ensures;
    broadcast use vstd::multiset::group_multiset_axioms;

    let ghost orig = v@;
    let mut rest = v;
    let mut r: Vec<SeriesPoint> = Vec::new();
    while rest.len() > 0
        invariant
            r@.to_multiset().add(rest@.to_multiset()) == orig.to_multiset(),
            sorted_by_time(r@),
            forall|i: int, j: int|
                0 <= i < r@.len() && 0 <= j < rest@.len() ==> (#[trigger] r@[i]).timestamp_ms
                    <= (#[trigger] rest@[j]).timestamp_ms,
        decreases rest@.len(),
    {
        let m = index_of_earliest(&rest);
        let ghost before_r = r@;
        let ghost before_rest = rest@;
        let x = rest.remove(m);
        r.push(x);
        proof {
            assert(r@ == before_r.push(x));
            assert(rest@ == before_rest.remove(m as int));
            assert(before_rest.contains(x));
            vstd::seq_lib::to_multiset_contains(before_rest, x);
            vstd::seq_lib::to_multiset_remove(before_rest, m as int);
            vstd::seq_lib::to_multiset_build(before_r, x);
            assert(r@.to_multiset().add(rest@.to_multiset()) =~= orig.to_multiset());
            assert forall|i: int, j: int|
                0 <= i < r@.len() && 0 <= j < rest@.len() implies (#[trigger] r@[i]).timestamp_ms
                <= (#[trigger] rest@[j]).timestamp_ms by {
                let jj = if j < m {
                    j
                } else {
                    j + 1
                };
                assert(rest@[j] == before_rest[jj]);
                if i < before_r.len() {
                    assert(before_r[i] == r@[i]);
                }
            }
            assert forall|i: int, j: int| 0 <= i < j < r@.len() implies (#[trigger] r@[i]).timestamp_ms
                <= (#[trigger] r@[j]).timestamp_ms by {
                if j == r@.len() - 1 {
                    assert(before_rest[m as int] == x);
                }
            }
        }
    }
    proof {
        assert(rest@.to_multiset() =~= Multiset::empty());
        assert(r@.to_multiset() =~= orig.to_multiset());
    }
    r
}

/// Turns the running sums over all of `items` into a view.
fn finish_view(a: Accum, Ghost(items): Ghost<Seq<AggItem>>, by_time: bool) -> (v: AggregatedView)
    requires
        accum_of(a, items, items.len() as int),
    ensures
        is_view_of(v, items, by_time),
{
    proof {
        assert(items.take(items.len() as int) =~= items);
    }
    let ghost senders = a.senders@;
    let ghost receivers = a.receivers@;
    let ghost protocols = a.protocols@;
    let ghost protocol_mass = a.protocol_mass@;
    let ghost protocol_fees = a.protocol_fees@;
    let np = a.protocols.len();
    let nm = a.protocol_mass.len();
    let nf = a.protocol_fees.len();
    let series = if by_time {
        sort_series_by_time(a.series)
    } else {
        a.series
    };
    let v = AggregatedView {
        total_mass: a.mass,
        mass_count: a.mass_count,
        total_fees: a.fees,
        fee_count: a.fee_count,
        tx_count: a.tx,
        blocks_analyzed: a.blocks,
        top_senders: top_n_sorted(a.senders, TOP_ADDRESSES),
        top_receivers: top_n_sorted(a.receivers, TOP_ADDRESSES),
        protocol_counts: top_n_sorted(a.protocols, np),
        protocol_mass: top_n_sorted(a.protocol_mass, nm),
        protocol_fees: top_n_sorted(a.protocol_fees, nf),
        series,
    };
    proof {
        assert(is_total(senders, senders_of(items)));
        assert(is_total(receivers, receivers_of(items)));
        assert(is_total(protocols, protocol_counts_of(items)));
        assert(is_total(protocol_mass, protocol_mass_of(items)));
        assert(is_total(protocol_fees, protocol_fees_of(items)));
    }
    v
}

/// The blocks that `refs` point to.
pub open spec fn derefs(refs: Seq<&BlockSummary>) -> Seq<BlockSummary> {
    refs.map_values(|b: &BlockSummary| *b)
}

/// Sums over all `blocks`, with the series ordered by time.
pub fn aggregate_blocks(blocks: &Vec<&BlockSummary>) -> (v: AggregatedView)
    requires
        aggregate_fits(block_items(derefs(blocks@))),
    ensures
        is_view_of(v, block_items(derefs(blocks@)), true),
{
    let ghost items = block_items(derefs(blocks@));
    let mut a = empty_accum();
    let mut i: usize = 0;
    while i < blocks.len()
        invariant
            items == block_items(derefs(blocks@)),
            i <= blocks@.len(),
            accum_of(a, items, i as int),
            aggregate_fits(items),
        decreases blocks@.len() - i,
    {
        let b: &BlockSummary = blocks[i];
        accumulate(
            &mut a,
            Ghost(items),
            Ghost(i as int),
            b.timestamp_ms,
            b.tx_count,
            b.total_mass,
            b.mass_count,
            b.total_fees,
            b.fee_count,
            &b.sender_counts,
            &b.receiver_counts,
            &b.protocol_counts,
            &b.protocol_mass,
            &b.protocol_fees,
        );
        i = i + 1;
    }
    finish_view(a, Ghost(items), true)
}

/// The buckets from position `skip` on.
pub open spec fn buckets_from(buckets: Seq<TimeBucket>, skip: int) -> Seq<AggItem> {
    bucket_items(buckets.skip(skip))
}

/// Sums over the buckets from position `skip` on, series in bucket order.
pub fn aggregate_buckets_from(buckets: &VecDeque<TimeBucket>, skip: usize) -> (v: AggregatedView)
    requires
        skip <= buckets@.len(),
        aggregate_fits(buckets_from(buckets@, skip as int)),
    ensures
        is_view_of(v, buckets_from(buckets@, skip as int), false),
{
    let ghost items = buckets_from(buckets@, skip as int);
    let mut a = empty_accum();
    let mut i: usize = skip;
    while i < buckets.len()
        invariant
            items == buckets_from(buckets@, skip as int),
            skip <= i <= buckets@.len(),
            accum_of(a, items, i - skip),
            aggregate_fits(items),
            items.len() == buckets@.len() - skip,
        decreases buckets@.len() - i,
    {
        let b = &buckets[i];
        proof {
            assert(items[i - skip] == bucket_item(buckets@[i as int]));
        }
        accumulate(
            &mut a,
            Ghost(items),
            Ghost(i - skip),
            b.bucket_start_ms,
            b.tx_count,
            b.total_mass,
            b.mass_count,
            b.total_fees,
            b.fee_count,
            &b.sender_counts,
            &b.receiver_counts,
            &b.protocol_counts,
            &b.protocol_mass,
            &b.protocol_fees,
        );
        i = i + 1;
    }
    finish_view(a, Ghost(items), false)
}

} // verus!

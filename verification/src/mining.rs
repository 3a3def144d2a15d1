//! Who mined the recent chain blocks: miner addresses, pools and node
//! versions counted over the coinbase transactions of a sample of blocks.
use vstd::prelude::*;

use crate::chain::is_address;
use crate::rpc_types::{coinbase_pool, coinbase_text, coinbase_version, parse_coinbase_payload, opt_view};
use crate::tally::{add_to_tally, has_key, is_top, keys_unique, tally_of, top_n_sorted};

verus! {

/// The coinbase transaction of a fetched block: the address its first
/// output pays, when reported, and its payload.
#[derive(Debug, Clone)]
pub struct CoinbaseSummary {
    pub miner_address: Option<String>,
    pub payload: Vec<u8>,
}

/// Miner, pool and node-version counts over a sample of blocks, each list
/// largest first.
#[derive(Debug, Clone)]
pub struct MiningStats {
    pub unique_miners: usize,
    pub all_miners: Vec<(String, usize)>,
    pub blocks_analyzed: usize,
    pub pools: Vec<(String, usize)>,
    pub node_versions: Vec<(String, usize)>,
}

/// Where the sample of the last `block_count` of `available` chain blocks
/// starts, and how many blocks it holds.
pub fn mining_sample(available: usize, block_count: usize) -> (r: (usize, usize))
    ensures
        r.1 == if block_count < available {
            block_count
        } else {
            available
        },
        r.0 == available - r.1,
{
    let sample_size = if block_count < available {
        block_count
    } else {
        available
    };
    (available - sample_size, sample_size)
}

pub open spec fn pool_of(cb: CoinbaseSummary) -> Option<Seq<char>> {
    match coinbase_text(cb.payload@) {
        Some(t) => coinbase_pool(t),
        None => None,
    }
}

pub open spec fn version_of(cb: CoinbaseSummary) -> Option<Seq<char>> {
    match coinbase_text(cb.payload@) {
        Some(t) => coinbase_version(t),
        None => None,
    }
}

/// Blocks of `cbs` whose coinbase pays address `a`.
pub open spec fn miner_count(cbs: Seq<Option<CoinbaseSummary>>, a: Seq<char>) -> int
    decreases cbs.len(),
{
    if cbs.len() == 0 {
        0
    } else {
        miner_count(cbs.drop_last(), a) + match cbs.last() {
            Some(cb) => if is_address(cb.miner_address, a) {
                1int
            } else {
                0
            },
            None => 0,
        }
    }
}

/// Blocks of `cbs` whose coinbase names pool `x`.
pub open spec fn pool_count(cbs: Seq<Option<CoinbaseSummary>>, x: Seq<char>) -> int
    decreases cbs.len(),
{
    if cbs.len() == 0 {
        0
    } else {
        pool_count(cbs.drop_last(), x) + match cbs.last() {
            Some(cb) => if pool_of(cb) == Some(x) {
                1int
            } else {
                0
            },
            None => 0,
        }
    }
}

/// Blocks of `cbs` whose coinbase names node version `x`.
pub open spec fn version_count(cbs: Seq<Option<CoinbaseSummary>>, x: Seq<char>) -> int
    decreases cbs.len(),
{
    if cbs.len() == 0 {
        0
    } else {
        version_count(cbs.drop_last(), x) + match cbs.last() {
            Some(cb) => if version_of(cb) == Some(x) {
                1int
            } else {
                0
            },
            None => 0,
        }
    }
}

/// `t` counts, for each miner address, the blocks of `cbs` it mined.
pub open spec fn is_miner_tally(t: Seq<(String, usize)>, cbs: Seq<Option<CoinbaseSummary>>) -> bool {
    &&& keys_unique(t)
    &&& forall|a: Seq<char>| #[trigger] has_key(t, a) == (miner_count(cbs, a) > 0)
    &&& forall|a: Seq<char>| #[trigger] tally_of(t, a) == miner_count(cbs, a)
}

/// `t` counts, for each pool, the blocks of `cbs` that name it.
pub open spec fn is_pool_tally(t: Seq<(String, usize)>, cbs: Seq<Option<CoinbaseSummary>>) -> bool {
    &&& keys_unique(t)
    &&& forall|x: Seq<char>| #[trigger] has_key(t, x) == (pool_count(cbs, x) > 0)
    &&& forall|x: Seq<char>| #[trigger] tally_of(t, x) == pool_count(cbs, x)
}

/// `t` counts, for each node version, the blocks of `cbs` that name it.
pub open spec fn is_version_tally(t: Seq<(String, usize)>, cbs: Seq<Option<CoinbaseSummary>>) -> bool {
    &&& keys_unique(t)
    &&& forall|x: Seq<char>| #[trigger] has_key(t, x) == (version_count(cbs, x) > 0)
    &&& forall|x: Seq<char>| #[trigger] tally_of(t, x) == version_count(cbs, x)
}

proof fn lemma_counts_bounded(cbs: Seq<Option<CoinbaseSummary>>, a: Seq<char>)
    ensures
        0 <= miner_count(cbs, a) <= cbs.len(),
        0 <= pool_count(cbs, a) <= cbs.len(),
        0 <= version_count(cbs, a) <= cbs.len(),
    decreases cbs.len(),
{
    if cbs.len() > 0 {
        lemma_counts_bounded(cbs.drop_last(), a);
    }
}

/// Counts miners, pools and node versions over the coinbases of the sampled
/// blocks (`None` for a block without transactions); each list is sorted
/// largest first.
pub fn tally_mining(coinbases: &Vec<Option<CoinbaseSummary>>, blocks_analyzed: usize) -> (r:
    MiningStats)
    ensures
        r.blocks_analyzed == blocks_analyzed,
        exists|t: Seq<(String, usize)>|
            #![trigger is_miner_tally(t, coinbases@)]
            is_miner_tally(t, coinbases@) && is_top(
                t,
                r.all_miners@,
                t.len() as int,
            ) && r.unique_miners == t.len(),
        exists|t: Seq<(String, usize)>|
            #![trigger is_pool_tally(t, coinbases@)]
            is_pool_tally(t, coinbases@) && is_top(
                t,
                r.pools@,
                t.len() as int,
            ),
        exists|t: Seq<(String, usize)>|
            #![trigger is_version_tally(t, coinbases@)]
            is_version_tally(t, coinbases@) && is_top(
                t,
                r.node_versions@,
                t.len() as int,
            ),
{
    let ghost cbs = coinbases@;
    let mut miners: Vec<(String, usize)> = Vec::new();
    let mut pools: Vec<(String, usize)> = Vec::new();
    let mut versions: Vec<(String, usize)> = Vec::new();
    let mut i: usize = 0;
    while i < coinbases.len()
        invariant
            cbs == coinbases@,
            i <= cbs.len(),
            is_miner_tally(miners@, cbs.take(i as int)),
            is_pool_tally(pools@, cbs.take(i as int)),
            is_version_tally(versions@, cbs.take(i as int)),
        decreases cbs.len() - i,
    {
        let ghost pre = cbs.take(i as int);
        let ghost next = cbs.take(i + 1);
        proof {
            assert(next.drop_last() =~= pre);
            assert(next.last() == cbs[i as int]);
        }
        match &coinbases[i] {
            Some(cb) => {
                match &cb.miner_address {
                    Some(addr) => {
                        proof {
                            lemma_counts_bounded(pre, addr@);
                        }
                        add_to_tally(&mut miners, addr.clone(), 1usize);
                    },
                    None => {},
                }
                let info = parse_coinbase_payload(cb.payload.as_slice());
                proof {
                    assert(opt_view(info.pool_name) == pool_of(*cb));
                    assert(opt_view(info.node_version) == version_of(*cb));
                }
                match info.pool_name {
                    Some(pool) => {
                        proof {
                            lemma_counts_bounded(pre, pool@);
                        }
                        add_to_tally(&mut pools, pool, 1usize);
                    },
                    None => {},
                }
                match info.node_version {
                    Some(version) => {
                        proof {
                            lemma_counts_bounded(pre, version@);
                        }
                        add_to_tally(&mut versions, version, 1usize);
                    },
                    None => {},
                }
            },
            None => {},
        }
        i = i + 1;
    }
    proof {
        assert(cbs.take(i as int) =~= cbs);
    }
    let ghost mt = miners@;
    let ghost pt = pools@;
    let ghost vt = versions@;
    let unique_miners = miners.len();
    let nm = miners.len();
    let np = pools.len();
    let nv = versions.len();
    let all_miners = top_n_sorted(miners, nm);
    let pools = top_n_sorted(pools, np);
    let node_versions = top_n_sorted(versions, nv);
    proof {
        assert(is_miner_tally(mt, coinbases@));
        assert(is_pool_tally(pt, coinbases@));
        assert(is_version_tally(vt, coinbases@));
        assert(is_top(mt, all_miners@, mt.len() as int));
        assert(is_top(pt, pools@, pt.len() as int));
        assert(is_top(vt, node_versions@, vt.len() as int));
    }
    MiningStats { unique_miners, all_miners, blocks_analyzed, pools, node_versions }
}

} // verus!

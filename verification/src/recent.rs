//! The blocks of the last minute, kept by hash in an `IndexMap` in the order
//! they came; a removed block's place is taken by the last one.
use indexmap::IndexMap;
use vstd::prelude::*;

use crate::analytics::BlockSummary;
use crate::engine::{
    has_hash, hash_index, hashes_unique, inserted, lemma_hash_index, lemma_inserted_unique,
    lemma_without_unique, older_than, without,
};

verus! {

/// With entries keyed by their hashes and no hash twice, an entry has key `h`
/// exactly when a block has hash `h`, at the same position.
proof fn lemma_keys_follow_hashes(e: Seq<(Seq<char>, BlockSummary)>, h: Seq<char>)
    requires
        keyed_by_hash(e),
        hashes_unique(map_values(e)),
    ensures
        map_has_key(e, h) == has_hash(map_values(e), h),
        map_has_key(e, h) ==> map_key_index(e, h) == hash_index(map_values(e), h),
{
    let v = map_values(e);
    if map_has_key(e, h) {
        let i = map_key_index(e, h);
        assert(v[i] == e[i].1);
        lemma_hash_index(v, i);
    }
    if has_hash(v, h) {
        let j = hash_index(v, h);
        assert(e[j].0 == h);
    }
}

/// Maps from text keys to block summaries, in insertion order.
#[verifier::external_type_specification]
#[verifier::external_body]
#[verifier::reject_recursive_types(K)]
#[verifier::reject_recursive_types(V)]
#[verifier::reject_recursive_types(S)]
pub struct ExIndexMap<K, V, S>(IndexMap<K, V, S>);

/// The entries of an `IndexMap` from hashes to block summaries, as (key,
/// value) pairs in the map's order.
pub uninterp spec fn map_entries(m: IndexMap<String, BlockSummary>) -> Seq<(Seq<char>, BlockSummary)>;

/// Some entry has key `k`.
pub open spec fn map_has_key(e: Seq<(Seq<char>, BlockSummary)>, k: Seq<char>) -> bool {
    exists|i: int| 0 <= i < e.len() && (#[trigger] e[i]).0 == k
}

/// The position of an entry with key `k`.
pub open spec fn map_key_index(e: Seq<(Seq<char>, BlockSummary)>, k: Seq<char>) -> int {
    choose|i: int| 0 <= i < e.len() && (#[trigger] e[i]).0 == k
}

/// No two entries share a key.
pub open spec fn map_keys_unique(e: Seq<(Seq<char>, BlockSummary)>) -> bool {
    forall|i: int, j: int| 0 <= i < j < e.len() ==> (#[trigger] e[i]).0 != (#[trigger] e[j]).0
}

/// The values of the entries, in order.
pub open spec fn map_values(e: Seq<(Seq<char>, BlockSummary)>) -> Seq<BlockSummary> {
    e.map_values(|p: (Seq<char>, BlockSummary)| p.1)
}

/// `IndexMap::new`: a map without entries.
#[verifier::external_body]
fn index_map_new() -> (r: IndexMap<String, BlockSummary>)
    ensures
        map_entries(r) == Seq::<(Seq<char>, BlockSummary)>::empty(),
{
    IndexMap::new()
}

/// `IndexMap::len`: the number of entries.
#[verifier::external_body]
fn index_map_len(m: &IndexMap<String, BlockSummary>) -> (n: usize)
    ensures
        n == map_entries(*m).len(),
{
    m.len()
}

/// `IndexMap::get_index_of`: the position of the entry with key `key`, if
/// there is one.
#[verifier::external_body]
fn index_map_get_index_of(m: &IndexMap<String, BlockSummary>, key: &str) -> (r: Option<usize>)
    ensures
        match r {
            Some(i) => i < map_entries(*m).len() && map_entries(*m)[i as int].0 == key@,
            None => !map_has_key(map_entries(*m), key@),
        },
{
    m.get_index_of(key)
}

/// `IndexMap::insert`: when an entry has the key, its value is replaced where
/// it stands and the old value returned; otherwise the entry goes last.
/// Keys stay unique.
#[verifier::external_body]
fn index_map_insert(m: &mut IndexMap<String, BlockSummary>, key: String, value: BlockSummary) -> (r: Option<BlockSummary>)
    ensures
        map_keys_unique(map_entries(*final(m))),
        map_entries(*final(m)) == if map_has_key(map_entries(*old(m)), key@) {
            map_entries(*old(m)).update(map_key_index(map_entries(*old(m)), key@), (key@, value))
        } else {
            map_entries(*old(m)).push((key@, value))
        },
        r == if map_has_key(map_entries(*old(m)), key@) {
            Some(map_entries(*old(m))[map_key_index(map_entries(*old(m)), key@)].1)
        } else {
            None
        },
{
    m.insert(key, value)
}

/// `IndexMap::swap_remove`: the entry with the key is taken out and the
/// last entry moves into its place; its value is returned. Keys stay unique.
#[verifier::external_body]
fn index_map_swap_remove(m: &mut IndexMap<String, BlockSummary>, key: &str) -> (r: Option<BlockSummary>)
    ensures
        map_keys_unique(map_entries(*final(m))),
        map_entries(*final(m)) == if map_has_key(map_entries(*old(m)), key@) {
            map_entries(*old(m)).update(
                map_key_index(map_entries(*old(m)), key@),
                map_entries(*old(m)).last(),
            ).drop_last()
        } else {
            map_entries(*old(m))
        },
        r == if map_has_key(map_entries(*old(m)), key@) {
            Some(map_entries(*old(m))[map_key_index(map_entries(*old(m)), key@)].1)
        } else {
            None
        },
{
    m.swap_remove(key)
}

/// `IndexMap::values`: the values, in the map's order.
#[verifier::external_body]
fn index_map_values<'a>(m: &'a IndexMap<String, BlockSummary>) -> (r: Vec<&'a BlockSummary>)
    ensures
        r@.len() == map_entries(*m).len(),
        forall|i: int| 0 <= i < r@.len() ==> *r@[i] == map_entries(*m)[i].1,
{
    m.values().collect()
}

/// Recent blocks by hash, in the order they were inserted; a removed block's
/// place is taken by the last one.
pub struct RecentBlocks {
    map: IndexMap<String, BlockSummary>,
}

impl View for RecentBlocks {
    type V = Seq<BlockSummary>;

    closed spec fn view(&self) -> Seq<BlockSummary> {
        map_values(map_entries(self.map))
    }
}

/// Each entry is keyed by its block's hash.
pub open spec fn keyed_by_hash(e: Seq<(Seq<char>, BlockSummary)>) -> bool {
    forall|i: int| 0 <= i < e.len() ==> (#[trigger] e[i]).0 == e[i].1.hash@
}

impl RecentBlocks {
    /// Every block is kept under its own hash.
    pub closed spec fn keys_match(&self) -> bool {
        keyed_by_hash(map_entries(self.map))
    }

    /// No two entries share a hash, and each is kept under its hash.
    pub open spec fn wf(&self) -> bool {
        &&& hashes_unique(self@)
        &&& self.keys_match()
    }

    pub fn new() -> (r: RecentBlocks)
        ensures
            r@ == Seq::<BlockSummary>::empty(),
            r.wf(),
    {
        let r = RecentBlocks { map: index_map_new() };
        proof {
            assert(r@ =~= Seq::<BlockSummary>::empty());
        }
        r
    }

    pub fn len(&self) -> (n: usize)
        ensures
            n == self@.len(),
    {
        index_map_len(&self.map)
    }

    pub fn is_empty(&self) -> (r: bool)
        ensures
            r == (self@.len() == 0),
    {
        index_map_len(&self.map) == 0
    }

    /// The blocks, in order.
    pub fn values(&self) -> (r: Vec<&BlockSummary>)
        ensures
            r@.len() == self@.len(),
            forall|i: int| 0 <= i < r@.len() ==> *r@[i] == self@[i],
    {
        index_map_values(&self.map)
    }

    /// Position of the block with hash `hash`.
    fn position(&self, hash: &str) -> (r: Option<usize>)
        requires
            self.wf(),
        ensures
            match r {
                Some(i) => i < self@.len() && has_hash(self@, hash@) && i == hash_index(
                    self@,
                    hash@,
                ),
                None => !has_hash(self@, hash@),
            },
    {
        let r = index_map_get_index_of(&self.map, hash);
        proof {
            let e = map_entries(self.map);
            match r {
                Some(i) => {
                    assert(self@[i as int] == e[i as int].1);
                    lemma_hash_index(self@, i as int);
                },
                None => {
                    assert forall|j: int| 0 <= j < self@.len() implies (#[trigger] self@[j]).hash@ != hash@ by {
                        assert(self@[j] == e[j].1);
                        assert(e[j].0 != hash@);
                    }
                },
            }
        }
        r
    }

    /// Whether a block with hash `hash` is kept.
    pub fn contains_key(&self, hash: &str) -> (r: bool)
        requires
            self.wf(),
        ensures
            r == has_hash(self@, hash@),
    {
        self.position(hash).is_some()
    }

    /// Puts `block` in place of the block with its hash, or last when there is none.
    pub fn insert(&mut self, block: BlockSummary)
        requires
            old(self).wf(),
        ensures
            final(self).wf(),
            final(self)@ == inserted(old(self)@, block),
    {
        let ghost before = self@;
        let ghost e = map_entries(self.map);
        proof {
            lemma_inserted_unique(before, block);
            lemma_keys_follow_hashes(e, block.hash@);
        }
        let key = block.hash.clone();
        let _ = index_map_insert(&mut self.map, key, block);
        proof {
            let e2 = map_entries(self.map);
            if has_hash(before, block.hash@) {
                let k = hash_index(before, block.hash@);
                assert(map_key_index(e, block.hash@) == k);
                assert(self@ =~= before.update(k, block));
            } else {
                assert(self@ =~= before.push(block));
            }
            assert(keyed_by_hash(e2));
        }
    }

    /// Takes out the block with hash `hash`; the last block moves into its place.
    pub fn swap_remove(&mut self, hash: &str) -> (r: Option<BlockSummary>)
        requires
            old(self).wf(),
        ensures
            final(self).wf(),
            final(self)@ == without(old(self)@, hash@),
            match r {
                Some(b) => has_hash(old(self)@, hash@) && b == old(self)@[hash_index(
                    old(self)@,
                    hash@,
                )],
                None => !has_hash(old(self)@, hash@),
            },
    {
        let ghost before = self@;
        let ghost e = map_entries(self.map);
        proof {
            lemma_without_unique(before, hash@);
            lemma_keys_follow_hashes(e, hash@);
        }
        let r = index_map_swap_remove(&mut self.map, hash);
        proof {
            let e2 = map_entries(self.map);
            if has_hash(before, hash@) {
                let k = hash_index(before, hash@);
                assert(map_key_index(e, hash@) == k);
                assert(self@ =~= before.update(k, before.last()).drop_last());
            } else {
                assert(self@ =~= before);
            }
            assert(keyed_by_hash(e2));
        }
        r
    }

    /// Hashes of the blocks stamped before `cutoff`, in order.
    pub(crate) fn hashes_older_than(&self, cutoff: u64) -> (r: Vec<String>)
        ensures
            r@.len() == older_than(self@, cutoff).len(),
            forall|j: int| 0 <= j < r@.len() ==> (#[trigger] r@[j])@ == older_than(self@, cutoff)[j].hash@,
    {
        let blocks = self.values();
        let mut r: Vec<String> = Vec::new();
        let mut i: usize = 0;
        while i < blocks.len()
            invariant
                blocks@.len() == self@.len(),
                forall|k: int| 0 <= k < blocks@.len() ==> *blocks@[k] == self@[k],
                i <= self@.len(),
                r@.len() == older_than(self@.take(i as int), cutoff).len(),
                forall|j: int|
                    0 <= j < r@.len() ==> (#[trigger] r@[j])@ == older_than(
                        self@.take(i as int),
                        cutoff,
                    )[j].hash@,
            decreases self@.len() - i,
        {
            proof {
                assert(self@.take(i + 1).drop_last() =~= self@.take(i as int));
                assert(self@.take(i + 1).last() == self@[i as int]);
            }
            let b: &BlockSummary = blocks[i];
            if b.timestamp_ms < cutoff {
                r.push(b.hash.clone());
            }
            i = i + 1;
        }
        proof {
            assert(self@.take(self@.len() as int) =~= self@);
        }
        r
    }
}

} // verus!

//! Chain updates as the node reports them (blocks added to and removed from
//! the selected chain, with their accepted transactions), and the per-block
//! summaries that the analytics are built from.
use vstd::prelude::*;

use crate::analytics::BlockSummary;
use crate::config::str_eq;
use crate::protocol::{detect_protocol, transaction_protocol, TransactionProtocol};
use crate::tally::{add_to_tally, has_key, keys_unique, lemma_tally_nonneg, tally_of};

verus! {

/// An input of an accepted transaction.
pub struct ChainInput {
    /// Amount of the spent output, when the node reported it.
    pub utxo_amount: Option<u64>,
    /// Address of the spent output, when the node reported it.
    pub sender_address: Option<String>,
    pub signature_script: Option<Vec<u8>>,
}

/// An output of an accepted transaction.
pub struct ChainOutput {
    pub value: Option<u64>,
    pub receiver_address: Option<String>,
}

/// A transaction accepted by a chain block.
pub struct ChainTransaction {
    pub subnetwork_id: Option<Vec<u8>>,
    pub transaction_id: Option<String>,
    pub compute_mass: Option<u64>,
    pub payload: Option<Vec<u8>>,
    pub inputs: Vec<ChainInput>,
    pub outputs: Vec<ChainOutput>,
}

/// A block added to the selected chain, with the transactions it accepted.
pub struct ChainBlock {
    pub hash: Option<String>,
    pub timestamp: Option<u64>,
    pub daa_score: Option<u64>,
    pub accepted_transactions: Vec<ChainTransaction>,
}

/// One answer of the node about its selected chain since a given block.
pub struct ChainUpdate {
    pub removed_chain_block_hashes: Vec<String>,
    pub added_chain_block_hashes: Vec<String>,
    pub chain_block_accepted_transactions: Vec<ChainBlock>,
}

/// The subnetwork of coinbase transactions: 1 followed by nineteen zero bytes.
pub open spec fn is_coinbase_id(id: Seq<u8>) -> bool {
    &&& id.len() == 20
    &&& id[0] == 1
    &&& forall|i: int| 1 <= i < 20 ==> id[i] == 0
}

pub open spec fn is_coinbase(tx: ChainTransaction) -> bool {
    match tx.subnetwork_id {
        Some(id) => is_coinbase_id(id@),
        None => false,
    }
}

/// The transaction id, empty when it was not reported.
pub open spec fn tx_key(tx: ChainTransaction) -> Seq<char> {
    match tx.transaction_id {
        Some(s) => s@,
        None => Seq::empty(),
    }
}

/// Sum of the reported input amounts.
pub open spec fn amount_sum(ins: Seq<ChainInput>) -> int
    decreases ins.len(),
{
    if ins.len() == 0 {
        0
    } else {
        amount_sum(ins.drop_last()) + match ins.last().utxo_amount {
            Some(a) => a as int,
            None => 0,
        }
    }
}

/// Sum of the reported output values.
pub open spec fn value_sum(outs: Seq<ChainOutput>) -> int
    decreases outs.len(),
{
    if outs.len() == 0 {
        0
    } else {
        value_sum(outs.drop_last()) + match outs.last().value {
            Some(v) => v as int,
            None => 0,
        }
    }
}

pub open spec fn inputs_total(tx: ChainTransaction) -> int {
    amount_sum(tx.inputs@)
}

pub open spec fn outputs_total(tx: ChainTransaction) -> int {
    value_sum(tx.outputs@)
}

/// What the inputs pay beyond the outputs; zero when they pay less.
pub open spec fn tx_fee(tx: ChainTransaction) -> int {
    if inputs_total(tx) > outputs_total(tx) {
        inputs_total(tx) - outputs_total(tx)
    } else {
        0
    }
}

/// The compute mass, zero when it was not reported.
pub open spec fn tx_mass(tx: ChainTransaction) -> int {
    match tx.compute_mass {
        Some(m) => m as int,
        None => 0,
    }
}

pub open spec fn is_address(o: Option<String>, a: Seq<char>) -> bool {
    match o {
        Some(s) => s@ == a,
        None => false,
    }
}

/// Some input of `ins` spends an output of address `a`.
pub open spec fn spends_from(ins: Seq<ChainInput>, a: Seq<char>) -> bool {
    exists|i: int| 0 <= i < ins.len() && is_address((#[trigger] ins[i]).sender_address, a)
}

/// Some output of `outs` pays address `a`.
pub open spec fn pays(outs: Seq<ChainOutput>, a: Seq<char>) -> bool {
    exists|i: int| 0 <= i < outs.len() && is_address((#[trigger] outs[i]).receiver_address, a)
}

pub open spec fn sends_from(tx: ChainTransaction, a: Seq<char>) -> bool {
    spends_from(tx.inputs@, a)
}

pub open spec fn pays_to(tx: ChainTransaction, a: Seq<char>) -> bool {
    pays(tx.outputs@, a)
}

/// The signature scripts of the inputs that have one, in order.
pub open spec fn scripts_of(ins: Seq<ChainInput>) -> Seq<Seq<u8>>
    decreases ins.len(),
{
    if ins.len() == 0 {
        Seq::empty()
    } else {
        match ins.last().signature_script {
            Some(s) => scripts_of(ins.drop_last()).push(s@),
            None => scripts_of(ins.drop_last()),
        }
    }
}

pub open spec fn payload_of(tx: ChainTransaction) -> Seq<u8> {
    match tx.payload {
        Some(p) => p@,
        None => Seq::empty(),
    }
}

/// The protocol detected from the payload and the signature scripts.
pub open spec fn tx_protocol(tx: ChainTransaction) -> Option<TransactionProtocol> {
    transaction_protocol(payload_of(tx), scripts_of(tx.inputs@))
}

/// `tx` is counted after the ids in `seen`: it is no coinbase, and its id
/// is unknown or was not seen yet.
pub open spec fn takes(tx: ChainTransaction, seen: Set<Seq<char>>) -> bool {
    !is_coinbase(tx) && (tx_key(tx).len() == 0 || !seen.contains(tx_key(tx)))
}

/// The ids seen once `tx` has been looked at.
pub open spec fn seen_with(tx: ChainTransaction, seen: Set<Seq<char>>) -> Set<Seq<char>> {
    if !is_coinbase(tx) && tx_key(tx).len() > 0 {
        seen.insert(tx_key(tx))
    } else {
        seen
    }
}

pub open spec fn seen_after(txs: Seq<ChainTransaction>, seen: Set<Seq<char>>) -> Set<Seq<char>>
    decreases txs.len(),
{
    if txs.len() == 0 {
        seen
    } else {
        seen_with(txs.last(), seen_after(txs.drop_last(), seen))
    }
}

/// The transactions of `txs` that are counted, in order, when the ids in
/// `seen` were seen before.
pub open spec fn counted(txs: Seq<ChainTransaction>, seen: Set<Seq<char>>) -> Seq<ChainTransaction>
    decreases txs.len(),
{
    if txs.len() == 0 {
        txs
    } else if takes(txs.last(), seen_after(txs.drop_last(), seen)) {
        counted(txs.drop_last(), seen).push(txs.last())
    } else {
        counted(txs.drop_last(), seen)
    }
}

pub open spec fn counts_mass(t: ChainTransaction) -> int {
    if tx_mass(t) > 0 {
        1
    } else {
        0
    }
}

/// The fee of `t` when its inputs report amounts, else zero.
pub open spec fn fee_paid(t: ChainTransaction) -> int {
    if inputs_total(t) > 0 {
        tx_fee(t)
    } else {
        0
    }
}

pub open spec fn counts_fee(t: ChainTransaction) -> int {
    if inputs_total(t) > 0 {
        1
    } else {
        0
    }
}

pub open spec fn sum_mass(c: Seq<ChainTransaction>) -> int
    decreases c.len(),
{
    if c.len() == 0 {
        0
    } else {
        sum_mass(c.drop_last()) + tx_mass(c.last())
    }
}

pub open spec fn num_with_mass(c: Seq<ChainTransaction>) -> int
    decreases c.len(),
{
    if c.len() == 0 {
        0
    } else {
        num_with_mass(c.drop_last()) + counts_mass(c.last())
    }
}

pub open spec fn sum_fees(c: Seq<ChainTransaction>) -> int
    decreases c.len(),
{
    if c.len() == 0 {
        0
    } else {
        sum_fees(c.drop_last()) + fee_paid(c.last())
    }
}

pub open spec fn num_paying(c: Seq<ChainTransaction>) -> int
    decreases c.len(),
{
    if c.len() == 0 {
        0
    } else {
        num_paying(c.drop_last()) + counts_fee(c.last())
    }
}

/// How many transactions of `c` spend from address `a`.
pub open spec fn sender_count(c: Seq<ChainTransaction>, a: Seq<char>) -> int
    decreases c.len(),
{
    if c.len() == 0 {
        0
    } else {
        sender_count(c.drop_last(), a) + if sends_from(c.last(), a) {
            1int
        } else {
            0
        }
    }
}

/// How many transactions of `c` pay address `a`.
pub open spec fn receiver_count(c: Seq<ChainTransaction>, a: Seq<char>) -> int
    decreases c.len(),
{
    if c.len() == 0 {
        0
    } else {
        receiver_count(c.drop_last(), a) + if pays_to(c.last(), a) {
            1int
        } else {
            0
        }
    }
}

/// How many transactions of `c` belong to protocol `p`.
pub open spec fn protocol_count(c: Seq<ChainTransaction>, p: TransactionProtocol) -> int
    decreases c.len(),
{
    if c.len() == 0 {
        0
    } else {
        protocol_count(c.drop_last(), p) + if tx_protocol(c.last()) == Some(p) {
            1int
        } else {
            0
        }
    }
}

/// Mass of the transactions of `c` that belong to protocol `p`.
pub open spec fn protocol_mass_sum(c: Seq<ChainTransaction>, p: TransactionProtocol) -> int
    decreases c.len(),
{
    if c.len() == 0 {
        0
    } else {
        protocol_mass_sum(c.drop_last(), p) + if tx_protocol(c.last()) == Some(p) {
            tx_mass(c.last())
        } else {
            0
        }
    }
}

/// Fees paid by the transactions of `c` that belong to protocol `p`.
pub open spec fn protocol_fee_sum(c: Seq<ChainTransaction>, p: TransactionProtocol) -> int
    decreases c.len(),
{
    if c.len() == 0 {
        0
    } else {
        protocol_fee_sum(c.drop_last(), p) + if tx_protocol(c.last()) == Some(p) {
            fee_paid(c.last())
        } else {
            0
        }
    }
}

pub open spec fn has_sender(c: Seq<ChainTransaction>, a: Seq<char>) -> bool {
    exists|i: int| 0 <= i < c.len() && sends_from(#[trigger] c[i], a)
}

pub open spec fn has_receiver(c: Seq<ChainTransaction>, a: Seq<char>) -> bool {
    exists|i: int| 0 <= i < c.len() && pays_to(#[trigger] c[i], a)
}

pub open spec fn has_protocol(c: Seq<ChainTransaction>, p: TransactionProtocol) -> bool {
    exists|i: int| 0 <= i < c.len() && tx_protocol(#[trigger] c[i]) == Some(p)
}

pub open spec fn has_protocol_mass(c: Seq<ChainTransaction>, p: TransactionProtocol) -> bool {
    exists|i: int| 0 <= i < c.len() && tx_protocol(#[trigger] c[i]) == Some(p) && tx_mass(c[i]) > 0
}

pub open spec fn has_protocol_fee(c: Seq<ChainTransaction>, p: TransactionProtocol) -> bool {
    exists|i: int|
        0 <= i < c.len() && tx_protocol(#[trigger] c[i]) == Some(p) && inputs_total(c[i]) > 0
}

/// The running sums over the counted transactions `c`.
pub open spec fn sums_of(b: BlockSummary, c: Seq<ChainTransaction>) -> bool {
    &&& b.tx_count == c.len()
    &&& b.total_mass == sum_mass(c)
    &&& b.mass_count == num_with_mass(c)
    &&& b.total_fees == sum_fees(c)
    &&& b.fee_count == num_paying(c)
    &&& keys_unique(b.sender_counts@)
    &&& forall|a: Seq<char>| #[trigger] has_key(b.sender_counts@, a) == has_sender(c, a)
    &&& forall|a: Seq<char>| #[trigger] tally_of(b.sender_counts@, a) == sender_count(c, a)
    &&& keys_unique(b.receiver_counts@)
    &&& forall|a: Seq<char>| #[trigger] has_key(b.receiver_counts@, a) == has_receiver(c, a)
    &&& forall|a: Seq<char>| #[trigger] tally_of(b.receiver_counts@, a) == receiver_count(c, a)
    &&& keys_unique(b.protocol_counts@)
    &&& forall|p: TransactionProtocol| #[trigger] has_key(b.protocol_counts@, p) == has_protocol(c, p)
    &&& forall|p: TransactionProtocol| #[trigger] tally_of(b.protocol_counts@, p) == protocol_count(c, p)
    &&& keys_unique(b.protocol_mass@)
    &&& forall|p: TransactionProtocol|
        #[trigger] has_key(b.protocol_mass@, p) == has_protocol_mass(c, p)
    &&& forall|p: TransactionProtocol|
        #[trigger] tally_of(b.protocol_mass@, p) == protocol_mass_sum(c, p)
    &&& keys_unique(b.protocol_fees@)
    &&& forall|p: TransactionProtocol|
        #[trigger] has_key(b.protocol_fees@, p) == has_protocol_fee(c, p)
    &&& forall|p: TransactionProtocol|
        #[trigger] tally_of(b.protocol_fees@, p) == protocol_fee_sum(c, p)
}

/// `b` summarizes the transactions of `block` that are counted given the
/// ids seen before it: how many, their mass and fees, how many spend from
/// and pay each address, and count, mass and fees per protocol.
pub open spec fn summarizes(b: BlockSummary, block: ChainBlock, seen: Set<Seq<char>>) -> bool {
    &&& b.hash@ == match block.hash {
        Some(h) => h@,
        None => Seq::<char>::empty(),
    }
    &&& b.timestamp_ms == match block.timestamp {
        Some(t) => t,
        None => 0,
    }
    &&& sums_of(b, counted(block.accepted_transactions@, seen))
}

/// No sum over the counted transactions of `block` overflows.
pub open spec fn block_fits(block: ChainBlock, seen: Set<Seq<char>>) -> bool {
    let c = counted(block.accepted_transactions@, seen);
    &&& forall|i: int|
        0 <= i < c.len() ==> inputs_total(#[trigger] c[i]) <= u64::MAX && outputs_total(c[i])
            <= u64::MAX
    &&& sum_mass(c) <= u64::MAX
    &&& sum_fees(c) <= u64::MAX
}

/// The ids seen before block `i` of `blocks`.
pub open spec fn seen_before(blocks: Seq<ChainBlock>, i: int) -> Set<Seq<char>>
    decreases i,
{
    if i <= 0 {
        Set::empty()
    } else {
        seen_after(blocks[i - 1].accepted_transactions@, seen_before(blocks, i - 1))
    }
}

/// Some entry of `v` reads `x`.
pub open spec fn names(v: Seq<String>, x: Seq<char>) -> bool {
    exists|i: int| 0 <= i < v.len() && (#[trigger] v[i])@ == x
}

/// No two entries of `v` read the same.
pub open spec fn distinct_strings(v: Seq<String>) -> bool {
    forall|i: int, j: int| 0 <= i < j < v.len() ==> (#[trigger] v[i])@ != (#[trigger] v[j])@
}

proof fn lemma_amount_prefix(ins: Seq<ChainInput>, i: int)
    requires
        0 <= i <= ins.len(),
    ensures
        0 <= amount_sum(ins.take(i)) <= amount_sum(ins),
    decreases ins.len() - i,
{
    if i < ins.len() {
        lemma_amount_prefix(ins, i + 1);
        assert(ins.take(i + 1).drop_last() =~= ins.take(i));
    } else {
        assert(ins.take(i) =~= ins);
    }
    lemma_amount_nonneg(ins.take(i));
}

proof fn lemma_amount_nonneg(ins: Seq<ChainInput>)
    ensures
        amount_sum(ins) >= 0,
    decreases ins.len(),
{
    if ins.len() > 0 {
        lemma_amount_nonneg(ins.drop_last());
    }
}

proof fn lemma_value_prefix(outs: Seq<ChainOutput>, i: int)
    requires
        0 <= i <= outs.len(),
    ensures
        0 <= value_sum(outs.take(i)) <= value_sum(outs),
    decreases outs.len() - i,
{
    if i < outs.len() {
        lemma_value_prefix(outs, i + 1);
        assert(outs.take(i + 1).drop_last() =~= outs.take(i));
    } else {
        assert(outs.take(i) =~= outs);
    }
    lemma_value_nonneg(outs.take(i));
}

proof fn lemma_value_nonneg(outs: Seq<ChainOutput>)
    ensures
        value_sum(outs) >= 0,
    decreases outs.len(),
{
    if outs.len() > 0 {
        lemma_value_nonneg(outs.drop_last());
    }
}

/// Sum of the reported input amounts.
fn input_total(ins: &Vec<ChainInput>) -> (r: u64)
    requires
        amount_sum(ins@) <= u64::MAX,
    ensures
        r == amount_sum(ins@),
{
    let mut sum: u64 = 0;
    let mut i: usize = 0;
    while i < ins.len()
        invariant
            i <= ins@.len(),
            sum == amount_sum(ins@.take(i as int)),
            amount_sum(ins@) <= u64::MAX,
        decreases ins@.len() - i,
    {
        proof {
            assert(ins@.take(i + 1).drop_last() =~= ins@.take(i as int));
            lemma_amount_prefix(ins@, i + 1);
        }
        let a = match ins[i].utxo_amount {
            Some(a) => a,
            None => 0,
        };
        sum = sum + a;
        i = i + 1;
    }
    proof {
        assert(ins@.take(i as int) =~= ins@);
    }
    sum
}

/// Sum of the reported output values.
fn output_total(outs: &Vec<ChainOutput>) -> (r: u64)
    requires
        value_sum(outs@) <= u64::MAX,
    ensures
        r == value_sum(outs@),
{
    let mut sum: u64 = 0;
    let mut i: usize = 0;
    while i < outs.len()
        invariant
            i <= outs@.len(),
            sum == value_sum(outs@.take(i as int)),
            value_sum(outs@) <= u64::MAX,
        decreases outs@.len() - i,
    {
        proof {
            assert(outs@.take(i + 1).drop_last() =~= outs@.take(i as int));
            lemma_value_prefix(outs@, i + 1);
        }
        let v = match outs[i].value {
            Some(v) => v,
            None => 0,
        };
        sum = sum + v;
        i = i + 1;
    }
    proof {
        assert(outs@.take(i as int) =~= outs@);
    }
    sum
}

/// Whether some entry of `v` reads `s`.
fn names_exec(v: &Vec<String>, s: &str) -> (r: bool)
    ensures
        r == names(v@, s@),
{
    let mut i: usize = 0;
    while i < v.len()
        invariant
            i <= v@.len(),
            forall|j: int| 0 <= j < i ==> (#[trigger] v@[j])@ != s@,
        decreases v@.len() - i,
    {
        if str_eq(v[i].as_str(), s) {
            return true;
        }
        i = i + 1;
    }
    false
}

/// Appends `s` unless an entry already reads the same.
fn push_distinct(v: &mut Vec<String>, s: &String)
    requires
        distinct_strings(old(v)@),
    ensures
        distinct_strings(final(v)@),
        forall|x: Seq<char>| #[trigger] names(final(v)@, x) == (names(old(v)@, x) || x == s@),
{
    if !names_exec(v, s.as_str()) {
        let ghost before = v@;
        v.push(s.clone());
        proof {
            assert forall|x: Seq<char>| #[trigger] names(v@, x) == (names(before, x) || x == s@) by {
                if names(before, x) {
                    let j = choose|j: int| 0 <= j < before.len() && (#[trigger] before[j])@ == x;
                    assert(v@[j] == before[j]);
                }
                if x == s@ {
                    assert(v@[before.len() as int]@ == x);
                }
                if names(v@, x) {
                    let j = choose|j: int| 0 <= j < v@.len() && (#[trigger] v@[j])@ == x;
                    if j < before.len() {
                        assert(v@[j] == before[j]);
                    }
                }
            }
            assert forall|i: int, j: int| 0 <= i < j < v@.len() implies (#[trigger] v@[i])@
                != (#[trigger] v@[j])@ by {
                if j == before.len() {
                    assert(v@[i] == before[i]);
                    assert(!names(before, s@));
                } else {
                    assert(before[i]@ != before[j]@);
                }
            }
        }
    }
}

/// The distinct addresses that the inputs spend from.
fn sender_addresses(ins: &Vec<ChainInput>) -> (r: Vec<String>)
    ensures
        distinct_strings(r@),
        forall|a: Seq<char>| #[trigger] names(r@, a) == spends_from(ins@, a),
{
    let mut r: Vec<String> = Vec::new();
    let mut i: usize = 0;
    while i < ins.len()
        invariant
            i <= ins@.len(),
            distinct_strings(r@),
            forall|a: Seq<char>| #[trigger] names(r@, a) == spends_from(ins@.take(i as int), a),
        decreases ins@.len() - i,
    {
        let ghost pre = ins@.take(i as int);
        let ghost next = ins@.take(i + 1);
        let ghost before = r@;
        match &ins[i].sender_address {
            Some(addr) => {
                push_distinct(&mut r, addr);
            },
            None => {},
        }
        assert(forall|a: Seq<char>|
            #[trigger] names(r@, a) == (names(before, a) || is_address(ins@[i as int].sender_address, a)));
        proof {
            assert forall|a: Seq<char>| #[trigger] names(r@, a) == spends_from(next, a) by {
                assert(next[i as int] == ins@[i as int]);
                if spends_from(pre, a) {
                    let j = choose|j: int| 0 <= j < pre.len() && is_address((#[trigger] pre[j]).sender_address, a);
                    assert(next[j] == pre[j]);
                }
                if spends_from(next, a) {
                    let j = choose|j: int| 0 <= j < next.len() && is_address((#[trigger] next[j]).sender_address, a);
                    if j < i {
                        assert(pre[j] == next[j]);
                    }
                }
            }
        }
        i = i + 1;
    }
    proof {
        assert(ins@.take(i as int) =~= ins@);
    }
    r
}

/// The distinct addresses that the outputs pay.
fn receiver_addresses(outs: &Vec<ChainOutput>) -> (r: Vec<String>)
    ensures
        distinct_strings(r@),
        forall|a: Seq<char>| #[trigger] names(r@, a) == pays(outs@, a),
{
    let mut r: Vec<String> = Vec::new();
    let mut i: usize = 0;
    while i < outs.len()
        invariant
            i <= outs@.len(),
            distinct_strings(r@),
            forall|a: Seq<char>| #[trigger] names(r@, a) == pays(outs@.take(i as int), a),
        decreases outs@.len() - i,
    {
        let ghost pre = outs@.take(i as int);
        let ghost next = outs@.take(i + 1);
        let ghost before = r@;
        match &outs[i].receiver_address {
            Some(addr) => {
                push_distinct(&mut r, addr);
            },
            None => {},
        }
        assert(forall|a: Seq<char>|
            #[trigger] names(r@, a) == (names(before, a) || is_address(outs@[i as int].receiver_address, a)));
        proof {
            assert forall|a: Seq<char>| #[trigger] names(r@, a) == pays(next, a) by {
                assert(next[i as int] == outs@[i as int]);
                if pays(pre, a) {
                    let j = choose|j: int| 0 <= j < pre.len() && is_address((#[trigger] pre[j]).receiver_address, a);
                    assert(next[j] == pre[j]);
                }
                if pays(next, a) {
                    let j = choose|j: int| 0 <= j < next.len() && is_address((#[trigger] next[j]).receiver_address, a);
                    if j < i {
                        assert(pre[j] == next[j]);
                    }
                }
            }
        }
        i = i + 1;
    }
    proof {
        assert(outs@.take(i as int) =~= outs@);
    }
    r
}

/// Adds one to the count of each of `keys`.
fn count_each(v: &mut Vec<(String, usize)>, keys: &Vec<String>)
    requires
        keys_unique(old(v)@),
        distinct_strings(keys@),
        forall|a: Seq<char>| tally_of(old(v)@, a) < usize::MAX,
    ensures
        keys_unique(final(v)@),
        forall|a: Seq<char>| #[trigger] has_key(final(v)@, a) == (has_key(old(v)@, a) || names(keys@, a)),
        forall|a: Seq<char>|
            #[trigger] tally_of(final(v)@, a) == tally_of(old(v)@, a) + if names(keys@, a) {
                1int
            } else {
                0
            },
{
    let ghost start = v@;
    let mut j: usize = 0;
    while j < keys.len()
        invariant
            j <= keys@.len(),
            distinct_strings(keys@),
            keys_unique(v@),
            forall|a: Seq<char>| tally_of(start, a) < usize::MAX,
            forall|a: Seq<char>|
                #[trigger] has_key(v@, a) == (has_key(start, a) || names(keys@.take(j as int), a)),
            forall|a: Seq<char>|
                #[trigger] tally_of(v@, a) == tally_of(start, a) + if names(keys@.take(j as int), a) {
                    1int
                } else {
                    0
                },
        decreases keys@.len() - j,
    {
        let ghost pre = keys@.take(j as int);
        let ghost next = keys@.take(j + 1);
        let k = keys[j].clone();
        proof {
            if names(pre, k@) {
                let i = choose|i: int| 0 <= i < pre.len() && (#[trigger] pre[i])@ == k@;
                assert(keys@[i]@ != keys@[j as int]@);
            }
            assert forall|a: Seq<char>| #[trigger] names(next, a) == (names(pre, a) || a == k@) by {
                if names(pre, a) {
                    let i = choose|i: int| 0 <= i < pre.len() && (#[trigger] pre[i])@ == a;
                    assert(next[i] == pre[i]);
                }
                if a == k@ {
                    assert(next[j as int]@ == a);
                }
                if names(next, a) {
                    let i = choose|i: int| 0 <= i < next.len() && (#[trigger] next[i])@ == a;
                    if i < j {
                        assert(pre[i] == next[i]);
                    }
                }
            }
        }
        add_to_tally(v, k, 1usize);
        j = j + 1;
    }
    proof {
        assert(keys@.take(j as int) =~= keys@);
    }
}

/// The signature scripts of the inputs that carry one, in order.
fn signature_scripts<'a>(ins: &'a Vec<ChainInput>) -> (r: Vec<&'a [u8]>)
    ensures
        r@.len() == scripts_of(ins@).len(),
        forall|k: int| 0 <= k < r@.len() ==> (#[trigger] r@[k])@ == scripts_of(ins@)[k],
{
    let mut r: Vec<&'a [u8]> = Vec::new();
    let mut i: usize = 0;
    while i < ins.len()
        invariant
            i <= ins@.len(),
            r@.len() == scripts_of(ins@.take(i as int)).len(),
            forall|k: int|
                0 <= k < r@.len() ==> (#[trigger] r@[k])@ == scripts_of(ins@.take(i as int))[k],
        decreases ins@.len() - i,
    {
        proof {
            assert(ins@.take(i + 1).drop_last() =~= ins@.take(i as int));
        }
        match &ins[i].signature_script {
            Some(script) => {
                r.push(script.as_slice());
            },
            None => {},
        }
        i = i + 1;
    }
    proof {
        assert(ins@.take(i as int) =~= ins@);
    }
    r
}

proof fn lemma_counted_step(txs: Seq<ChainTransaction>, seen: Set<Seq<char>>, j: int)
    requires
        0 <= j < txs.len(),
    ensures
        counted(txs.take(j + 1), seen) == if takes(txs[j], seen_after(txs.take(j), seen)) {
            counted(txs.take(j), seen).push(txs[j])
        } else {
            counted(txs.take(j), seen)
        },
        seen_after(txs.take(j + 1), seen) == seen_with(txs[j], seen_after(txs.take(j), seen)),
{
    let t = txs.take(j + 1);
    assert(t.drop_last() =~= txs.take(j));
    assert(t.last() == txs[j]);
}

proof fn lemma_counted_len(txs: Seq<ChainTransaction>, seen: Set<Seq<char>>)
    ensures
        counted(txs, seen).len() <= txs.len(),
    decreases txs.len(),
{
    if txs.len() > 0 {
        lemma_counted_len(txs.drop_last(), seen);
    }
}

/// What is counted of the first `j` transactions begins what is counted of all.
proof fn lemma_counted_prefix(txs: Seq<ChainTransaction>, seen: Set<Seq<char>>, j: int)
    requires
        0 <= j <= txs.len(),
    ensures
        counted(txs.take(j), seen).len() <= counted(txs, seen).len(),
        counted(txs.take(j), seen) == counted(txs, seen).take(counted(txs.take(j), seen).len() as int),
    decreases txs.len() - j,
{
    if j < txs.len() {
        lemma_counted_prefix(txs, seen, j + 1);
        lemma_counted_step(txs, seen, j);
        let c1 = counted(txs.take(j + 1), seen);
        let c0 = counted(txs.take(j), seen);
        let all = counted(txs, seen);
        if c1.len() == c0.len() + 1 {
            assert(c0 =~= c1.drop_last());
            assert(c0 =~= all.take(c0.len() as int));
        }
    } else {
        assert(txs.take(j) =~= txs);
        assert(counted(txs, seen).take(counted(txs, seen).len() as int) =~= counted(txs, seen));
    }
}

proof fn lemma_sum_mass_prefix(c: Seq<ChainTransaction>, n: int)
    requires
        0 <= n <= c.len(),
    ensures
        sum_mass(c.take(n)) <= sum_mass(c),
    decreases c.len() - n,
{
    if n < c.len() {
        lemma_sum_mass_prefix(c, n + 1);
        assert(c.take(n + 1).drop_last() =~= c.take(n));
    } else {
        assert(c.take(n) =~= c);
    }
}

proof fn lemma_sum_fees_prefix(c: Seq<ChainTransaction>, n: int)
    requires
        0 <= n <= c.len(),
    ensures
        sum_fees(c.take(n)) <= sum_fees(c),
    decreases c.len() - n,
{
    if n < c.len() {
        lemma_sum_fees_prefix(c, n + 1);
        assert(c.take(n + 1).drop_last() =~= c.take(n));
    } else {
        assert(c.take(n) =~= c);
    }
}

/// Counts never exceed the number of transactions, and the per-protocol
/// sums never exceed the totals.
proof fn lemma_sums_bounded(c: Seq<ChainTransaction>, a: Seq<char>, p: TransactionProtocol)
    ensures
        0 <= sender_count(c, a) <= c.len(),
        0 <= receiver_count(c, a) <= c.len(),
        0 <= protocol_count(c, p) <= c.len(),
        0 <= num_with_mass(c) <= c.len(),
        0 <= num_paying(c) <= c.len(),
        0 <= protocol_mass_sum(c, p) <= sum_mass(c),
        0 <= protocol_fee_sum(c, p) <= sum_fees(c),
    decreases c.len(),
{
    if c.len() > 0 {
        lemma_sums_bounded(c.drop_last(), a, p);
    }
}

/// Whether `tx` moves coins into existence: its subnetwork is the coinbase one.
fn is_coinbase_exec(tx: &ChainTransaction) -> (r: bool)
    ensures
        r == is_coinbase(*tx),
{
    match &tx.subnetwork_id {
        Some(id) => {
            if id.len() != 20 || id[0] != 1 {
                return false;
            }
            let mut i: usize = 1;
            while i < 20
                invariant
                    is_coinbase(*tx) == is_coinbase_id(id@),
                    id@.len() == 20,
                    id@[0] == 1,
                    1 <= i <= 20,
                    forall|k: int| 1 <= k < i ==> id@[k] == 0,
                decreases 20 - i,
            {
                if id[i] != 0 {
                    assert(id@[i as int] != 0);
                    return false;
                }
                i = i + 1;
            }
            true
        },
        None => false,
    }
}

/// Adds the counted transaction `tx` to the running sums `b` over `c`.
fn count_transaction(b: &mut BlockSummary, tx: &ChainTransaction, Ghost(c): Ghost<Seq<ChainTransaction>>)
    requires
        sums_of(*old(b), c),
        c.len() < usize::MAX,
        inputs_total(*tx) <= u64::MAX,
        outputs_total(*tx) <= u64::MAX,
        sum_mass(c.push(*tx)) <= u64::MAX,
        sum_fees(c.push(*tx)) <= u64::MAX,
    ensures
        sums_of(*final(b), c.push(*tx)),
        final(b).hash == old(b).hash,
        final(b).timestamp_ms == old(b).timestamp_ms,
{
    let ghost c2 = c.push(*tx);
    proof {
        assert(c2.drop_last() =~= c);
        assert(c2.last() == *tx);
        lemma_sums_bounded(c, Seq::empty(), TransactionProtocol::Krc);
        lemma_sums_bounded(c2, Seq::empty(), TransactionProtocol::Krc);
    }
    b.tx_count = b.tx_count + 1;
    let mass = match tx.compute_mass {
        Some(m) => m,
        None => 0,
    };
    if mass > 0 {
        b.total_mass = b.total_mass + mass;
        b.mass_count = b.mass_count + 1;
    }
    let in_sum = input_total(&tx.inputs);
    let out_sum = output_total(&tx.outputs);
    let fee = in_sum.saturating_sub(out_sum);
    if in_sum > 0 {
        b.total_fees = b.total_fees + fee;
        b.fee_count = b.fee_count + 1;
    }
    let senders = sender_addresses(&tx.inputs);
    proof {
        assert forall|a: Seq<char>| tally_of(b.sender_counts@, a) < usize::MAX by {
            lemma_sums_bounded(c, a, TransactionProtocol::Krc);
        }
    }
    count_each(&mut b.sender_counts, &senders);
    let receivers = receiver_addresses(&tx.outputs);
    proof {
        assert forall|a: Seq<char>| tally_of(b.receiver_counts@, a) < usize::MAX by {
            lemma_sums_bounded(c, a, TransactionProtocol::Krc);
        }
    }
    count_each(&mut b.receiver_counts, &receivers);
    let no_payload: Vec<u8> = Vec::new();
    let payload: &[u8] = match &tx.payload {
        Some(p) => p.as_slice(),
        None => no_payload.as_slice(),
    };
    let scripts = signature_scripts(&tx.inputs);
    let script_slices = scripts.as_slice();
    proof {
        assert(script_slices@.map_values(|s: &[u8]| s@) =~= scripts_of(tx.inputs@));
        assert(payload@ == payload_of(*tx));
    }
    let proto = detect_protocol(payload, script_slices);
    match proto {
        Some(p) => {
            proof {
                lemma_sums_bounded(c, Seq::empty(), p);
                lemma_sums_bounded(c2, Seq::empty(), p);
            }
            add_to_tally(&mut b.protocol_counts, p, 1usize);
            if mass > 0 {
                add_to_tally(&mut b.protocol_mass, p, mass);
            }
            if in_sum > 0 {
                add_to_tally(&mut b.protocol_fees, p, fee);
            }
        },
        None => {},
    }
    proof {
        assert forall|a: Seq<char>| #[trigger] has_key(b.sender_counts@, a) == has_sender(c2, a) by {
            if has_sender(c, a) {
                let i = choose|i: int| 0 <= i < c.len() && sends_from(#[trigger] c[i], a);
                assert(c2[i] == c[i]);
            }
            if sends_from(*tx, a) {
                assert(c2[c.len() as int] == *tx);
            }
            if has_sender(c2, a) {
                let i = choose|i: int| 0 <= i < c2.len() && sends_from(#[trigger] c2[i], a);
                if i < c.len() {
                    assert(c[i] == c2[i]);
                }
            }
        }
        assert forall|a: Seq<char>| #[trigger] has_key(b.receiver_counts@, a) == has_receiver(c2, a) by {
            if has_receiver(c, a) {
                let i = choose|i: int| 0 <= i < c.len() && pays_to(#[trigger] c[i], a);
                assert(c2[i] == c[i]);
            }
            if pays_to(*tx, a) {
                assert(c2[c.len() as int] == *tx);
            }
            if has_receiver(c2, a) {
                let i = choose|i: int| 0 <= i < c2.len() && pays_to(#[trigger] c2[i], a);
                if i < c.len() {
                    assert(c[i] == c2[i]);
                }
            }
        }
        assert forall|q: TransactionProtocol| #[trigger] has_key(b.protocol_counts@, q) == has_protocol(c2, q) by {
            if has_protocol(c, q) {
                let i = choose|i: int| 0 <= i < c.len() && tx_protocol(#[trigger] c[i]) == Some(q);
                assert(c2[i] == c[i]);
            }
            if tx_protocol(*tx) == Some(q) {
                assert(c2[c.len() as int] == *tx);
            }
            if has_protocol(c2, q) {
                let i = choose|i: int| 0 <= i < c2.len() && tx_protocol(#[trigger] c2[i]) == Some(q);
                if i < c.len() {
                    assert(c[i] == c2[i]);
                }
            }
        }
        assert forall|q: TransactionProtocol| #[trigger] has_key(b.protocol_mass@, q) == has_protocol_mass(c2, q) by {
            if has_protocol_mass(c, q) {
                let i = choose|i: int| 0 <= i < c.len() && tx_protocol(#[trigger] c[i]) == Some(q) && tx_mass(c[i]) > 0;
                assert(c2[i] == c[i]);
            }
            if tx_protocol(*tx) == Some(q) && tx_mass(*tx) > 0 {
                assert(c2[c.len() as int] == *tx);
            }
            if has_protocol_mass(c2, q) {
                let i = choose|i: int| 0 <= i < c2.len() && tx_protocol(#[trigger] c2[i]) == Some(q) && tx_mass(c2[i]) > 0;
                if i < c.len() {
                    assert(c[i] == c2[i]);
                }
            }
        }
        assert forall|q: TransactionProtocol| #[trigger] has_key(b.protocol_fees@, q) == has_protocol_fee(c2, q) by {
            if has_protocol_fee(c, q) {
                let i = choose|i: int| 0 <= i < c.len() && tx_protocol(#[trigger] c[i]) == Some(q) && inputs_total(c[i]) > 0;
                assert(c2[i] == c[i]);
            }
            if tx_protocol(*tx) == Some(q) && inputs_total(*tx) > 0 {
                assert(c2[c.len() as int] == *tx);
            }
            if has_protocol_fee(c2, q) {
                let i = choose|i: int| 0 <= i < c2.len() && tx_protocol(#[trigger] c2[i]) == Some(q) && inputs_total(c2[i]) > 0;
                if i < c.len() {
                    assert(c[i] == c2[i]);
                }
            }
        }
    }
}

/// Summarizes the transactions of `block` not seen before; `seen` holds the
/// ids seen so far and gains those of `block`.
fn summarize_block(
    block: &ChainBlock,
    seen: &mut Vec<String>,
    Ghost(s0): Ghost<Set<Seq<char>>>,
) -> (b: BlockSummary)
    requires
        forall|x: Seq<char>| #[trigger] s0.contains(x) == names(old(seen)@, x),
        block_fits(*block, s0),
    ensures
        summarizes(b, *block, s0),
        forall|x: Seq<char>|
            #[trigger] seen_after(block.accepted_transactions@, s0).contains(x) == names(
                final(seen)@,
                x,
            ),
{
    let ghost txs = block.accepted_transactions@;
    let hash = match &block.hash {
        Some(h) => h.clone(),
        None => String::new(),
    };
    let timestamp_ms = match block.timestamp {
        Some(t) => t,
        None => 0,
    };
    let mut b = BlockSummary {
        hash,
        timestamp_ms,
        tx_count: 0,
        total_mass: 0,
        mass_count: 0,
        total_fees: 0,
        fee_count: 0,
        sender_counts: Vec::new(),
        receiver_counts: Vec::new(),
        protocol_counts: Vec::new(),
        protocol_mass: Vec::new(),
        protocol_fees: Vec::new(),
    };
    proof {
        assert(txs.take(0) =~= Seq::<ChainTransaction>::empty());
        let c0 = counted(txs.take(0), s0);
        assert(c0.len() == 0);
        assert forall|a: Seq<char>| #[trigger] has_key(b.sender_counts@, a) == has_sender(c0, a) by {}
        assert forall|a: Seq<char>| #[trigger] has_key(b.receiver_counts@, a) == has_receiver(c0, a) by {}
        assert forall|p: TransactionProtocol| #[trigger] has_key(b.protocol_counts@, p) == has_protocol(c0, p) by {}
        assert forall|p: TransactionProtocol| #[trigger] has_key(b.protocol_mass@, p) == has_protocol_mass(c0, p) by {}
        assert forall|p: TransactionProtocol| #[trigger] has_key(b.protocol_fees@, p) == has_protocol_fee(c0, p) by {}
    }
    let mut j: usize = 0;
    while j < block.accepted_transactions.len()
        invariant
            txs == block.accepted_transactions@,
            j <= txs.len(),
            block_fits(*block, s0),
            sums_of(b, counted(txs.take(j as int), s0)),
            b.hash@ == match block.hash {
                Some(h) => h@,
                None => Seq::<char>::empty(),
            },
            b.timestamp_ms == match block.timestamp {
                Some(t) => t,
                None => 0,
            },
            forall|x: Seq<char>|
                #[trigger] seen_after(txs.take(j as int), s0).contains(x) == names(seen@, x),
        decreases txs.len() - j,
    {
        let tx = &block.accepted_transactions[j];
        let ghost c = counted(txs.take(j as int), s0);
        let ghost sj = seen_after(txs.take(j as int), s0);
        let ghost seen_before_tx = seen@;
        proof {
            lemma_counted_step(txs, s0, j as int);
            lemma_counted_len(txs.take(j as int), s0);
            lemma_counted_prefix(txs, s0, j + 1);
        }
        if !is_coinbase_exec(tx) {
            let fresh = match &tx.transaction_id {
                Some(id) => {
                    if id.as_str().is_empty() {
                        true
                    } else if names_exec(seen, id.as_str()) {
                        false
                    } else {
                        seen.push(id.clone());
                        proof {
                            assert forall|x: Seq<char>| #[trigger] names(seen@, x) == (names(seen_before_tx, x) || x == id@) by {
                                if names(seen_before_tx, x) {
                                    let k = choose|k: int| 0 <= k < seen_before_tx.len() && (#[trigger] seen_before_tx[k])@ == x;
                                    assert(seen@[k] == seen_before_tx[k]);
                                }
                                if x == id@ {
                                    assert(seen@[seen_before_tx.len() as int]@ == x);
                                }
                                if names(seen@, x) {
                                    let k = choose|k: int| 0 <= k < seen@.len() && (#[trigger] seen@[k])@ == x;
                                    if k < seen_before_tx.len() {
                                        assert(seen_before_tx[k] == seen@[k]);
                                    }
                                }
                            }
                        }
                        true
                    }
                },
                None => true,
            };
            proof {
                assert(fresh == takes(*tx, sj));
                assert forall|x: Seq<char>| #[trigger] seen_with(*tx, sj).contains(x) == names(seen@, x) by {
                    assert(sj.contains(x) == names(seen_before_tx, x));
                }
            }
            if fresh {
                proof {
                    let all = counted(txs, s0);
                    let c1 = c.push(*tx);
                    assert(c1 == counted(txs.take(j + 1), s0));
                    assert(all.take(c1.len() as int)[c.len() as int] == *tx);
                    assert(all[c.len() as int] == *tx);
                    lemma_sum_mass_prefix(all, c1.len() as int);
                    lemma_sum_fees_prefix(all, c1.len() as int);
                }
                count_transaction(&mut b, tx, Ghost(c));
            }
        }
        j = j + 1;
    }
    proof {
        assert(txs.take(j as int) =~= txs);
    }
    b
}

/// Summaries of the blocks that `update` adds to the chain, in order, and
/// the hashes of the blocks it removes. Coinbase transactions are left out,
/// and a transaction id met again, in the same block or a later one, is
/// counted once.
pub fn extract_block_summaries(update: &ChainUpdate) -> (r: (Vec<BlockSummary>, Vec<String>))
    requires
        forall|k: int|
            0 <= k < update.chain_block_accepted_transactions@.len() ==> block_fits(
                #[trigger] update.chain_block_accepted_transactions@[k],
                seen_before(update.chain_block_accepted_transactions@, k),
            ),
    ensures
        r.0@.len() == update.chain_block_accepted_transactions@.len(),
        forall|k: int|
            0 <= k < r.0@.len() ==> summarizes(
                #[trigger] r.0@[k],
                update.chain_block_accepted_transactions@[k],
                seen_before(update.chain_block_accepted_transactions@, k),
            ),
        r.1@.len() == update.removed_chain_block_hashes@.len(),
        forall|k: int|
            0 <= k < r.1@.len() ==> (#[trigger] r.1@[k])@ == update.removed_chain_block_hashes@[k]@,
{
    let ghost blocks = update.chain_block_accepted_transactions@;
    let mut removed: Vec<String> = Vec::new();
    let mut i: usize = 0;
    while i < update.removed_chain_block_hashes.len()
        invariant
            i <= update.removed_chain_block_hashes@.len(),
            removed@.len() == i,
            forall|k: int|
                0 <= k < i ==> (#[trigger] removed@[k])@ == update.removed_chain_block_hashes@[k]@,
        decreases update.removed_chain_block_hashes@.len() - i,
    {
        removed.push(update.removed_chain_block_hashes[i].clone());
        i = i + 1;
    }
    let mut summaries: Vec<BlockSummary> = Vec::new();
    let mut seen: Vec<String> = Vec::new();
    let mut k: usize = 0;
    while k < update.chain_block_accepted_transactions.len()
        invariant
            blocks == update.chain_block_accepted_transactions@,
            k <= blocks.len(),
            summaries@.len() == k,
            forall|m: int|
                0 <= m < k ==> summarizes(#[trigger] summaries@[m], blocks[m], seen_before(blocks, m)),
            forall|x: Seq<char>| #[trigger] seen_before(blocks, k as int).contains(x) == names(seen@, x),
            forall|m: int|
                0 <= m < blocks.len() ==> block_fits(#[trigger] blocks[m], seen_before(blocks, m)),
        decreases blocks.len() - k,
    {
        let ghost s0 = seen_before(blocks, k as int);
        let b = summarize_block(&update.chain_block_accepted_transactions[k], &mut seen, Ghost(s0));
        summaries.push(b);
        proof {
            assert(seen_before(blocks, k + 1) == seen_after(blocks[k as int].accepted_transactions@, s0));
        }
        k = k + 1;
    }
    (summaries, removed)
}

} // verus!

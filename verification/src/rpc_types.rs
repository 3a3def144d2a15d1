//! Display-ready values taken from node responses, and the helpers that format them.
use vstd::prelude::*;

use crate::text::{trim_spec, trim_str};

verus! {

/// Every RPC method that the explorer and the command line offer, each with
/// its description.
pub open spec fn spec_rpc_methods() -> Seq<(&'static str, &'static str)> {
    seq![
        ("get_server_info", "Get server info"),
        ("get_block_dag_info", "Get block DAG info"),
        ("get_block_count", "Get block count"),
        ("get_mempool_entries", "Get mempool entries"),
        ("get_coin_supply", "Get coin supply"),
        ("get_fee_estimate", "Get fee estimate"),
        ("get_fee_estimate_experimental", "Get experimental fee estimate (verbose)"),
        ("get_connected_peer_info", "Get connected peer info"),
        ("get_peer_addresses", "Get known peer addresses"),
        ("get_current_network", "Get current network type"),
        ("get_sink", "Get sink (virtual selected parent) hash"),
        ("get_sink_blue_score", "Get sink blue score"),
        ("get_info", "Get general node info"),
        ("get_sync_status", "Get sync status"),
        ("get_virtual_chain", "Get virtual selected parent chain"),
        ("get_headers", "Get header count"),
        ("estimate_network_hashes_per_second", "Estimate network hashrate"),
        ("ping", "Ping the node"),
    ]
}

/// The RPC methods with their descriptions, in the order the explorer lists them.
pub fn rpc_methods() -> (r: Vec<(&'static str, &'static str)>)
    ensures
        r@ == spec_rpc_methods(),
{
    let r = vec![
        ("get_server_info", "Get server info"),
        ("get_block_dag_info", "Get block DAG info"),
        ("get_block_count", "Get block count"),
        ("get_mempool_entries", "Get mempool entries"),
        ("get_coin_supply", "Get coin supply"),
        ("get_fee_estimate", "Get fee estimate"),
        ("get_fee_estimate_experimental", "Get experimental fee estimate (verbose)"),
        ("get_connected_peer_info", "Get connected peer info"),
        ("get_peer_addresses", "Get known peer addresses"),
        ("get_current_network", "Get current network type"),
        ("get_sink", "Get sink (virtual selected parent) hash"),
        ("get_sink_blue_score", "Get sink blue score"),
        ("get_info", "Get general node info"),
        ("get_sync_status", "Get sync status"),
        ("get_virtual_chain", "Get virtual selected parent chain"),
        ("get_headers", "Get header count"),
        ("estimate_network_hashes_per_second", "Estimate network hashrate"),
        ("ping", "Ping the node"),
    ];
    proof {
        assert(r@ =~= spec_rpc_methods());
    }
    r
}

/// The character of decimal digit `d`.
pub open spec fn digit_char(d: int) -> char {
    ((48 + d) as u8) as char
}

/// The decimal digits of `n`, most significant first.
pub open spec fn decimal(n: nat) -> Seq<char>
    decreases n,
{
    if n < 10 {
        seq![digit_char(n as int)]
    } else {
        decimal(n / 10).push(digit_char((n % 10) as int))
    }
}

/// `d` with a comma before each group of three characters counted from the right.
pub open spec fn group_thousands(d: Seq<char>) -> Seq<char>
    decreases d.len(),
{
    if d.len() <= 3 {
        d
    } else {
        group_thousands(d.take(d.len() - 3)) + seq![','] + d.skip(d.len() - 3)
    }
}

fn digit(d: u64) -> (c: char)
    requires
        d < 10,
    ensures
        c == digit_char(d as int),
{
    let b: u8 = 48u8 + d as u8;
    b as char
}

/// Appends the decimal digits of `n`.
pub(crate) fn push_decimal(s: &mut String, n: u64)
    ensures
        final(s)@ == old(s)@ + decimal(n as nat),
    decreases n,
{
    if n >= 10 {
        push_decimal(s, n / 10);
    }
    s.push(digit(n % 10));
}

proof fn lemma_decimal_small(n: nat)
    requires
        n < 1000,
    ensures
        decimal(n).len() <= 3,
{
    if n >= 10 {
        assert(decimal(n).len() == decimal(n / 10).len() + 1);
        if n / 10 >= 10 {
            assert(n / 10 / 10 < 10);
            assert(decimal(n / 10).len() == decimal(n / 10 / 10).len() + 1);
        }
    }
}

proof fn lemma_decimal_nonempty(n: nat)
    ensures
        decimal(n).len() >= 1,
    decreases n,
{
    if n >= 10 {
        lemma_decimal_nonempty(n / 10);
    }
}

/// The last three digits of a number of at least 1000.
proof fn lemma_decimal_thousands(n: nat)
    requires
        n >= 1000,
    ensures
        decimal(n) == decimal(n / 1000) + seq![
            digit_char(((n % 1000) / 100) as int),
            digit_char(((n % 1000) / 10 % 10) as int),
            digit_char((n % 10) as int),
        ],
{
    assert(n / 10 / 10 == n / 100) by (nonlinear_arith)
        requires
            n >= 0,
    ;
    assert(n / 100 / 10 == n / 1000) by (nonlinear_arith)
        requires
            n >= 0,
    ;
    assert(n / 100 % 10 == (n % 1000) / 100) by (nonlinear_arith)
        requires
            n >= 0,
    ;
    assert(n / 10 % 10 == (n % 1000) / 10 % 10) by (nonlinear_arith)
        requires
            n >= 0,
    ;
    assert(n / 10 >= 100);
    assert(n / 100 >= 10);
    let d1 = (n / 10) as nat;
    let d2 = (n / 100) as nat;
    assert(decimal(n) == decimal(d1).push(digit_char((n % 10) as int)));
    assert(decimal(d1) == decimal((d1 / 10) as nat).push(digit_char((d1 % 10) as int)));
    assert(decimal(d2) == decimal((d2 / 10) as nat).push(digit_char((d2 % 10) as int)));
    assert(decimal(n) =~= decimal(n / 1000) + seq![
        digit_char(((n % 1000) / 100) as int),
        digit_char(((n % 1000) / 10 % 10) as int),
        digit_char((n % 10) as int),
    ]);
}

/// Appends the digits of `n` grouped in thousands.
fn push_grouped(s: &mut String, n: u64)
    ensures
        final(s)@ == old(s)@ + group_thousands(decimal(n as nat)),
    decreases n,
{
    if n >= 1000 {
        let ghost before = s@;
        push_grouped(s, n / 1000);
        s.push(',');
        let m = n % 1000;
        s.push(digit(m / 100));
        s.push(digit(m / 10 % 10));
        s.push(digit(m % 10));
        proof {
            lemma_decimal_thousands(n as nat);
            lemma_decimal_nonempty((n / 1000) as nat);
            let d = decimal(n as nat);
            let head = decimal((n / 1000) as nat);
            assert(d.take(d.len() - 3) =~= head);
            assert(m % 10 == n % 10);
            assert(s@ =~= before + (group_thousands(head) + seq![','] + d.skip(d.len() - 3)));
        }
    } else {
        push_decimal(s, n);
        proof {
            lemma_decimal_small(n as nat);
        }
    }
}

/// `n` in decimal with a comma between groups of three digits.
pub fn format_number(n: u64) -> (r: String)
    ensures
        r@ == group_thousands(decimal(n as nat)),
{
    let mut r = String::new();
    push_grouped(&mut r, n);
    proof {
        assert(r@ =~= group_thousands(decimal(n as nat)));
    }
    r
}

/// `addr` with its middle replaced by `...` when it has more than
/// `prefix_len + suffix_len + 3` characters.
pub open spec fn shortened(addr: Seq<char>, prefix_len: int, suffix_len: int) -> Seq<char> {
    if addr.len() > prefix_len + suffix_len + 3 {
        addr.take(prefix_len) + seq!['.', '.', '.'] + addr.skip(addr.len() - suffix_len)
    } else {
        addr
    }
}

/// Keeps the first `prefix_len` and last `suffix_len` characters of a long
/// address, joined by `...`.
pub fn shorten_address(addr: &str, prefix_len: usize, suffix_len: usize) -> (r: String)
    requires
        prefix_len + suffix_len + 3 <= usize::MAX,
    ensures
        r@ == shortened(addr@, prefix_len as int, suffix_len as int),
{
    let n = addr.unicode_len();
    if n > prefix_len + suffix_len + 3 {
        let mut r = addr.substring_char(0, prefix_len).to_owned();
        r.push('.');
        r.push('.');
        r.push('.');
        r.append(addr.substring_char(n - suffix_len, n));
        proof {
            assert(r@ =~= shortened(addr@, prefix_len as int, suffix_len as int));
        }
        r
    } else {
        addr.to_owned()
    }
}

/// What the node reports about itself.
#[derive(Debug, Clone)]
pub struct ServerInfo {
    pub server_version: String,
    pub network_id: String,
    pub is_synced: bool,
    pub virtual_daa_score: u64,
    pub has_utxo_index: bool,
}

/// A transaction waiting in the mempool.
#[derive(Debug, Clone)]
pub struct MempoolEntryInfo {
    pub transaction_id: String,
    pub fee: u64,
    pub is_orphan: bool,
}

/// The id shown for a mempool transaction: its id, or `mass:` and its mass
/// when the node did not report the id.
pub open spec fn entry_label(transaction_id: Option<Seq<char>>, mass: u64) -> Seq<char> {
    match transaction_id {
        Some(id) => id,
        None => seq!['m', 'a', 's', 's', ':'] + decimal(mass as nat),
    }
}

/// The text of an optional string.
pub open spec fn opt_view(o: Option<String>) -> Option<Seq<char>> {
    match o {
        Some(s) => Some(s@),
        None => None,
    }
}

impl MempoolEntryInfo {
    /// An entry from what the node reports of it.
    pub fn from_parts(transaction_id: Option<String>, mass: u64, fee: u64, is_orphan: bool) -> (r:
        MempoolEntryInfo)
        ensures
            r.transaction_id@ == entry_label(opt_view(transaction_id), mass),
            r.fee == fee,
            r.is_orphan == is_orphan,
    {
        let transaction_id = match transaction_id {
            Some(id) => id,
            None => {
                let mut s = String::new();
                s.push('m');
                s.push('a');
                s.push('s');
                s.push('s');
                s.push(':');
                push_decimal(&mut s, mass);
                proof {
                    assert(s@ =~= entry_label(None, mass));
                }
                s
            },
        };
        MempoolEntryInfo { transaction_id, fee, is_orphan }
    }
}

/// Sum of the fees of `entries`.
pub open spec fn fee_total(entries: Seq<MempoolEntryInfo>) -> int
    decreases entries.len(),
{
    if entries.len() == 0 {
        0
    } else {
        fee_total(entries.drop_last()) + entries.last().fee
    }
}

proof fn lemma_fee_total_prefix(entries: Seq<MempoolEntryInfo>, i: int)
    requires
        0 <= i <= entries.len(),
    ensures
        fee_total(entries.take(i)) <= fee_total(entries),
    decreases entries.len() - i,
{
    if i < entries.len() {
        lemma_fee_total_prefix(entries, i + 1);
        assert(entries.take(i + 1).drop_last() =~= entries.take(i));
    } else {
        assert(entries.take(i) =~= entries);
    }
}

/// The mempool: its entries, how many, and their fees summed.
#[derive(Debug, Clone)]
pub struct MempoolState {
    pub entry_count: usize,
    pub entries: Vec<MempoolEntryInfo>,
    pub total_fees: u64,
}

impl MempoolState {
    pub fn from_entries(entries: Vec<MempoolEntryInfo>) -> (r: MempoolState)
        requires
            fee_total(entries@) <= u64::MAX,
        ensures
            r.entries@ == entries@,
            r.entry_count == entries@.len(),
            r.total_fees == fee_total(entries@),
    {
        let mut total: u64 = 0;
        let mut i: usize = 0;
        while i < entries.len()
            invariant
                i <= entries@.len(),
                total == fee_total(entries@.take(i as int)),
                fee_total(entries@) <= u64::MAX,
            decreases entries@.len() - i,
        {
            proof {
                assert(entries@.take(i + 1).drop_last() =~= entries@.take(i as int));
                lemma_fee_total_prefix(entries@, i + 1);
            }
            total = total + entries[i].fee;
            i = i + 1;
        }
        proof {
            assert(entries@.take(i as int) =~= entries@);
        }
        let entry_count = entries.len();
        MempoolState { entry_count, entries, total_fees: total }
    }
}

/// Total and circulating supply, in sompi.
#[derive(Debug, Clone)]
pub struct CoinSupplyInfo {
    pub max_sompi: u64,
    pub circulating_sompi: u64,
}

/// Fee rates of the priority, normal and low buckets, ready to show.
#[derive(Debug, Clone)]
pub struct FeeEstimateInfo {
    pub priority_bucket: String,
    pub normal_buckets: Vec<String>,
    pub low_buckets: Vec<String>,
}

/// The node version and pool name that a miner wrote into a coinbase payload.
#[derive(Debug, Clone)]
pub struct CoinbaseInfo {
    pub node_version: Option<String>,
    pub pool_name: Option<String>,
}

/// Bytes read as Latin-1 characters.
pub open spec fn latin1(bytes: Seq<u8>) -> Seq<char> {
    Seq::new(bytes.len(), |i: int| bytes[i] as char)
}

pub open spec fn trim_nul_start(s: Seq<char>) -> Seq<char>
    decreases s.len(),
{
    if s.len() > 0 && s[0] == '\0' {
        trim_nul_start(s.drop_first())
    } else {
        s
    }
}

pub open spec fn trim_nul_end(s: Seq<char>) -> Seq<char>
    decreases s.len(),
{
    if s.len() > 0 && s.last() == '\0' {
        trim_nul_end(s.drop_last())
    } else {
        s
    }
}

/// The text of a coinbase payload: after 18 header bytes comes a script
/// length and the script; what follows, read as Latin-1, without NULs and
/// then whitespace at both ends. There is none when the payload is too short,
/// holds nothing after the script, or the script starts with 0xaa.
pub open spec fn coinbase_text(payload: Seq<u8>) -> Option<Seq<char>> {
    if payload.len() < 19 {
        None
    } else {
        let start = 19 + payload[18] as int;
        if start >= payload.len() {
            None
        } else if payload[18] > 0 && payload[19] == 0xaa {
            None
        } else {
            Some(trim_spec(trim_nul_end(trim_nul_start(latin1(payload.skip(start))))))
        }
    }
}

/// Index of the first `/` in `s`, or its length when there is none.
pub open spec fn first_slash(s: Seq<char>) -> int
    decreases s.len(),
{
    if s.len() == 0 {
        0
    } else if s[0] == '/' {
        0
    } else {
        1 + first_slash(s.drop_first())
    }
}

pub open spec fn non_empty(s: Seq<char>) -> Option<Seq<char>> {
    if s.len() > 0 {
        Some(s)
    } else {
        None
    }
}

/// The node version: the text before the first `/`, when not empty.
pub open spec fn coinbase_version(t: Seq<char>) -> Option<Seq<char>> {
    non_empty(t.take(first_slash(t)))
}

/// The pool name: the text between the first and the second `/` (or the
/// end), when there is a first `/` and the text is not empty.
pub open spec fn coinbase_pool(t: Seq<char>) -> Option<Seq<char>> {
    let i = first_slash(t);
    if i < t.len() {
        let rest = t.skip(i + 1);
        non_empty(rest.take(first_slash(rest)))
    } else {
        None
    }
}

proof fn lemma_first_slash(s: Seq<char>, i: int)
    requires
        0 <= i <= s.len(),
        forall|k: int| 0 <= k < i ==> s[k] != '/',
        i == s.len() || s[i] == '/',
    ensures
        first_slash(s) == i,
    decreases i,
{
    if i > 0 {
        lemma_first_slash(s.drop_first(), i - 1);
    }
}

/// Index of the first `/` at or after `from`, or the length.
fn slash_from(t: &str, n: usize, from: usize) -> (r: usize)
    requires
        n == t@.len(),
        from <= n,
    ensures
        from <= r <= n,
        first_slash(t@.skip(from as int)) == r - from,
{
    let mut i = from;
    while i < n && t.get_char(i) != '/'
        invariant
            n == t@.len(),
            from <= i <= n,
            forall|k: int| from <= k < i ==> t@[k] != '/',
        decreases n - i,
    {
        i = i + 1;
    }
    proof {
        lemma_first_slash(t@.skip(from as int), i - from);
    }
    i
}

/// Reads the node version and pool name from a coinbase payload.
pub fn parse_coinbase_payload(payload: &[u8]) -> (r: CoinbaseInfo)
    ensures
        match coinbase_text(payload@) {
            Some(t) => opt_view(r.node_version) == coinbase_version(t) && opt_view(r.pool_name)
                == coinbase_pool(t),
            None => r.node_version is None && r.pool_name is None,
        },
{
    let none = CoinbaseInfo { node_version: None, pool_name: None };
    if payload.len() < 19 {
        return none;
    }
    let script_len = payload[18] as usize;
    let data_start = 19 + script_len;
    if data_start >= payload.len() {
        return none;
    }
    if script_len > 0 && payload[19] == 0xaa {
        return none;
    }
    let ghost whole = latin1(payload@.skip(data_start as int));
    let mut lo = data_start;
    while lo < payload.len() && payload[lo] == 0
        invariant
            data_start <= lo <= payload@.len(),
            whole == latin1(payload@.skip(data_start as int)),
            trim_nul_start(whole) == trim_nul_start(latin1(payload@.skip(lo as int))),
        decreases payload@.len() - lo,
    {
        proof {
            let l = latin1(payload@.skip(lo as int));
            assert(l[0] == '\0');
            assert(l.drop_first() =~= latin1(payload@.skip(lo + 1)));
        }
        lo = lo + 1;
    }
    proof {
        let l = latin1(payload@.skip(lo as int));
        if lo < payload@.len() {
            assert(l[0] != '\0');
        }
        assert(l =~= latin1(payload@.subrange(lo as int, payload@.len() as int)));
    }
    let mut hi = payload.len();
    while hi > lo && payload[hi - 1] == 0
        invariant
            lo <= hi <= payload@.len(),
            trim_nul_end(latin1(payload@.subrange(lo as int, payload@.len() as int)))
                == trim_nul_end(latin1(payload@.subrange(lo as int, hi as int))),
        decreases hi,
    {
        proof {
            let l = latin1(payload@.subrange(lo as int, hi as int));
            assert(l.last() == '\0');
            assert(l.drop_last() =~= latin1(payload@.subrange(lo as int, hi - 1)));
        }
        hi = hi - 1;
    }
    let mut text = String::new();
    let mut i = lo;
    while i < hi
        invariant
            lo <= i <= hi <= payload@.len(),
            text@ == latin1(payload@.subrange(lo as int, i as int)),
        decreases hi - i,
    {
        text.push(payload[i] as char);
        proof {
            assert(text@ =~= latin1(payload@.subrange(lo as int, i + 1)));
        }
        i = i + 1;
    }
    proof {
        let l = latin1(payload@.subrange(lo as int, hi as int));
        if hi > lo {
            assert(l.last() != '\0');
        }
        assert(trim_nul_start(latin1(payload@.skip(lo as int))) == latin1(payload@.skip(lo as int)));
        assert(trim_nul_end(l) == l);
        assert(text@ == trim_nul_end(trim_nul_start(whole)));
    }
    let t = trim_str(text.as_str());
    let n = t.unicode_len();
    if n == 0 {
        return none;
    }
    let i = slash_from(t, n, 0);
    proof {
        assert(t@.skip(0) =~= t@);
    }
    let node_version = if i > 0 {
        Some(t.substring_char(0, i).to_owned())
    } else {
        None
    };
    let pool_name = if i < n {
        let j = slash_from(t, n, i + 1);
        proof {
            assert(t@.skip(i + 1).take(j - (i + 1)) =~= t@.subrange(i + 1, j as int));
        }
        if j > i + 1 {
            Some(t.substring_char(i + 1, j).to_owned())
        } else {
            None
        }
    } else {
        None
    };
    proof {
        assert(t@.take(i as int) =~= t@.subrange(0, i as int));
    }
    CoinbaseInfo { node_version, pool_name }
}

} // verus!

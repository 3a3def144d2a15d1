//! Application settings, the overrides that command-line flags apply to
//! them, and the rules for cycling through the allowed choices.
use vstd::prelude::*;
use vstd::utf8::encode_utf8;

use crate::text::lemma_encode_injective;

verus! {

/// Network used when nothing else is configured.
pub const DEFAULT_NETWORK: &'static str = "mainnet";

/// Polling interval used when nothing else is configured, in milliseconds.
pub const DEFAULT_REFRESH_INTERVAL_MS: u64 = 1000;

/// Whether two strings hold the same characters.
pub fn str_eq(a: &str, b: &str) -> (r: bool)
    ensures
        r == (a@ == b@),
{
    let x = a.as_bytes();
    let y = b.as_bytes();
    proof {
        assert(x@ == encode_utf8(a@));
        assert(y@ == encode_utf8(b@));
        if a@ != b@ {
            if encode_utf8(a@) == encode_utf8(b@) {
                lemma_encode_injective(a@, b@);
            }
        }
    }
    if x.len() != y.len() {
        return false;
    }
    let mut i: usize = 0;
    while i < x.len()
        invariant
            x@.len() == y@.len(),
            i <= x@.len(),
            forall|j: int| 0 <= j < i ==> x@[j] == y@[j],
            x@ == encode_utf8(a@),
            y@ == encode_utf8(b@),
            (a@ != b@) ==> (x@ != y@),
        decreases x@.len() - i,
    {
        if x[i] != y[i] {
            proof {
                assert(x@ != y@);
            }
            return false;
        }
        i = i + 1;
    }
    proof {
        assert(x@ =~= y@);
    }
    true
}

/// Position of the first entry of `list` equal to `s`.
pub fn position_of(list: &[&'static str], s: &str) -> (r: Option<usize>)
    ensures
        match r {
            Some(i) => i < list@.len() && list@[i as int]@ == s@ && forall|j: int|
                0 <= j < i ==> list@[j]@ != s@,
            None => forall|j: int| 0 <= j < list@.len() ==> list@[j]@ != s@,
        },
{
    let mut i: usize = 0;
    while i < list.len()
        invariant
            i <= list@.len(),
            forall|j: int| 0 <= j < i ==> list@[j]@ != s@,
        decreases list@.len() - i,
    {
        if str_eq(list[i], s) {
            return Some(i);
        }
        i = i + 1;
    }
    None
}

/// The characters of each string of `list`.
pub open spec fn views_of(list: Seq<&'static str>) -> Seq<Seq<char>> {
    Seq::new(list.len(), |i: int| list[i]@)
}

/// Index of the first entry of `list` equal to `s`, or `fallback` when there is none.
pub open spec fn index_or(list: Seq<Seq<char>>, s: Seq<char>, fallback: int) -> int {
    if exists|j: int| 0 <= j < list.len() && list[j] == s {
        choose|j: int| 0 <= j < list.len() && list[j] == s && forall|k: int| 0 <= k < j ==> list[k] != s
    } else {
        fallback
    }
}

/// The entry after the one equal to `s` (after entry `fallback` when none
/// is), wrapping around at the end.
pub open spec fn next_in(list: Seq<Seq<char>>, s: Seq<char>, fallback: int) -> Seq<char> {
    list[(index_or(list, s, fallback) + 1) % (list.len() as int)]
}

/// No entry of `list` occurs twice.
pub open spec fn distinct_entries(list: Seq<Seq<char>>) -> bool {
    forall|i: int, j: int| 0 <= i < j < list.len() ==> #[trigger] list[i] != #[trigger] list[j]
}

/// Where `k` steps of cycling through `list` lead from `s`.
pub open spec fn cycled(list: Seq<Seq<char>>, s: Seq<char>, fallback: int, k: nat) -> Seq<char>
    decreases k,
{
    if k == 0 {
        s
    } else {
        next_in(list, cycled(list, s, fallback, (k - 1) as nat), fallback)
    }
}

proof fn lemma_next_of_entry(list: Seq<Seq<char>>, i: int, fallback: int)
    requires
        distinct_entries(list),
        0 <= i < list.len(),
    ensures
        next_in(list, list[i], fallback) == list[(i + 1) % (list.len() as int)],
{
    let c = choose|j: int|
        0 <= j < list.len() && list[j] == list[i] && forall|k: int| 0 <= k < j ==> list[k] != list[i];
    assert(0 <= i < list.len() && list[i] == list[i]);
    assert(forall|k: int| 0 <= k < i ==> list[k] != list[i]);
    if c != i {
        if c < i {
            assert(list[c] != list[i]);
        } else {
            assert(list[i] != list[c]);
        }
    }
}

proof fn lemma_cycled_steps(list: Seq<Seq<char>>, i: int, fallback: int, k: nat)
    requires
        distinct_entries(list),
        0 <= i < list.len(),
    ensures
        cycled(list, list[i], fallback, k) == list[(i + k) % (list.len() as int)],
    decreases k,
{
    let n = list.len() as int;
    if k == 0 {
        vstd::arithmetic::div_mod::lemma_small_mod(i as nat, n as nat);
    } else {
        lemma_cycled_steps(list, i, fallback, (k - 1) as nat);
        let p = (i + k - 1) % n;
        assert(0 <= p < n) by {
            vstd::arithmetic::div_mod::lemma_mod_pos_bound(i + k - 1, n);
        }
        lemma_next_of_entry(list, p, fallback);
        assert((p + 1) % n == (i + k) % n) by {
            if n > 1 {
                vstd::arithmetic::div_mod::lemma_add_mod_noop(i + k - 1, 1, n);
                vstd::arithmetic::div_mod::lemma_small_mod(1, n as nat);
            }
        }
    }
}

/// Cycling through a list without repeated entries moves one entry on at
/// each step, so that after as many steps as the list is long it comes back
/// to where it started.
pub proof fn law_cycle_returns(list: Seq<Seq<char>>, i: int, fallback: int, k: nat)
    requires
        distinct_entries(list),
        0 <= i < list.len(),
    ensures
        cycled(list, list[i], fallback, k) == list[(i + k) % (list.len() as int)],
        cycled(list, list[i], fallback, list.len()) == list[i],
{
    let n = list.len() as int;
    lemma_cycled_steps(list, i, fallback, k);
    lemma_cycled_steps(list, i, fallback, list.len());
    assert((i + n) % n == i) by {
        vstd::arithmetic::div_mod::lemma_mod_add_multiples_vanish(i, n);
        vstd::arithmetic::div_mod::lemma_small_mod(i as nat, n as nat);
    }
}

/// The selectable networks are distinct, so three presses of the network
/// setting bring back the network it started from.
pub proof fn law_network_cycle_returns(i: int)
    requires
        0 <= i < spec_valid_networks().len(),
    ensures
        cycled(spec_valid_networks(), spec_valid_networks()[i], 0, 3) == spec_valid_networks()[i],
{
    reveal_strlit("mainnet");
    reveal_strlit("testnet-10");
    reveal_strlit("testnet-11");
    let l = spec_valid_networks();
    assert(l[0].len() != l[1].len() && l[0].len() != l[2].len());
    assert(l[1][9] != l[2][9]);
    assert forall|a: int, b: int| 0 <= a < b < l.len() implies #[trigger] l[a] != #[trigger] l[b] by {
        if a == 0 {
            assert(l[a].len() != l[b].len());
        } else {
            assert(l[a][9] != l[b][9]);
        }
    }
    law_cycle_returns(l, i, 0, 3);
}

/// The entry after the one equal to `current`, or after entry `fallback` when
/// `current` is not in the list; wraps around at the end.
pub fn cycle_in(list: &[&'static str], current: &str, fallback: usize) -> (r: String)
    requires
        list@.len() > 0,
        fallback < list@.len(),
    ensures
        r@ == next_in(views_of(list@), current@, fallback as int),
{
    let pos = position_of(list, current);
    let idx = match pos {
        Some(i) => i,
        None => fallback,
    };
    proof {
        let l = views_of(list@);
        assert(l.len() == list@.len());
        assert(forall|j: int| 0 <= j < l.len() ==> #[trigger] l[j] == list@[j]@);
        if exists|j: int| 0 <= j < l.len() && l[j] == current@ {
            let c = choose|j: int|
                0 <= j < l.len() && l[j] == current@ && forall|k: int| 0 <= k < j ==> l[k] != current@;
            match pos {
                Some(i) => {
                    assert(idx == i);
                    assert(0 <= i < l.len() && l[i as int] == current@ && forall|k: int|
                        0 <= k < i ==> l[k] != current@);
                    if c < i {
                        assert(list@[c]@ != current@);
                        assert(l[c] == current@);
                    } else if c > i {
                        assert(l[i as int] == current@);
                    }
                    assert(c == idx);
                },
                None => {
                    assert(list@[c]@ != current@);
                    assert(l[c] == current@);
                },
            }
        }
        if let Some(i) = pos {
            assert(l[i as int] == current@);
        }
        assert(index_or(l, current@, fallback as int) == idx);
    }
    let n = list.len();
    list[(idx + 1) % n].to_owned()
}

/// Stored settings.
#[derive(Debug, Clone)]
pub struct AppConfig {
    pub url: Option<String>,
    pub network: String,
    pub refresh_interval_ms: u64,
    pub analyze_from_pruning_point: bool,
}

/// Settings given on the command line; each present one replaces the stored value.
#[derive(Debug, Clone)]
pub struct ConfigOverrides {
    pub url: Option<String>,
    pub network: Option<String>,
    pub refresh_interval_ms: Option<u64>,
    pub analyze_from_pruning_point: Option<bool>,
}

impl Default for ConfigOverrides {
    fn default() -> (r: ConfigOverrides)
        ensures
            r.url is None,
            r.network is None,
            r.refresh_interval_ms is None,
            r.analyze_from_pruning_point is None,
    {
        ConfigOverrides {
            url: None,
            network: None,
            refresh_interval_ms: None,
            analyze_from_pruning_point: None,
        }
    }
}

/// The networks that can be selected, in cycling order.
pub open spec fn spec_valid_networks() -> Seq<Seq<char>> {
    seq!["mainnet"@, "testnet-10"@, "testnet-11"@]
}

impl Default for AppConfig {
    /// No direct URL, the default network and polling interval, and analysis
    /// starting from the pruning point.
    fn default() -> (r: AppConfig)
        ensures
            r.url is None,
            r.network@ == DEFAULT_NETWORK@,
            r.refresh_interval_ms == DEFAULT_REFRESH_INTERVAL_MS,
            r.analyze_from_pruning_point,
    {
        AppConfig {
            url: None,
            network: DEFAULT_NETWORK.to_owned(),
            refresh_interval_ms: DEFAULT_REFRESH_INTERVAL_MS,
            analyze_from_pruning_point: true,
        }
    }
}

impl AppConfig {
    /// Replaces each setting for which an override is present.
    pub fn apply_overrides(&mut self, overrides: ConfigOverrides)
        ensures
            final(self).url == (if overrides.url is Some {
                overrides.url
            } else {
                old(self).url
            }),
            final(self).network == (match overrides.network {
                Some(n) => n,
                None => old(self).network,
            }),
            final(self).refresh_interval_ms == (match overrides.refresh_interval_ms {
                Some(ms) => ms,
                None => old(self).refresh_interval_ms,
            }),
            final(self).analyze_from_pruning_point == (match overrides.analyze_from_pruning_point {
                Some(v) => v,
                None => old(self).analyze_from_pruning_point,
            }),
    {
        if let Some(url) = overrides.url {
            self.url = Some(url);
        }
        if let Some(network) = overrides.network {
            self.network = network;
        }
        if let Some(ms) = overrides.refresh_interval_ms {
            self.refresh_interval_ms = ms;
        }
        if let Some(v) = overrides.analyze_from_pruning_point {
            self.analyze_from_pruning_point = v;
        }
    }

    /// The networks that can be selected, in cycling order.
    pub fn valid_networks() -> (r: &'static [&'static str])
        ensures
            r@.len() == spec_valid_networks().len(),
            forall|i: int| 0 <= i < r@.len() ==> (#[trigger] r@[i])@ == spec_valid_networks()[i],
    {
        let r: &'static [&'static str] = &["mainnet", "testnet-10", "testnet-11"];
        r
    }

    /// Moves to the next valid network; an unknown network moves to the one
    /// after the first.
    pub fn cycle_network(&mut self)
        ensures
            final(self).network@ == next_in(spec_valid_networks(), old(self).network@, 0),
            final(self).url == old(self).url,
            final(self).refresh_interval_ms == old(self).refresh_interval_ms,
            final(self).analyze_from_pruning_point == old(self).analyze_from_pruning_point,
    {
        let networks = Self::valid_networks();
        proof {
            assert(views_of(networks@) =~= spec_valid_networks());
        }
        self.network = cycle_in(networks, self.network.as_str(), 0);
    }
}

} // verus!

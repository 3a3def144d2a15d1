//! Settings of the integrated node: defaults, the allowed networks, log
//! levels and database presets with the rules for cycling through them, and
//! the values that the node's arguments are built from.
use vstd::prelude::*;

use crate::config::{cycle_in, cycled, law_cycle_returns, next_in, str_eq, views_of};
use crate::rpc_types::opt_view;
use crate::streaming::string_views;
use crate::text::{trim_spec, trim_str};

verus! {

/// Settings of the node that the program can run itself. Fractional
/// settings (the RAM scale and the retention period) are kept beside these
/// by the program.
#[derive(Debug, Clone)]
pub struct DaemonConfig {
    pub network: String,
    pub utxo_index: bool,
    pub archival: bool,
    pub log_level: String,
    pub async_threads: usize,
    pub auto_start_daemon: bool,
    pub listen: Option<String>,
    pub externalip: Option<String>,
    pub outbound_target: usize,
    pub inbound_limit: usize,
    pub connect_peers: String,
    pub add_peers: String,
    pub disable_upnp: bool,
    pub disable_dns_seed: bool,
    pub app_dir: String,
    pub rocksdb_preset: String,
    pub rocksdb_wal_dir: Option<String>,
    pub rocksdb_cache_size: Option<usize>,
    pub reset_db: bool,
    pub rpc_max_clients: usize,
    pub perf_metrics: bool,
}

/// `num_cpus::get`: the number of logical CPUs available; its documentation
/// promises at least one. What the machine reports is not stated further.
#[verifier::external_body]
fn cpu_count() -> (r: usize)
    ensures
        r >= 1,
{
    num_cpus::get()
}

/// `dirs::home_dir`: the user's home directory, as text, when one is known.
/// It comes from the environment, so nothing is promised of its value.
#[verifier::external_body]
fn home_dir() -> (r: Option<String>) {
    dirs::home_dir().map(|h| h.to_string_lossy().into_owned())
}

/// Whether `p` starts like a Windows verbatim path (`\\?\`), either slash
/// standing for a separator.
pub open spec fn verbatim_prefixed(p: Seq<char>) -> bool {
    &&& p.len() >= 4
    &&& (p[0] == '\\' || p[0] == '/')
    &&& (p[1] == '\\' || p[1] == '/')
    &&& p[2] == '?'
    &&& (p[3] == '\\' || p[3] == '/')
}

/// `Path::join` with a `child` that is one normal path component (no
/// separator, no drive or verbatim prefix, neither `.` nor `..`): its
/// documentation says that joining a relative path extends `base`, adding a
/// separator if needed. The result ends with `child`. It starts with `base`
/// unless `base` is a Windows verbatim path, which the documentation says
/// is normalized on joining; of such a base nothing more is stated. Which
/// separator, if any, stands between the two is the platform's and is not
/// stated.
#[verifier::external_body]
fn path_join(base: &str, child: &str) -> (r: String)
    requires
        child@.len() > 0,
        child@ != "."@,
        child@ != ".."@,
        forall|i: int|
            0 <= i < child@.len() ==> child@[i] != '/' && child@[i] != '\\' && child@[i] != ':',
    ensures
        r@.len() >= child@.len(),
        r@.skip(r@.len() - child@.len()) == child@,
        !verbatim_prefixed(base@) ==> {
            &&& r@.len() >= base@.len() + child@.len()
            &&& r@.take(base@.len() as int) == base@
        },
{
    std::path::Path::new(base).join(child).to_string_lossy().into_owned()
}

/// Name of the data directory under the home directory.
pub open spec fn app_dir_name() -> Seq<char> {
    ".tui4kas"@
}

/// The data directory for a home directory: `.tui4kas` under it, or
/// `.tui4kas` in the working directory when there is none. Under a Windows
/// verbatim home path only the last component is stated.
pub fn app_dir_in(home: Option<String>) -> (r: String)
    ensures
        match home {
            Some(h) => {
                &&& r@.len() >= app_dir_name().len()
                &&& r@.skip(r@.len() - app_dir_name().len()) == app_dir_name()
                &&& !verbatim_prefixed(h@) ==> {
                    &&& r@.len() >= h@.len() + app_dir_name().len()
                    &&& r@.take(h@.len() as int) == h@
                }
            },
            None => r@ == app_dir_name(),
        },
{
    proof {
        reveal_strlit(".tui4kas");
        reveal_strlit(".");
        reveal_strlit("..");
        assert(".tui4kas"@ != "."@ && ".tui4kas"@ != ".."@) by {
            assert(".tui4kas"@.len() != "."@.len());
            assert(".tui4kas"@.len() != ".."@.len());
        }
    }
    match home {
        Some(h) => path_join(h.as_str(), ".tui4kas"),
        None => String::from_str(".tui4kas"),
    }
}

/// The data directory: `.tui4kas` under the home directory, or in the
/// working directory when the home directory is unknown.
pub fn default_app_dir() -> (r: String)
    ensures
        r@.len() >= app_dir_name().len(),
        r@.skip(r@.len() - app_dir_name().len()) == app_dir_name(),
{
    let r = app_dir_in(home_dir());
    proof {
        reveal_strlit(".tui4kas");
        assert(r@.skip(r@.len() - app_dir_name().len()) == app_dir_name()) by {
            if r@ == app_dir_name() {
                assert(r@.skip(0) =~= r@);
            }
        }
    }
    r
}

pub fn default_rocksdb_preset() -> (r: String)
    ensures
        r@ == "default"@,
{
    String::from_str("default")
}

pub fn default_outpeers() -> (r: usize)
    ensures
        r == 8,
{
    8
}

pub fn default_inbound_limit() -> (r: usize)
    ensures
        r == 128,
{
    128
}

pub fn default_rpc_max_clients() -> (r: usize)
    ensures
        r == 128,
{
    128
}

pub open spec fn spec_daemon_networks() -> Seq<Seq<char>> {
    seq!["mainnet"@, "testnet-10"@, "testnet-11"@]
}

pub open spec fn spec_log_levels() -> Seq<Seq<char>> {
    seq!["TRACE"@, "DEBUG"@, "INFO"@, "WARN"@, "ERROR"@]
}

pub open spec fn spec_rocksdb_presets() -> Seq<Seq<char>> {
    seq!["default"@, "hdd"@]
}

/// The node's networks, log levels and database presets have no repeated
/// entry, so cycling through any of them comes back to the starting value
/// after as many presses as the list is long.
pub proof fn law_node_settings_cycle_return(i: int, j: int, k: int)
    requires
        0 <= i < spec_daemon_networks().len(),
        0 <= j < spec_log_levels().len(),
        0 <= k < spec_rocksdb_presets().len(),
    ensures
        cycled(spec_daemon_networks(), spec_daemon_networks()[i], 0, 3) == spec_daemon_networks()[i],
        cycled(spec_log_levels(), spec_log_levels()[j], 3, 5) == spec_log_levels()[j],
        cycled(spec_rocksdb_presets(), spec_rocksdb_presets()[k], 0, 2) == spec_rocksdb_presets()[k],
{
    crate::config::law_network_cycle_returns(i);
    reveal_strlit("TRACE");
    reveal_strlit("DEBUG");
    reveal_strlit("INFO");
    reveal_strlit("WARN");
    reveal_strlit("ERROR");
    reveal_strlit("default");
    reveal_strlit("hdd");
    let levels = spec_log_levels();
    assert forall|a: int, b: int| 0 <= a < b < levels.len() implies #[trigger] levels[a]
        != #[trigger] levels[b] by {
        assert(levels[a][0] != levels[b][0]);
    }
    law_cycle_returns(levels, j, 3, 5);
    let presets = spec_rocksdb_presets();
    assert forall|a: int, b: int| 0 <= a < b < presets.len() implies #[trigger] presets[a]
        != #[trigger] presets[b] by {
        assert(presets[a].len() != presets[b].len());
    }
    law_cycle_returns(presets, k, 0, 2);
}

/// The settings of a new node configuration other than its thread count and
/// data directory: mainnet without UTXO index or archival data, warnings
/// logged, 8 outbound peers, 128 inbound peers and RPC clients, the default
/// database preset, nothing else set.
pub open spec fn default_settings(r: DaemonConfig) -> bool {
    &&& r.network@ == "mainnet"@
    &&& !r.utxo_index
    &&& !r.archival
    &&& r.log_level@ == "WARN"@
    &&& !r.auto_start_daemon
    &&& r.listen is None
    &&& r.externalip is None
    &&& r.outbound_target == 8
    &&& r.inbound_limit == 128
    &&& r.connect_peers@.len() == 0
    &&& r.add_peers@.len() == 0
    &&& !r.disable_upnp
    &&& !r.disable_dns_seed
    &&& r.rocksdb_preset@ == "default"@
    &&& r.rocksdb_wal_dir is None
    &&& r.rocksdb_cache_size is None
    &&& !r.reset_db
    &&& r.rpc_max_clients == 128
    &&& !r.perf_metrics
}

impl DaemonConfig {
    /// The default settings with `threads` async threads and data directory
    /// `app_dir`.
    pub fn with(threads: usize, app_dir: String) -> (r: DaemonConfig)
        ensures
            default_settings(r),
            r.async_threads == threads,
            r.app_dir@ == app_dir@,
    {
        DaemonConfig {
            network: String::from_str("mainnet"),
            utxo_index: false,
            archival: false,
            log_level: String::from_str("WARN"),
            async_threads: threads,
            auto_start_daemon: false,
            listen: None,
            externalip: None,
            outbound_target: 8,
            inbound_limit: 128,
            connect_peers: String::new(),
            add_peers: String::new(),
            disable_upnp: false,
            disable_dns_seed: false,
            app_dir,
            rocksdb_preset: String::from_str("default"),
            rocksdb_wal_dir: None,
            rocksdb_cache_size: None,
            reset_db: false,
            rpc_max_clients: 128,
            perf_metrics: false,
        }
    }
}

impl Default for DaemonConfig {
    /// The default settings with one thread per CPU and the data directory
    /// under the home directory.
    fn default() -> (r: DaemonConfig)
        ensures
            default_settings(r),
            r.async_threads >= 1,
            r.app_dir@.len() >= app_dir_name().len(),
            r.app_dir@.skip(r.app_dir@.len() - app_dir_name().len()) == app_dir_name(),
    {
        DaemonConfig::with(cpu_count(), default_app_dir())
    }
}

impl DaemonConfig {
    pub fn valid_networks() -> (r: &'static [&'static str])
        ensures
            views_of(r@) == spec_daemon_networks(),
    {
        let r: &'static [&'static str] = &["mainnet", "testnet-10", "testnet-11"];
        proof {
            assert(views_of(r@) =~= spec_daemon_networks());
        }
        r
    }

    pub fn valid_log_levels() -> (r: &'static [&'static str])
        ensures
            views_of(r@) == spec_log_levels(),
    {
        let r: &'static [&'static str] = &["TRACE", "DEBUG", "INFO", "WARN", "ERROR"];
        proof {
            assert(views_of(r@) =~= spec_log_levels());
        }
        r
    }

    pub fn valid_rocksdb_presets() -> (r: &'static [&'static str])
        ensures
            views_of(r@) == spec_rocksdb_presets(),
    {
        let r: &'static [&'static str] = &["default", "hdd"];
        proof {
            assert(views_of(r@) =~= spec_rocksdb_presets());
        }
        r
    }

    /// The next network; an unknown one counts as the first.
    pub fn cycle_network(&mut self)
        ensures
            final(self).network@ == next_in(spec_daemon_networks(), old(self).network@, 0),
            *final(self) == (DaemonConfig { network: final(self).network, ..*old(self) }),
    {
        let list = Self::valid_networks();
        self.network = cycle_in(list, self.network.as_str(), 0);
    }

    /// The next log level; an unknown one counts as `WARN`.
    pub fn cycle_log_level(&mut self)
        ensures
            final(self).log_level@ == next_in(spec_log_levels(), old(self).log_level@, 3),
            *final(self) == (DaemonConfig { log_level: final(self).log_level, ..*old(self) }),
    {
        let list = Self::valid_log_levels();
        self.log_level = cycle_in(list, self.log_level.as_str(), 3);
    }

    /// The next database preset; an unknown one counts as the first.
    pub fn cycle_rocksdb_preset(&mut self)
        ensures
            final(self).rocksdb_preset@ == next_in(spec_rocksdb_presets(), old(self).rocksdb_preset@, 0),
            *final(self) == (DaemonConfig { rocksdb_preset: final(self).rocksdb_preset, ..*old(self) }),
    {
        let list = Self::valid_rocksdb_presets();
        self.rocksdb_preset = cycle_in(list, self.rocksdb_preset.as_str(), 0);
    }

    /// The peers of a comma-separated list, trimmed, empty entries left out.
    pub fn parse_peers(s: &str) -> (r: Vec<String>)
        ensures
            r@.len() == peer_list(s@).len(),
            forall|i: int| 0 <= i < r@.len() ==> (#[trigger] r@[i])@ == peer_list(s@)[i],
    {
        parse_peer_list(s)
    }
}

/// Index of the first `c` in `s`, or its length when there is none.
pub open spec fn first_index_of(s: Seq<char>, c: char) -> int
    decreases s.len(),
{
    if s.len() == 0 {
        0
    } else if s[0] == c {
        0
    } else {
        1 + first_index_of(s.drop_first(), c)
    }
}

proof fn lemma_first_index_of(s: Seq<char>, c: char, i: int)
    requires
        0 <= i <= s.len(),
        forall|k: int| 0 <= k < i ==> s[k] != c,
        i == s.len() || s[i] == c,
    ensures
        first_index_of(s, c) == i,
    decreases i,
{
    if i > 0 {
        lemma_first_index_of(s.drop_first(), c, i - 1);
    }
}

/// The entries of a comma-separated list, each trimmed, empty ones left out.
pub open spec fn peer_list(s: Seq<char>) -> Seq<Seq<char>>
    decreases s.len(),
{
    let i = first_index_of(s, ',');
    let head = trim_spec(s.take(i));
    let rest = if 0 <= i < s.len() {
        peer_list(s.skip(i + 1))
    } else {
        Seq::empty()
    };
    if head.len() > 0 {
        seq![head] + rest
    } else {
        rest
    }
}

/// The first `c` in `s` is at `i` when none comes before and `s[i]` is one
/// (or `i` is the end).
pub proof fn lemma_first_index_of_pub(s: Seq<char>, c: char, i: int)
    requires
        0 <= i <= s.len(),
        forall|k: int| 0 <= k < i ==> s[k] != c,
        i == s.len() || s[i] == c,
    ensures
        first_index_of(s, c) == i,
{
    lemma_first_index_of(s, c, i);
}

proof fn lemma_first_index_bounds(s: Seq<char>, c: char)
    ensures
        0 <= first_index_of(s, c) <= s.len(),
    decreases s.len(),
{
    if s.len() > 0 && s[0] != c {
        lemma_first_index_bounds(s.drop_first(), c);
    }
}

fn parse_peer_list(s: &str) -> (r: Vec<String>)
    ensures
        r@.len() == peer_list(s@).len(),
        forall|i: int| 0 <= i < r@.len() ==> (#[trigger] r@[i])@ == peer_list(s@)[i],
{
    let n = s.unicode_len();
    let mut r: Vec<String> = Vec::new();
    let mut start: usize = 0;
    let mut i: usize = 0;
    let ghost mut done: Seq<Seq<char>> = Seq::empty();
    proof {
        assert(s@.skip(0) =~= s@);
        assert(done + peer_list(s@.skip(0)) =~= peer_list(s@));
    }
    while i < n
        invariant
            n == s@.len(),
            start <= i <= n,
            forall|k: int| start <= k < i ==> s@[k] != ',',
            r@.len() == done.len(),
            forall|k: int| 0 <= k < r@.len() ==> (#[trigger] r@[k])@ == done[k],
            done + peer_list(s@.skip(start as int)) == peer_list(s@),
        decreases n - i,
    {
        if s.get_char(i) == ',' {
            let segment = s.substring_char(start, i);
            let t = trim_str(segment);
            proof {
                let rest = s@.skip(start as int);
                lemma_first_index_of(rest, ',', i - start);
                assert(rest.take(i - start) =~= segment@);
                assert(rest.skip(i - start + 1) =~= s@.skip(i + 1));
            }
            if t.unicode_len() > 0 {
                r.push(t.to_owned());
                proof {
                    done = done.push(t@);
                    assert(done + peer_list(s@.skip(i + 1)) =~= peer_list(s@));
                }
            } else {
                proof {
                    assert(done + peer_list(s@.skip(i + 1)) =~= peer_list(s@));
                }
            }
            start = i + 1;
        }
        i = i + 1;
    }
    let segment = s.substring_char(start, n);
    let t = trim_str(segment);
    proof {
        let rest = s@.skip(start as int);
        lemma_first_index_of(rest, ',', n - start);
        assert(rest.take(n - start) =~= segment@);
    }
    if t.unicode_len() > 0 {
        r.push(t.to_owned());
        proof {
            done = done.push(t@);
        }
    }
    proof {
        assert(done =~= peer_list(s@));
    }
    r
}

/// Network flags of the node for a network name: testnet, testnet suffix,
/// devnet, simnet. An unknown name counts as mainnet.
pub fn parse_network(network: &str) -> (r: (bool, u32, bool, bool))
    ensures
        r == if network@ == "testnet-10"@ {
            (true, 10u32, false, false)
        } else if network@ == "testnet-11"@ {
            (true, 11u32, false, false)
        } else {
            (false, 10u32, false, false)
        },
{
    if str_eq(network, "testnet-10") {
        (true, 10, false, false)
    } else if str_eq(network, "testnet-11") {
        (true, 11, false, false)
    } else {
        (false, 10, false, false)
    }
}

/// Port of the node's Borsh wRPC server on a network.
pub open spec fn wrpc_borsh_port(network: Seq<char>) -> u16 {
    if network == "testnet-10"@ || network == "testnet-11"@ {
        17210
    } else {
        17110
    }
}

/// Address of the integrated node's Borsh wRPC server.
pub fn wrpc_borsh_url(network: &str) -> (r: String)
    ensures
        r@ == "ws://127.0.0.1:"@ + crate::rpc_types::decimal(wrpc_borsh_port(network@) as nat),
{
    let port: u64 = if str_eq(network, "testnet-10") || str_eq(network, "testnet-11") {
        17210
    } else {
        17110
    };
    let mut r = String::from_str("ws://127.0.0.1:");
    crate::rpc_types::push_decimal(&mut r, port);
    r
}

/// Directory of the node's data for a network, under the data directory.
pub fn network_dir_name(network: &str) -> (r: &'static str)
    ensures
        r@ == if network@ == "testnet-10"@ {
            "kaspa-testnet-10"@
        } else if network@ == "testnet-11"@ {
            "kaspa-testnet-11"@
        } else {
            "kaspa-mainnet"@
        },
{
    if str_eq(network, "testnet-10") {
        "kaspa-testnet-10"
    } else if str_eq(network, "testnet-11") {
        "kaspa-testnet-11"
    } else {
        "kaspa-mainnet"
    }
}

/// The database preset handed to the node: none for an empty or the
/// default preset.
pub fn rocksdb_preset_arg(preset: &str) -> (r: Option<String>)
    ensures
        match r {
            Some(p) => p@ == preset@ && preset@.len() > 0 && preset@ != "default"@,
            None => preset@.len() == 0 || preset@ == "default"@,
        },
{
    if preset.unicode_len() == 0 || str_eq(preset, "default") {
        None
    } else {
        Some(preset.to_owned())
    }
}

/// The arguments the integrated node is started with, as plain values. The
/// program turns them into the node's own argument type: it parses the
/// addresses there (dropping those that do not parse) and adds the fractional
/// settings.
#[derive(Debug, Clone)]
pub struct NodeArgs {
    pub appdir: String,
    pub utxoindex: bool,
    pub archival: bool,
    pub testnet: bool,
    pub testnet_suffix: u32,
    pub devnet: bool,
    pub simnet: bool,
    /// Serve Borsh wRPC on the network's default port.
    pub rpclisten_borsh_default: bool,
    pub disable_grpc: bool,
    /// Serve JSON wRPC.
    pub rpclisten_json: bool,
    /// Approve database resets without asking.
    pub yes: bool,
    pub no_log_files: bool,
    pub log_level: String,
    pub async_threads: usize,
    pub listen: Option<String>,
    pub externalip: Option<String>,
    pub outbound_target: usize,
    pub inbound_limit: usize,
    /// Every entry of the configured list, in order, as text: nothing here
    /// parses them. Entries that are no address are dropped only where the
    /// node's own argument type is built, by its address parser.
    pub connect_peers: Vec<String>,
    /// As `connect_peers`, for the peers to add.
    pub add_peers: Vec<String>,
    pub disable_upnp: bool,
    pub disable_dns_seeding: bool,
    pub reset_db: bool,
    pub rpc_max_clients: usize,
    pub rocksdb_preset: Option<String>,
    pub rocksdb_wal_dir: Option<String>,
    pub rocksdb_cache_size: Option<usize>,
    pub perf_metrics: bool,
}

fn clone_opt(o: &Option<String>) -> (r: Option<String>)
    ensures
        opt_view(r) == opt_view(*o),
{
    match o {
        Some(s) => Some(s.clone()),
        None => None,
    }
}

/// The node's arguments for `config`: the network flags of its network, a
/// Borsh wRPC server on the default port and no other RPC server, automatic
/// approval of database resets, log files on, every entry of the two peer
/// lists as unparsed text (see `NodeArgs::connect_peers`), and the database
/// preset unless it is the default one.
pub fn build_kaspad_args(config: &DaemonConfig) -> (r: NodeArgs)
    ensures
        r.appdir@ == config.app_dir@,
        r.utxoindex == config.utxo_index,
        r.archival == config.archival,
        (r.testnet, r.testnet_suffix, r.devnet, r.simnet) == (if config.network@ == "testnet-10"@ {
            (true, 10u32, false, false)
        } else if config.network@ == "testnet-11"@ {
            (true, 11u32, false, false)
        } else {
            (false, 10u32, false, false)
        }),
        r.rpclisten_borsh_default,
        r.disable_grpc,
        !r.rpclisten_json,
        r.yes,
        !r.no_log_files,
        r.log_level@ == config.log_level@,
        r.async_threads == config.async_threads,
        opt_view(r.listen) == opt_view(config.listen),
        opt_view(r.externalip) == opt_view(config.externalip),
        r.outbound_target == config.outbound_target,
        r.inbound_limit == config.inbound_limit,
        string_views(r.connect_peers@) == peer_list(config.connect_peers@),
        string_views(r.add_peers@) == peer_list(config.add_peers@),
        r.disable_upnp == config.disable_upnp,
        r.disable_dns_seeding == config.disable_dns_seed,
        r.reset_db == config.reset_db,
        r.rpc_max_clients == config.rpc_max_clients,
        opt_view(r.rocksdb_preset) == (if config.rocksdb_preset@.len() == 0
            || config.rocksdb_preset@ == "default"@ {
            None
        } else {
            Some(config.rocksdb_preset@)
        }),
        opt_view(r.rocksdb_wal_dir) == opt_view(config.rocksdb_wal_dir),
        r.rocksdb_cache_size == config.rocksdb_cache_size,
        r.perf_metrics == config.perf_metrics,
{
    let (testnet, testnet_suffix, devnet, simnet) = parse_network(config.network.as_str());
    let connect_peers = DaemonConfig::parse_peers(config.connect_peers.as_str());
    let add_peers = DaemonConfig::parse_peers(config.add_peers.as_str());
    proof {
        assert(string_views(connect_peers@) =~= peer_list(config.connect_peers@));
        assert(string_views(add_peers@) =~= peer_list(config.add_peers@));
    }
    let rocksdb_preset = rocksdb_preset_arg(config.rocksdb_preset.as_str());
    NodeArgs {
        appdir: config.app_dir.clone(),
        utxoindex: config.utxo_index,
        archival: config.archival,
        testnet,
        testnet_suffix,
        devnet,
        simnet,
        rpclisten_borsh_default: true,
        disable_grpc: true,
        rpclisten_json: false,
        yes: true,
        no_log_files: false,
        log_level: config.log_level.clone(),
        async_threads: config.async_threads,
        listen: clone_opt(&config.listen),
        externalip: clone_opt(&config.externalip),
        outbound_target: config.outbound_target,
        inbound_limit: config.inbound_limit,
        connect_peers,
        add_peers,
        disable_upnp: config.disable_upnp,
        disable_dns_seeding: config.disable_dns_seed,
        reset_db: config.reset_db,
        rpc_max_clients: config.rpc_max_clients,
        rocksdb_preset,
        rocksdb_wal_dir: clone_opt(&config.rocksdb_wal_dir),
        rocksdb_cache_size: config.rocksdb_cache_size,
        perf_metrics: config.perf_metrics,
    }
}

/// Text shown for an optional setting: the value, or a dash.
pub fn opt_str(val: &Option<String>) -> (r: &str)
    ensures
        r@ == match val {
            Some(s) => s@,
            None => "—"@,
        },
{
    match val {
        Some(s) => s.as_str(),
        None => "—",
    }
}

/// Text shown for an optional number: its decimal digits, or a dash.
pub fn opt_usize(val: &Option<usize>) -> (r: String)
    ensures
        r@ == match val {
            Some(v) => crate::rpc_types::decimal(*v as nat),
            None => "—"@,
        },
{
    match val {
        Some(v) => {
            let mut s = String::new();
            crate::rpc_types::push_decimal(&mut s, *v as u64);
            proof {
                assert(s@ =~= crate::rpc_types::decimal(*v as nat));
            }
            s
        },
        None => String::from_str("—"),
    }
}

/// `Yes` or `No`.
pub fn bool_str(v: bool) -> (r: String)
    ensures
        r@ == if v {
            "Yes"@
        } else {
            "No"@
        },
{
    if v {
        String::from_str("Yes")
    } else {
        String::from_str("No")
    }
}

/// Line of the node settings list on which field `field` is shown: the
/// general fields follow their header, the networking and storage fields
/// follow a blank line and a header, then the performance field and the
/// start button.
pub fn estimate_field_line(field: usize) -> (r: usize)
    ensures
        r == if field <= 6 {
            1 + field
        } else if field <= 14 {
            10 + (field - 7)
        } else if field <= 21 {
            20 + (field - 15)
        } else if field == 22 {
            29
        } else if field == 23 {
            32
        } else {
            0
        },
{
    if field <= 6 {
        1 + field
    } else if field <= 14 {
        10 + (field - 7)
    } else if field <= 21 {
        20 + (field - 15)
    } else if field == 22 {
        29
    } else if field == 23 {
        32
    } else {
        0
    }
}

/// Where the program writes its logs.
#[derive(Debug, Clone, Copy, PartialEq, Eq, Structural)]
pub enum LogTarget {
    Tui,
    Cli,
}

impl LogTarget {
    /// Name of the log file and logger.
    pub fn as_str(&self) -> (r: &'static str)
        ensures
            r@ == match self {
                LogTarget::Tui => "tui"@,
                LogTarget::Cli => "cli"@,
            },
    {
        match self {
            LogTarget::Tui => "tui",
            LogTarget::Cli => "cli",
        }
    }

    /// Whether logs also go to standard output: not for the terminal UI,
    /// which draws there.
    pub fn stdout_enabled(&self) -> (r: bool)
        ensures
            r == (*self == LogTarget::Cli),
    {
        match self {
            LogTarget::Tui => false,
            LogTarget::Cli => true,
        }
    }
}

} // verus!

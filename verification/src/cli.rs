//! Command-line options of the dashboard and of the command-line tool, as
//! plain values: the program parses the arguments into these, and the
//! overrides they make of the stored settings.
use vstd::prelude::*;

use crate::config::ConfigOverrides;
use crate::rpc_types::opt_view;

verus! {

/// Options of the dashboard.
#[derive(Debug, Clone)]
pub struct CliArgs {
    /// Node wRPC address; without one the dashboard finds a public node.
    pub url: Option<String>,
    /// `mainnet`, `testnet-10` or `testnet-11`.
    pub network: String,
    /// Refresh interval in milliseconds.
    pub refresh_interval_ms: u64,
}

impl Default for CliArgs {
    /// The options when none is given.
    fn default() -> (r: CliArgs)
        ensures
            r.url is None,
            r.network@ == "mainnet"@,
            r.refresh_interval_ms == 1000,
    {
        CliArgs { url: None, network: String::from_str("mainnet"), refresh_interval_ms: 1000 }
    }
}

/// How much the program logs.
#[derive(Debug, Clone, Copy, PartialEq, Eq, Structural)]
pub enum LogLevel {
    Off,
    Error,
    Warn,
    Info,
    Debug,
    Trace,
}

impl Default for LogLevel {
    fn default() -> (r: LogLevel)
        ensures
            r == LogLevel::Info,
    {
        LogLevel::Info
    }
}

/// Options that every command of the command-line tool takes.
#[derive(Debug, Clone)]
pub struct GlobalArgs {
    pub log_level: LogLevel,
    pub url: Option<String>,
    pub network: Option<String>,
    pub refresh_interval_ms: Option<u64>,
    pub analyze_from_pruning_point: Option<bool>,
}

/// The overrides that options give: each option that is present.
pub open spec fn overrides_of(
    url: Option<String>,
    network: Option<String>,
    refresh_interval_ms: Option<u64>,
    analyze_from_pruning_point: Option<bool>,
    r: ConfigOverrides,
) -> bool {
    &&& opt_view(r.url) == opt_view(url)
    &&& opt_view(r.network) == opt_view(network)
    &&& r.refresh_interval_ms == refresh_interval_ms
    &&& r.analyze_from_pruning_point == analyze_from_pruning_point
}

impl GlobalArgs {
    /// The stored settings that these options replace.
    pub fn into_overrides(self) -> (r: ConfigOverrides)
        ensures
            overrides_of(
                self.url,
                self.network,
                self.refresh_interval_ms,
                self.analyze_from_pruning_point,
                r,
            ),
    {
        ConfigOverrides {
            url: self.url,
            network: self.network,
            refresh_interval_ms: self.refresh_interval_ms,
            analyze_from_pruning_point: self.analyze_from_pruning_point,
        }
    }
}

/// Number of blocks that `get-mining-info` looks at when not told otherwise.
pub const DEFAULT_MINING_BLOCKS: usize = 500;

/// The node queries of the command-line tool.
pub enum RpcCommands {
    GetServerInfo,
    GetDagInfo,
    GetMempool,
    /// Hashrate, miners and pools over the last `blocks` blocks.
    GetMiningInfo { blocks: usize },
    GetCoinSupply,
    GetFeeEstimate,
}

/// The commands of the command-line tool.
pub enum Commands {
    /// The price of KAS.
    GetPrice,
    /// A query of the node.
    Rpc { command: RpcCommands },
}

/// A whole command line of the command-line tool.
pub struct Cli {
    pub global_args: GlobalArgs,
    pub command: Commands,
}

} // verus!

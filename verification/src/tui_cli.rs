//! Command-line options of the analytics terminal UI, as plain values, and
//! the overrides they make of the stored settings.
use vstd::prelude::*;

use crate::cli::{overrides_of, LogLevel};
use crate::config::ConfigOverrides;

verus! {

/// Options of the analytics terminal UI: the same as the command-line tool's
/// global options.
#[derive(Debug, Clone)]
pub struct CliArgs {
    pub log_level: LogLevel,
    pub url: Option<String>,
    pub network: Option<String>,
    pub refresh_interval_ms: Option<u64>,
    pub analyze_from_pruning_point: Option<bool>,
}

impl CliArgs {
    /// The stored settings that these options replace.
    pub fn into_overrides(self) -> (r: ConfigOverrides)
        ensures
            overrides_of(
                self.url,
                self.network,
                self.refresh_interval_ms,
                self.analyze_from_pruning_point,
                r,
            ),
    {
        ConfigOverrides {
            url: self.url,
            network: self.network,
            refresh_interval_ms: self.refresh_interval_ms,
            analyze_from_pruning_point: self.analyze_from_pruning_point,
        }
    }
}

} // verus!

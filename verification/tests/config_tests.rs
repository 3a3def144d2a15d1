use tui4kas::config::{AppConfig, ConfigOverrides};
use tui4kas::daemon::DaemonConfig;

#[test]
fn default_config_values() {
    let config = AppConfig::default();
    assert_eq!(config.url, None);
    assert_eq!(config.network, "mainnet");
    assert_eq!(config.refresh_interval_ms, 1000);
    assert!(config.analyze_from_pruning_point);
}

#[test]
fn cycle_network() {
    let mut config = AppConfig::default();
    assert_eq!(config.network, "mainnet");
    config.cycle_network();
    assert_eq!(config.network, "testnet-10");
    config.cycle_network();
    assert_eq!(config.network, "testnet-11");
    config.cycle_network();
    assert_eq!(config.network, "mainnet");
}

#[test]
fn apply_overrides_partial() {
    let mut config = AppConfig::default();
    config.apply_overrides(ConfigOverrides {
        url: Some("ws://10.0.0.1:17110".to_string()),
        network: None,
        refresh_interval_ms: Some(500),
        analyze_from_pruning_point: None,
    });
    assert_eq!(config.url, Some("ws://10.0.0.1:17110".to_string()));
    assert_eq!(config.network, "mainnet");
    assert_eq!(config.refresh_interval_ms, 500);
    assert!(config.analyze_from_pruning_point);
}

#[test]
fn apply_overrides_all() {
    let mut config = AppConfig::default();
    config.apply_overrides(ConfigOverrides {
        url: Some("ws://localhost:1234".to_string()),
        network: Some("testnet-11".to_string()),
        refresh_interval_ms: Some(2000),
        analyze_from_pruning_point: Some(false),
    });
    assert_eq!(config.url, Some("ws://localhost:1234".to_string()));
    assert_eq!(config.network, "testnet-11");
    assert_eq!(config.refresh_interval_ms, 2000);
    assert!(!config.analyze_from_pruning_point);
}

#[test]
fn config_default_config_values() {
    let config = DaemonConfig::default();
    assert_eq!(config.network, "mainnet");
    assert!(!config.utxo_index);
    assert!(!config.archival);
    assert_eq!(config.log_level, "WARN");
    assert!(config.async_threads > 0);
    assert_eq!(config.outbound_target, 8);
    assert_eq!(config.inbound_limit, 128);
    assert_eq!(config.rpc_max_clients, 128);
    assert_eq!(config.rocksdb_preset, "default");
    assert!(!config.perf_metrics);
    assert!(!config.disable_upnp);
    assert!(!config.disable_dns_seed);
    assert!(!config.reset_db);
}

#[test]
fn config_cycle_network() {
    let mut config = DaemonConfig::default();
    assert_eq!(config.network, "mainnet");
    config.cycle_network();
    assert_eq!(config.network, "testnet-10");
    config.cycle_network();
    assert_eq!(config.network, "testnet-11");
    config.cycle_network();
    assert_eq!(config.network, "mainnet");
}

#[test]
fn cycle_log_level() {
    let mut config = DaemonConfig::default();
    assert_eq!(config.log_level, "WARN");
    config.cycle_log_level();
    assert_eq!(config.log_level, "ERROR");
    config.cycle_log_level();
    assert_eq!(config.log_level, "TRACE");
}

#[test]
fn cycle_rocksdb_preset() {
    let mut config = DaemonConfig::default();
    assert_eq!(config.rocksdb_preset, "default");
    config.cycle_rocksdb_preset();
    assert_eq!(config.rocksdb_preset, "hdd");
    config.cycle_rocksdb_preset();
    assert_eq!(config.rocksdb_preset, "default");
}

#[test]
fn parse_peers() {
    assert_eq!(
        DaemonConfig::parse_peers("1.2.3.4:16111, 5.6.7.8:16111"),
        vec!["1.2.3.4:16111", "5.6.7.8:16111"]
    );
    assert!(DaemonConfig::parse_peers("").is_empty());
    assert!(DaemonConfig::parse_peers("  ,  ").is_empty());
}

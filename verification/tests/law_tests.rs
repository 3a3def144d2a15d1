use std::collections::VecDeque;

use tui4kas::analytics::{BlockSummary, TimeBucket, MAX_MINUTE_BUCKETS};
use tui4kas::app_state::{MiningPanel, Tab, TimeWindow, ViewMode};
use tui4kas::command_line::CommandLine;
use tui4kas::commands::{method_from_name, RpcMethod};
use tui4kas::config::AppConfig;
use tui4kas::daemon::DaemonConfig;
use tui4kas::engine::{AnalyticsEngine, RecentBlocks};
use tui4kas::node_log::{append_log_lines, MAX_LOG_LINES};
use tui4kas::rpc_types::rpc_methods;

fn block(hash: &str, timestamp_ms: u64, tx_count: usize) -> BlockSummary {
    BlockSummary {
        hash: hash.to_string(),
        timestamp_ms,
        tx_count,
        total_mass: 10 * tx_count as u64,
        mass_count: tx_count,
        total_fees: 3 * tx_count as u64,
        fee_count: tx_count,
        sender_counts: vec![("kaspa:a".to_string(), tx_count)],
        receiver_counts: vec![("kaspa:b".to_string(), tx_count)],
        protocol_counts: Vec::new(),
        protocol_mass: Vec::new(),
        protocol_fees: Vec::new(),
    }
}

#[test]
fn backspace_undoes_insert_in_middle() {
    let mut cl = CommandLine::default();
    cl.input = "a🦀b".to_string();
    cl.cursor_pos = 5;
    cl.insert_char('é');
    assert_eq!(cl.input, "a🦀éb");
    assert_eq!(cl.cursor_pos, 7);
    cl.backspace();
    assert_eq!(cl.input, "a🦀b");
    assert_eq!(cl.cursor_pos, 5);
}

#[test]
fn move_right_then_left_returns() {
    let mut cl = CommandLine::default();
    cl.input = "a🦀b".to_string();
    cl.cursor_pos = 1;
    cl.move_right();
    assert_eq!(cl.cursor_pos, 5);
    cl.move_left();
    assert_eq!(cl.cursor_pos, 1);
}

#[test]
fn next_then_prev_tab_returns() {
    for tab in Tab::all() {
        assert_eq!(tab.next().prev(), *tab);
        assert_eq!(tab.prev().next(), *tab);
    }
}

#[test]
fn time_window_cycle_returns_after_seven() {
    let mut w = TimeWindow::OneMin;
    let mut last = w.whole_seconds();
    for _ in 0..6 {
        w.cycle();
        assert!(w.whole_seconds() > last);
        last = w.whole_seconds();
    }
    w.cycle();
    assert_eq!(w, TimeWindow::OneMin);
}

#[test]
fn toggles_undo_on_concrete_values() {
    let mut v = ViewMode::Table;
    v.toggle();
    assert_eq!(v, ViewMode::Chart);
    v.toggle();
    assert_eq!(v, ViewMode::Table);
    for p in [MiningPanel::Miners, MiningPanel::Pools, MiningPanel::Versions] {
        assert_eq!(p.next().prev(), p);
        assert_eq!(p.prev().next(), p);
    }
}

#[test]
fn remove_undoes_add_on_engine() {
    let mut engine = AnalyticsEngine::new();
    engine.add_block(block("h1", 1000, 2));
    let blocks = engine.total_blocks_processed;
    let txs = engine.total_transactions;
    engine.add_block(block("h2", 2000, 7));
    assert!(engine.remove_block("h2"));
    assert_eq!(engine.total_blocks_processed, blocks);
    assert_eq!(engine.total_transactions, txs);
    assert_eq!(engine.recent_blocks.len(), 1);
    assert!(engine.recent_blocks.contains_key("h1"));
    assert!(!engine.recent_blocks.contains_key("h2"));
}

#[test]
fn prune_keeps_at_most_the_limit() {
    let mut engine = AnalyticsEngine::new();
    let now = 10_000_000u64;
    for i in 0..100u64 {
        engine.minute_buckets.push_back(TimeBucket::new(now - 3_000_000 + i * 1000));
    }
    engine.prune_buckets(now);
    assert_eq!(engine.minute_buckets.len(), MAX_MINUTE_BUCKETS);
    assert_eq!(engine.minute_buckets.back().unwrap().bucket_start_ms, now - 3_000_000 + 99_000);
}

#[test]
fn finalize_keeps_every_transaction() {
    let mut engine = AnalyticsEngine::new();
    let now = 600_000u64;
    engine.add_block(block("a", 100_000, 4));
    engine.add_block(block("b", 200_000, 5));
    engine.add_block(block("c", now - 10_000, 6));
    engine.finalize_old_blocks(now);
    let recent: usize = engine.recent_blocks.values().iter().map(|b| b.tx_count).sum();
    let bucketed: usize = engine.minute_buckets.iter().map(|b| b.tx_count).sum();
    assert_eq!(recent, 6);
    assert_eq!(bucketed, 9);
    assert!(engine.recent_blocks.values().iter().all(|b| b.timestamp_ms >= now - 60_000));
}

#[test]
fn network_cycle_returns_after_three() {
    for start in ["mainnet", "testnet-10", "testnet-11"] {
        let mut config = AppConfig::default();
        config.network = start.to_string();
        for _ in 0..3 {
            config.cycle_network();
        }
        assert_eq!(config.network, start);
    }
}

#[test]
fn node_settings_cycle_return() {
    let mut config = DaemonConfig::default();
    for _ in 0..5 {
        config.cycle_log_level();
    }
    assert_eq!(config.log_level, "WARN");
    for _ in 0..2 {
        config.cycle_rocksdb_preset();
    }
    assert_eq!(config.rocksdb_preset, "default");
    for _ in 0..3 {
        config.cycle_network();
    }
    assert_eq!(config.network, "mainnet");
}

#[test]
fn every_listed_method_runs() {
    let methods = rpc_methods();
    for (name, _) in &methods {
        assert!(method_from_name(name).is_some(), "{} has no method", name);
    }
    assert_eq!(method_from_name("ping"), Some(RpcMethod::Ping));
    assert_eq!(method_from_name("get_sink"), Some(RpcMethod::GetSink));
    assert_eq!(method_from_name("get_sink_blue_score"), Some(RpcMethod::GetSinkBlueScore));
    assert_eq!(method_from_name("get_server_info"), Some(RpcMethod::GetServerInfo));
    assert_eq!(method_from_name("get_sync_status"), Some(RpcMethod::GetSyncStatus));
    assert_eq!(method_from_name("nope"), None);
}

#[test]
fn node_log_never_exceeds_its_limit() {
    let mut log: VecDeque<String> = VecDeque::new();
    let mut text = String::new();
    for i in 0..1500 {
        text.push_str(&format!("line {}\n", i));
    }
    append_log_lines(&mut log, &text);
    assert_eq!(log.len(), MAX_LOG_LINES);
    assert_eq!(log.front().unwrap(), "line 500");
    assert_eq!(log.back().unwrap(), "line 1499");
}

#[test]
fn recent_blocks_keep_index_map_order() {
    let mut r = RecentBlocks::new();
    assert!(r.is_empty());
    r.insert(block("a", 1, 1));
    r.insert(block("b", 2, 2));
    r.insert(block("c", 3, 3));
    assert_eq!(r.len(), 3);
    let removed = r.swap_remove("a").unwrap();
    assert_eq!(removed.tx_count, 1);
    let order: Vec<&str> = r.values().iter().map(|b| b.hash.as_str()).collect();
    assert_eq!(order, vec!["c", "b"]);
    r.insert(block("b", 9, 7));
    let order: Vec<(&str, usize)> = r.values().iter().map(|b| (b.hash.as_str(), b.tx_count)).collect();
    assert_eq!(order, vec![("c", 3), ("b", 7)]);
    assert!(r.swap_remove("zzz").is_none());
    assert!(r.contains_key("c") && !r.contains_key("a"));
    assert_eq!(r.len(), 2);
}

#[test]
fn all_rpc_methods_have_handler() {
    let methods = rpc_methods();
    let handled: Vec<RpcMethod> = methods.iter().filter_map(|(name, _)| method_from_name(name)).collect();
    assert_eq!(handled.len(), methods.len());
    let every = [
        RpcMethod::GetServerInfo,
        RpcMethod::GetBlockDagInfo,
        RpcMethod::GetBlockCount,
        RpcMethod::GetMempoolEntries,
        RpcMethod::GetCoinSupply,
        RpcMethod::GetFeeEstimate,
        RpcMethod::GetFeeEstimateExperimental,
        RpcMethod::GetConnectedPeerInfo,
        RpcMethod::GetPeerAddresses,
        RpcMethod::GetCurrentNetwork,
        RpcMethod::GetSink,
        RpcMethod::GetSinkBlueScore,
        RpcMethod::GetInfo,
        RpcMethod::GetSyncStatus,
        RpcMethod::GetVirtualChain,
        RpcMethod::GetHeaders,
        RpcMethod::EstimateNetworkHashesPerSecond,
        RpcMethod::Ping,
    ];
    for m in every {
        assert!(handled.contains(&m), "{:?} is handled but not listed", m);
    }
}

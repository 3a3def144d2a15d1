use tui4kas::analytics::BlockSummary;
use tui4kas::chain::{
    extract_block_summaries, ChainBlock, ChainInput, ChainOutput, ChainTransaction, ChainUpdate,
};
use tui4kas::engine::AnalyticsEngine;
use tui4kas::mining::{mining_sample, tally_mining, CoinbaseSummary};
use tui4kas::protocol::TransactionProtocol;
use tui4kas::config::AppConfig;
use tui4kas::screen::App;
use tui4kas::streaming::{
    apply_chain_update, latest_daa_score, next_stream_step, poll_delay_ms, reorg_message,
    stream_iteration, stream_synced, sync_progress, StreamStep,
};

fn coinbase_tx() -> ChainTransaction {
    let mut id = vec![0u8; 20];
    id[0] = 1;
    ChainTransaction {
        subnetwork_id: Some(id),
        transaction_id: Some("cb".to_string()),
        compute_mass: Some(5),
        payload: None,
        inputs: Vec::new(),
        outputs: vec![ChainOutput { value: Some(50), receiver_address: Some("kaspa:miner".to_string()) }],
    }
}

fn transfer(id: Option<&str>, mass: Option<u64>, amount: Option<u64>, payload: &[u8]) -> ChainTransaction {
    ChainTransaction {
        subnetwork_id: Some(vec![0u8; 20]),
        transaction_id: id.map(|s| s.to_string()),
        compute_mass: mass,
        payload: Some(payload.to_vec()),
        inputs: vec![ChainInput {
            utxo_amount: amount,
            sender_address: Some("kaspa:s".to_string()),
            signature_script: None,
        }],
        outputs: vec![ChainOutput { value: Some(900), receiver_address: Some("kaspa:r".to_string()) }],
    }
}

fn chain_block(hash: &str, timestamp: u64, daa: u64, txs: Vec<ChainTransaction>) -> ChainBlock {
    ChainBlock {
        hash: Some(hash.to_string()),
        timestamp: Some(timestamp),
        daa_score: Some(daa),
        accepted_transactions: txs,
    }
}

#[test]
fn extract_block_summaries_counts_each_transaction_once() {
    let update = ChainUpdate {
        removed_chain_block_hashes: vec!["gone".to_string()],
        added_chain_block_hashes: vec!["b1".to_string(), "b2".to_string()],
        chain_block_accepted_transactions: vec![
            chain_block(
                "b1",
                1000,
                10,
                vec![coinbase_tx(), transfer(Some("t1"), Some(2000), Some(1000), b"kasplex op")],
            ),
            chain_block(
                "b2",
                2000,
                11,
                vec![transfer(Some("t1"), Some(2000), Some(1000), b""), transfer(None, None, None, b"")],
            ),
        ],
    };
    let (blocks, removed) = extract_block_summaries(&update);
    assert_eq!(removed, vec!["gone".to_string()]);
    assert_eq!(blocks.len(), 2);
    let b1: &BlockSummary = &blocks[0];
    assert_eq!(b1.hash, "b1");
    assert_eq!(b1.timestamp_ms, 1000);
    assert_eq!(b1.tx_count, 1);
    assert_eq!(b1.total_mass, 2000);
    assert_eq!(b1.mass_count, 1);
    assert_eq!(b1.total_fees, 100);
    assert_eq!(b1.fee_count, 1);
    assert_eq!(b1.sender_counts, vec![("kaspa:s".to_string(), 1)]);
    assert_eq!(b1.receiver_counts, vec![("kaspa:r".to_string(), 1)]);
    assert_eq!(b1.protocol_counts, vec![(TransactionProtocol::Kasplex, 1)]);
    assert_eq!(b1.protocol_mass, vec![(TransactionProtocol::Kasplex, 2000)]);
    assert_eq!(b1.protocol_fees, vec![(TransactionProtocol::Kasplex, 100)]);
    let b2 = &blocks[1];
    assert_eq!(b2.tx_count, 1);
    assert_eq!(b2.total_mass, 0);
    assert_eq!(b2.mass_count, 0);
    assert_eq!(b2.total_fees, 0);
    assert_eq!(b2.fee_count, 0);
    assert_eq!(latest_daa_score(&update.chain_block_accepted_transactions), 11);
}

fn pool_payload(text: &[u8]) -> Vec<u8> {
    let mut p = vec![0u8; 18];
    p.push(0);
    p.extend_from_slice(text);
    p
}

#[test]
fn tally_mining_counts_miners_pools_and_versions() {
    let coinbases = vec![
        Some(CoinbaseSummary { miner_address: Some("kaspa:a".to_string()), payload: pool_payload(b"0.14.1/PoolA/") }),
        Some(CoinbaseSummary { miner_address: Some("kaspa:b".to_string()), payload: pool_payload(b"0.14.1/PoolB") }),
        Some(CoinbaseSummary { miner_address: Some("kaspa:a".to_string()), payload: pool_payload(b"0.13.0/PoolA") }),
        None,
        Some(CoinbaseSummary { miner_address: None, payload: vec![1, 2, 3] }),
    ];
    let stats = tally_mining(&coinbases, 5);
    assert_eq!(stats.blocks_analyzed, 5);
    assert_eq!(stats.unique_miners, 2);
    assert_eq!(stats.all_miners, vec![("kaspa:a".to_string(), 2), ("kaspa:b".to_string(), 1)]);
    assert_eq!(stats.pools, vec![("PoolA".to_string(), 2), ("PoolB".to_string(), 1)]);
    assert_eq!(stats.node_versions, vec![("0.14.1".to_string(), 2), ("0.13.0".to_string(), 1)]);
    assert_eq!(mining_sample(1000, 500), (500, 500));
    assert_eq!(mining_sample(100, 500), (0, 100));
}

#[test]
fn stream_decisions() {
    assert!(matches!(next_stream_step(true, false, true), StreamStep::Stop));
    assert!(matches!(next_stream_step(false, true, true), StreamStep::Wait(2000)));
    assert!(matches!(next_stream_step(false, false, false), StreamStep::Wait(2000)));
    assert!(matches!(next_stream_step(false, false, true), StreamStep::Fetch));
    assert!(stream_synced(false, 0));
    assert!(!stream_synced(false, 3));
    assert!(stream_synced(true, 3));
    assert_eq!(sync_progress(false, 5, 9), Some((5, 9)));
    assert_eq!(sync_progress(true, 5, 9), None);
    assert_eq!(poll_delay_ms(true), 2000);
    assert_eq!(poll_delay_ms(false), 100);
    assert_eq!(
        reorg_message("0123456789abcdef0123"),
        "Reorg detected affecting finalized block 0123456789abcdef…. Analytics may be slightly inaccurate."
    );
    assert_eq!(
        reorg_message("abc"),
        "Reorg detected affecting finalized block abc. Analytics may be slightly inaccurate."
    );
}

fn summary(hash: &str, timestamp_ms: u64, tx_count: usize) -> BlockSummary {
    BlockSummary {
        hash: hash.to_string(),
        timestamp_ms,
        tx_count,
        total_mass: 0,
        mass_count: 0,
        total_fees: 0,
        fee_count: 0,
        sender_counts: Vec::new(),
        receiver_counts: Vec::new(),
        protocol_counts: Vec::new(),
        protocol_mass: Vec::new(),
        protocol_fees: Vec::new(),
    }
}

#[test]
fn chain_update_removes_then_adds() {
    let mut engine = AnalyticsEngine::new();
    let now = 1_000_000u64;
    assert_eq!(apply_chain_update(&mut engine, &Vec::new(), vec![summary("x", now - 5000, 3)], now), None);
    assert_eq!(engine.total_transactions, 3);
    let note = apply_chain_update(
        &mut engine,
        &vec!["x".to_string()],
        vec![summary("y", now - 1000, 4), summary("z", now - 500, 1)],
        now,
    );
    assert_eq!(note, None);
    assert!(!engine.recent_blocks.contains_key("x"));
    assert!(engine.recent_blocks.contains_key("y"));
    assert_eq!(engine.total_blocks_processed, 2);
    assert_eq!(engine.total_transactions, 5);
    assert_eq!(engine.last_known_chain_block, Some("z".to_string()));

    apply_chain_update(&mut engine, &Vec::new(), vec![summary("old", now - 500_000, 2)], now);
    assert!(!engine.recent_blocks.contains_key("old"));
    let note = apply_chain_update(&mut engine, &vec!["old".to_string()], Vec::new(), now);
    assert_eq!(
        note,
        Some("Reorg detected affecting finalized block old. Analytics may be slightly inaccurate.".to_string())
    );
}

#[test]
fn stream_iteration_moves_cursor_and_marks_redraw() {
    let mut app = App::new(AppConfig::default());
    app.dirty = false;
    let mut engine = AnalyticsEngine::new();
    let now = 1_000_000u64;
    let next = stream_iteration(
        &mut app,
        &mut engine,
        7u32,
        &Vec::new(),
        vec![summary("a", now - 2000, 2), summary("b", now - 1000, 3)],
        &vec![11u32, 12u32],
        now,
    );
    assert_eq!(next, 12);
    assert!(app.dirty);
    assert_eq!(app.analytics.reorg_notification, None);
    assert_eq!(engine.total_blocks_processed, 2);
    assert_eq!(engine.total_transactions, 5);
    assert_eq!(engine.last_known_chain_block, Some("b".to_string()));

    app.dirty = false;
    let next = stream_iteration(&mut app, &mut engine, next, &Vec::new(), Vec::new(), &Vec::new(), now);
    assert_eq!(next, 12);
    assert!(app.dirty);
}

#[test]
fn stream_iteration_sets_reorg_note_and_keeps_old_one() {
    let mut app = App::new(AppConfig::default());
    let mut engine = AnalyticsEngine::new();
    let now = 1_000_000u64;
    stream_iteration(&mut app, &mut engine, 0u8, &Vec::new(), vec![summary("old", now - 500_000, 2)], &vec![1u8], now);
    stream_iteration(&mut app, &mut engine, 1u8, &vec!["old".to_string()], Vec::new(), &Vec::new(), now);
    let expected = "Reorg detected affecting finalized block old. Analytics may be slightly inaccurate.".to_string();
    assert_eq!(app.analytics.reorg_notification, Some(expected.clone()));
    stream_iteration(&mut app, &mut engine, 1u8, &Vec::new(), vec![summary("n", now - 100, 1)], &vec![2u8], now);
    assert_eq!(app.analytics.reorg_notification, Some(expected));
}

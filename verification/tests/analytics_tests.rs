use tui4kas::analytics::{BlockSummary, TimeBucket, ONE_HOUR_MS, TWENTY_FOUR_HOURS_MS};
use tui4kas::app_state::TimeWindow;
use tui4kas::engine::AnalyticsEngine;
use tui4kas::protocol::{detect_protocol, TransactionProtocol};
use tui4kas::tally::cap_tally;

fn make_block(hash: &str, timestamp_ms: u64, tx_count: usize, mass: u64) -> BlockSummary {
    BlockSummary {
        hash: hash.to_string(),
        timestamp_ms,
        tx_count,
        total_mass: mass,
        mass_count: if mass > 0 { tx_count } else { 0 },
        total_fees: mass / 2,
        fee_count: tx_count,
        sender_counts: vec![("sender1".to_string(), tx_count)],
        receiver_counts: vec![("receiver1".to_string(), tx_count)],
        protocol_counts: Vec::new(),
        protocol_mass: Vec::new(),
        protocol_fees: Vec::new(),
    }
}

fn make_block_with_protocol(hash: &str, timestamp_ms: u64, proto: TransactionProtocol) -> BlockSummary {
    BlockSummary {
        hash: hash.to_string(),
        timestamp_ms,
        tx_count: 1,
        total_mass: 100,
        mass_count: 1,
        total_fees: 50,
        fee_count: 1,
        sender_counts: Vec::new(),
        receiver_counts: Vec::new(),
        protocol_counts: vec![(proto, 1)],
        protocol_mass: vec![(proto, 100)],
        protocol_fees: vec![(proto, 50)],
    }
}

#[test]
fn detect_kasia_from_payload() {
    let payload = b"some ciph_msg data here";
    assert_eq!(detect_protocol(payload, &[]), Some(TransactionProtocol::Kasia));
}

#[test]
fn detect_kasplex_from_payload() {
    let payload = b"kasplex operation";
    assert_eq!(detect_protocol(payload, &[]), Some(TransactionProtocol::Kasplex));
}

#[test]
fn detect_ksocial_from_payload() {
    let payload = b"k:post data";
    assert_eq!(detect_protocol(payload, &[]), Some(TransactionProtocol::KSocial));
}

#[test]
fn detect_igra_from_payload() {
    let payload = &[0x93, 0x01, 0x02];
    assert_eq!(detect_protocol(payload, &[]), Some(TransactionProtocol::Igra));
}

#[test]
fn detect_igra_boundary_values() {
    assert_eq!(detect_protocol(&[0x91], &[]), Some(TransactionProtocol::Igra));
    assert_eq!(detect_protocol(&[0x97], &[]), Some(TransactionProtocol::Igra));
    assert_eq!(detect_protocol(&[0x90], &[]), None);
    assert_eq!(detect_protocol(&[0x98], &[]), None);
}

#[test]
fn detect_krc_from_input_script() {
    let mut script = vec![7u8];
    script.extend_from_slice(b"kasplex");
    assert_eq!(detect_protocol(&[], &[&script]), Some(TransactionProtocol::Krc));
}

#[test]
fn detect_krc_kspr_from_input_script() {
    let mut script = vec![4u8];
    script.extend_from_slice(b"kspr");
    assert_eq!(detect_protocol(&[], &[&script]), Some(TransactionProtocol::Krc));
}

#[test]
fn detect_kns_from_input_script() {
    let mut script = vec![3u8];
    script.extend_from_slice(b"kns");
    assert_eq!(detect_protocol(&[], &[&script]), Some(TransactionProtocol::Kns));
}

#[test]
fn detect_none_for_standard_tx() {
    assert_eq!(detect_protocol(&[], &[]), None);
    assert_eq!(detect_protocol(b"random data", &[]), None);
}

#[test]
fn add_and_remove_block() {
    let mut engine = AnalyticsEngine::new();
    engine.add_block(make_block("hash1", 1000, 5, 100));

    assert_eq!(engine.total_blocks_processed, 1);
    assert_eq!(engine.total_transactions, 5);
    assert_eq!(engine.recent_blocks.len(), 1);

    let removed = engine.remove_block("hash1");
    assert!(removed);
    assert_eq!(engine.total_blocks_processed, 0);
    assert_eq!(engine.total_transactions, 0);
    assert!(engine.recent_blocks.is_empty());
}

#[test]
fn remove_nonexistent_block_returns_false() {
    let mut engine = AnalyticsEngine::new();
    assert!(!engine.remove_block("doesnt_exist"));
}

#[test]
fn finalize_old_blocks_moves_to_buckets() {
    let mut engine = AnalyticsEngine::new();
    let now = 120_000u64;
    engine.add_block(make_block("old", 10_000, 3, 50));
    engine.add_block(make_block("recent", now - 30_000, 2, 100));

    engine.finalize_old_blocks(now);

    assert!(!engine.recent_blocks.contains_key("old"));
    assert!(engine.recent_blocks.contains_key("recent"));
    assert!(!engine.minute_buckets.is_empty());
}

#[test]
fn prune_buckets_removes_old() {
    let mut engine = AnalyticsEngine::new();
    let now = TWENTY_FOUR_HOURS_MS + ONE_HOUR_MS + 1000;

    engine.minute_buckets.push_back(TimeBucket::new(now - ONE_HOUR_MS - 1000));
    engine.minute_buckets.push_back(TimeBucket::new(now - 30_000));
    engine.ten_minute_buckets.push_back(TimeBucket::new(now - TWENTY_FOUR_HOURS_MS - 1000));
    engine.ten_minute_buckets.push_back(TimeBucket::new(now - 1000));

    engine.prune_buckets(now);

    assert_eq!(engine.minute_buckets.len(), 1);
    assert_eq!(engine.ten_minute_buckets.len(), 1);
}

#[test]
fn get_view_one_min_uses_recent_blocks() {
    let mut engine = AnalyticsEngine::new();
    engine.add_block(make_block("b1", 1000, 5, 100));
    engine.add_block(make_block("b2", 2000, 3, 200));

    let view = engine.get_view(TimeWindow::OneMin);
    assert_eq!(view.tx_count, 8);
    assert_eq!(view.total_mass, 300);
    assert_eq!(view.blocks_analyzed, 2);
    assert!(!view.top_senders.is_empty());
    assert!(!view.top_receivers.is_empty());
}

#[test]
fn get_view_one_hour_uses_minute_buckets() {
    let mut engine = AnalyticsEngine::new();
    let mut bucket = TimeBucket::new(60_000);
    bucket.tx_count = 10;
    bucket.total_mass = 500;
    bucket.mass_count = 10;
    engine.minute_buckets.push_back(bucket);

    let view = engine.get_view(TimeWindow::OneHour);
    assert_eq!(view.tx_count, 10);
    assert_eq!(view.total_mass, 500);
}

#[test]
fn protocol_counts_in_view() {
    let mut engine = AnalyticsEngine::new();
    engine.add_block(make_block_with_protocol("b1", 1000, TransactionProtocol::Krc));
    engine.add_block(make_block_with_protocol("b2", 2000, TransactionProtocol::Krc));
    engine.add_block(make_block_with_protocol("b3", 3000, TransactionProtocol::Kns));

    let view = engine.get_view(TimeWindow::OneMin);
    assert_eq!(view.protocol_counts.len(), 2);
    assert_eq!(view.protocol_counts[0], (TransactionProtocol::Krc, 2));
    assert_eq!(view.protocol_counts[1], (TransactionProtocol::Kns, 1));
}

#[test]
fn last_known_chain_block_tracks_last_added() {
    let mut engine = AnalyticsEngine::new();
    engine.add_block(make_block("first", 1000, 1, 10));
    assert_eq!(engine.last_known_chain_block, Some("first".to_string()));
    engine.add_block(make_block("second", 2000, 1, 10));
    assert_eq!(engine.last_known_chain_block, Some("second".to_string()));
}

#[test]
fn cap_hashmap_limits_entries() {
    let mut map: Vec<(String, usize)> = (0..200).map(|i| (format!("addr{}", i), i)).collect();
    cap_tally(&mut map, 10);
    assert_eq!(map.len(), 10);
    assert!(map.iter().any(|(k, _)| k == "addr199"));
    assert!(map.iter().any(|(k, _)| k == "addr190"));
}

#[test]
fn time_bucket_merge_block() {
    let mut bucket = TimeBucket::new(0);
    let block = make_block("b1", 100, 5, 50);
    bucket.merge_block(&block);

    assert_eq!(bucket.tx_count, 5);
    assert_eq!(bucket.total_mass, 50);
    assert_eq!(bucket.mass_count, 5);

    let block2 = make_block("b2", 200, 3, 100);
    bucket.merge_block(&block2);

    assert_eq!(bucket.tx_count, 8);
    assert_eq!(bucket.total_mass, 150);
}

#[test]
fn protocol_label_display() {
    assert_eq!(TransactionProtocol::Krc.label(), "KRC-20");
    assert_eq!(TransactionProtocol::Kns.label(), "KNS");
    assert_eq!(TransactionProtocol::Kasia.label(), "Kasia");
    assert_eq!(TransactionProtocol::Kasplex.label(), "Kasplex");
    assert_eq!(TransactionProtocol::KSocial.label(), "KSocial");
    assert_eq!(TransactionProtocol::Igra.label(), "Igra");
}

#[test]
fn detect_payload_priority_kasia_over_kasplex() {
    let payload = b"ciph_msg kasplex data";
    assert_eq!(detect_protocol(payload, &[]), Some(TransactionProtocol::Kasia));
}

#[test]
fn op_pushdata1_script_detection() {
    let mut script = vec![0x4c, 7];
    script.extend_from_slice(b"kasplex");
    assert_eq!(detect_protocol(&[], &[&script]), Some(TransactionProtocol::Krc));
}

#[test]
fn op_pushdata2_script_detection() {
    let mut script = vec![0x4d, 3, 0];
    script.extend_from_slice(b"kns");
    assert_eq!(detect_protocol(&[], &[&script]), Some(TransactionProtocol::Kns));
}

use tui4kas::rpc_types::{format_number, parse_coinbase_payload, shorten_address};

#[test]
fn format_number_zero() {
    assert_eq!(format_number(0), "0");
}

#[test]
fn format_number_small() {
    assert_eq!(format_number(999), "999");
}

#[test]
fn format_number_thousands() {
    assert_eq!(format_number(1_000), "1,000");
    assert_eq!(format_number(12_345), "12,345");
}

#[test]
fn format_number_millions() {
    assert_eq!(format_number(1_000_000), "1,000,000");
}

#[test]
fn shorten_address_short() {
    assert_eq!(shorten_address("abcdef", 10, 6), "abcdef");
}

#[test]
fn shorten_address_long() {
    let addr = "kaspa:abcdefghijklmnopqrstuvwxyz0123456789";
    let result = shorten_address(&addr, 10, 6);
    assert!(result.contains("..."));
    assert!(result.starts_with("kaspa:abcd"));
    assert!(result.ends_with("456789"));
}

#[test]
fn parse_coinbase_payload_too_short() {
    let info = parse_coinbase_payload(&[0u8; 10]);
    assert!(info.node_version.is_none());
    assert!(info.pool_name.is_none());
}

#[test]
fn parse_coinbase_payload_version_and_pool() {
    let mut payload = vec![0u8; 18];
    payload.push(0);
    payload.extend_from_slice(b"0.14.1/MyPool/extra");
    let info = parse_coinbase_payload(&payload);
    assert_eq!(info.node_version.as_deref(), Some("0.14.1"));
    assert_eq!(info.pool_name.as_deref(), Some("MyPool"));
}

#[test]
fn parse_coinbase_payload_version_only() {
    let mut payload = vec![0u8; 18];
    payload.push(0);
    payload.extend_from_slice(b"0.14.1");
    let info = parse_coinbase_payload(&payload);
    assert_eq!(info.node_version.as_deref(), Some("0.14.1"));
    assert!(info.pool_name.is_none());
}

#[test]
fn parse_coinbase_payload_with_script() {
    let mut payload = vec![0u8; 18];
    payload.push(3);
    payload.extend_from_slice(&[0x01, 0x02, 0x03]);
    payload.extend_from_slice(b"0.13.2/PoolX");
    let info = parse_coinbase_payload(&payload);
    assert_eq!(info.node_version.as_deref(), Some("0.13.2"));
    assert_eq!(info.pool_name.as_deref(), Some("PoolX"));
}

#[test]
fn parse_coinbase_payload_aa_script() {
    let mut payload = vec![0u8; 18];
    payload.push(2);
    payload.extend_from_slice(&[0xaa, 0x01]);
    payload.extend_from_slice(b"0.14.1/Pool");
    let info = parse_coinbase_payload(&payload);
    assert!(info.node_version.is_none());
    assert!(info.pool_name.is_none());
}

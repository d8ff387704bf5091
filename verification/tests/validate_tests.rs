use cncli::store::{Block, ChainStore};
use cncli::validate::{u64_to_dec, validate_block};

fn seeded_store() -> ChainStore {
    let mut s = ChainStore::new();
    s.append(Block {
        block_number: 5,
        slot_number: 100,
        hash: String::from("abc123def456"),
        prev_hash: String::from("000000000000"),
        leader_vrf: String::from("deadbeef"),
        orphaned: false,
    })
    .unwrap();
    s
}

#[test]
fn decimal_rendering_is_exact() {
    assert_eq!(u64_to_dec(0), "0");
    assert_eq!(u64_to_dec(5), "5");
    assert_eq!(u64_to_dec(10), "10");
    assert_eq!(u64_to_dec(104), "104");
    assert_eq!(u64_to_dec(18446744073709551615), "18446744073709551615");
}

#[test]
fn found_block_reports_ok() {
    let s = seeded_store();
    let report = validate_block(&s, "abc1");
    let expected = "{\n \"status\": \"ok\",\n \"block_number\": \"5\",\n \"slot_number\": \"100\",\n \"hash\": \"abc123def456\",\n \"prev_hash\": \"000000000000\",\n \"leader_vrf\": \"deadbeef\"\n}";
    assert_eq!(report, expected);
}

#[test]
fn orphaned_block_reports_orphaned() {
    let mut s = seeded_store();
    s.mark_orphaned_above(4);
    let report = validate_block(&s, "abc1");
    let expected = "{\n \"status\": \"orphaned\",\n \"block_number\": \"5\",\n \"slot_number\": \"100\",\n \"hash\": \"abc123def456\",\n \"prev_hash\": \"000000000000\",\n \"leader_vrf\": \"deadbeef\"\n}";
    assert_eq!(report, expected);
}

#[test]
fn missing_block_reports_error() {
    let s = seeded_store();
    let report = validate_block(&s, "ffff");
    let expected = "{\n \"status\": \"error\",\n \"errorMessage\": \"Query returned no rows\"\n}";
    assert_eq!(report, expected);
}

#[test]
fn full_hash_also_matches_as_its_own_prefix() {
    let s = seeded_store();
    let report = validate_block(&s, "abc123def456");
    assert!(report.contains("\"status\": \"ok\""));
    assert!(report.contains("\"block_number\": \"5\""));
}

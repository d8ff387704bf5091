use cncli::chainsync::Tip;
use cncli::tipreport::render_submission;
use cncli::{ledger_set_from_str, LedgerSet};

#[test]
fn submission_json_is_exact() {
    let tip = Tip { block_number: 1234, slot: 567890, hash: String::from("feedface") };
    let json = render_submission("SECRET-REDACTED", "MyPool", "pool1abc", "1.35.3", &tip);
    let expected = "{\"apiKey\": \"SECRET-REDACTED\", \"poolName\": \"MyPool\", \"poolId\": \"pool1abc\", \"version\": \"1.35.3\", \"blockNo\": 1234, \"slotNo\": 567890, \"blockHash\": \"feedface\"}";
    assert_eq!(json, expected);
}

#[test]
fn ledger_set_names_select_their_epoch() {
    assert_eq!(ledger_set_from_str("next"), LedgerSet::Mark);
    assert_eq!(ledger_set_from_str("current"), LedgerSet::Current);
    assert_eq!(ledger_set_from_str("prev"), LedgerSet::Go);
    // An unrecognized name silently falls back to the current epoch.
    assert_eq!(ledger_set_from_str("bogus"), LedgerSet::Current);
}

#[test]
fn ledger_set_parses_through_from_str() {
    let v: LedgerSet = "prev".parse().unwrap();
    assert_eq!(v, LedgerSet::Go);
}

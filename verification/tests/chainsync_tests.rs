use cncli::blockfetch::{BlockFetchDriver, FetchError};
use cncli::chainsync::{ChainSyncDriver, Header, SyncError, SyncState};
use cncli::session::SyncSession;
use cncli::handshake::{HandshakeReply, HandshakeState};
use cncli::store::{Block, ChainPoint, ChainStore};

fn header(n: u64, slot: u64, hash: &str, prev: &str) -> Header {
    Header {
        block_number: n,
        slot_number: slot,
        hash: String::from(hash),
        prev_hash: String::from(prev),
        leader_vrf: String::from("vrf"),
    }
}

fn following(store: &ChainStore) -> ChainSyncDriver {
    let mut d = ChainSyncDriver::new();
    d.start(store);
    d.on_intersect_found();
    d
}

#[test]
fn start_offers_recent_points_then_follows() {
    let mut store = ChainStore::new();
    store
        .append(Block {
            block_number: 1,
            slot_number: 10,
            hash: String::from("h1"),
            prev_hash: String::from("h0"),
            leader_vrf: String::from("v"),
            orphaned: false,
        })
        .unwrap();
    let mut d = ChainSyncDriver::new();
    assert_eq!(d.state, SyncState::Idle);
    let points = d.start(&store);
    assert_eq!(d.state, SyncState::AwaitingIntersection);
    assert_eq!(points.len(), 1);
    assert!(matches!(&points[0], ChainPoint::At { slot: 10, .. }));
    d.on_intersect_found();
    assert_eq!(d.state, SyncState::Following);
}

#[test]
fn intersect_not_found_is_fatal() {
    let store = ChainStore::new();
    let mut d = ChainSyncDriver::new();
    d.start(&store);
    assert_eq!(d.on_intersect_not_found(), SyncError::IntersectionNotFound);
    assert_eq!(d.state, SyncState::Failed);
}

#[test]
fn roll_forward_appends_chained_blocks() {
    let mut store = ChainStore::new();
    let mut d = following(&store);
    d.on_roll_forward(&mut store, header(1, 10, "h1", "genesis"), "h1").unwrap();
    d.on_roll_forward(&mut store, header(2, 20, "h2", "h1"), "h2").unwrap();
    assert_eq!(d.state, SyncState::Following);
    assert_eq!(store.head_block_number(), Some(2));
    assert_eq!(store.head_hash(), Some(String::from("h2")));
}

#[test]
fn roll_forward_out_of_order_is_fatal() {
    let mut store = ChainStore::new();
    let mut d = following(&store);
    d.on_roll_forward(&mut store, header(1, 10, "h1", "genesis"), "h1").unwrap();
    let r = d.on_roll_forward(&mut store, header(2, 20, "h2", "not-h1"), "h2");
    assert_eq!(r, Err(SyncError::OutOfOrderDelivery));
    assert_eq!(d.state, SyncState::Failed);
    assert_eq!(store.len(), 1);
}

#[test]
fn roll_forward_body_hash_mismatch_is_fatal() {
    let mut store = ChainStore::new();
    let mut d = following(&store);
    let r = d.on_roll_forward(&mut store, header(1, 10, "h1", "genesis"), "other");
    assert_eq!(r, Err(SyncError::BodyHashMismatch));
    assert_eq!(d.state, SyncState::Failed);
    assert_eq!(store.len(), 0);
}

#[test]
fn roll_forward_duplicate_block_is_fatal() {
    let mut store = ChainStore::new();
    let mut d = following(&store);
    d.on_roll_forward(&mut store, header(1, 10, "h1", "genesis"), "h1").unwrap();
    let mut d2 = following(&store);
    let r = d2.on_roll_forward(&mut store, header(2, 20, "h1", "h1"), "h1");
    assert_eq!(r, Err(SyncError::DuplicateBlock));
    assert_eq!(store.len(), 1);
}

#[test]
fn roll_backward_orphans_above_the_point() {
    let mut store = ChainStore::new();
    let mut d = following(&store);
    d.on_roll_forward(&mut store, header(1, 10, "h1", "genesis"), "h1").unwrap();
    d.on_roll_forward(&mut store, header(2, 20, "h2", "h1"), "h2").unwrap();
    d.on_roll_forward(&mut store, header(3, 30, "h3", "h2"), "h3").unwrap();
    let point = ChainPoint::At { slot: 10, hash: String::from("h1") };
    d.on_roll_backward(&mut store, &point).unwrap();
    assert_eq!(d.state, SyncState::Following);
    assert_eq!(store.head_block_number(), Some(1));
    assert_eq!(store.len(), 3);
}

#[test]
fn roll_backward_to_origin_orphans_everything() {
    let mut store = ChainStore::new();
    let mut d = following(&store);
    d.on_roll_forward(&mut store, header(1, 10, "h1", "genesis"), "h1").unwrap();
    d.on_roll_backward(&mut store, &ChainPoint::Origin).unwrap();
    assert!(matches!(store.head_point(), ChainPoint::Origin));
}

#[test]
fn roll_backward_to_unknown_point_loses_intersection() {
    let mut store = ChainStore::new();
    let mut d = following(&store);
    d.on_roll_forward(&mut store, header(1, 10, "h1", "genesis"), "h1").unwrap();
    let point = ChainPoint::At { slot: 99, hash: String::from("nowhere") };
    let r = d.on_roll_backward(&mut store, &point);
    assert_eq!(r, Err(SyncError::IntersectionLost));
    assert_eq!(d.state, SyncState::Failed);
    assert_eq!(store.len(), 1);
}

#[test]
fn block_fetch_verifies_the_body_hash() {
    let mut bf = BlockFetchDriver::new();
    let point = ChainPoint::At { slot: 10, hash: String::from("h1") };
    bf.request(&point);
    let body = vec![1u8, 2, 3];
    assert_eq!(bf.on_body(body.clone(), "h1"), Ok(body));
    bf.request(&point);
    assert_eq!(bf.on_body(vec![9u8], "h2"), Err(FetchError::HashMismatch));
}

#[test]
fn session_gates_chain_sync_behind_the_handshake() {
    let store = ChainStore::new();
    let mut session = SyncSession::new(764824073, vec![4, 5, 6]);
    session.handshake.propose();
    session.handshake.on_reply(HandshakeReply::Accept { version: 5, magic: 764824073 });
    assert_eq!(session.handshake.state, HandshakeState::Accepted { version: 5 });
    let points = session.begin_following(&store);
    assert!(points.is_empty());
    assert_eq!(session.chainsync.state, SyncState::AwaitingIntersection);
}

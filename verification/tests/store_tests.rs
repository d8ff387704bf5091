use cncli::store::{Block, ChainPoint, ChainStore, StoreError};

fn block(n: u64, slot: u64, hash: &str, prev: &str) -> Block {
    Block {
        block_number: n,
        slot_number: slot,
        hash: String::from(hash),
        prev_hash: String::from(prev),
        leader_vrf: String::from("vrf"),
        orphaned: false,
    }
}

#[test]
fn append_then_head_point() {
    let mut s = ChainStore::new();
    assert!(matches!(s.head_point(), ChainPoint::Origin));
    s.append(block(1, 10, "h1", "h0")).unwrap();
    s.append(block(2, 20, "h2", "h1")).unwrap();
    match s.head_point() {
        ChainPoint::At { slot, hash } => {
            assert_eq!(slot, 20);
            assert_eq!(hash, "h2");
        }
        ChainPoint::Origin => panic!("expected a head"),
    }
    assert_eq!(s.head_block_number(), Some(2));
    assert_eq!(s.head_hash(), Some(String::from("h2")));
}

#[test]
fn append_duplicate_live_hash_fails() {
    let mut s = ChainStore::new();
    s.append(block(1, 10, "h1", "h0")).unwrap();
    assert_eq!(s.append(block(7, 70, "h1", "hx")), Err(StoreError::DuplicateHash));
    assert_eq!(s.len(), 1);
}

#[test]
fn append_over_orphaned_hash_succeeds() {
    let mut s = ChainStore::new();
    s.append(block(1, 10, "h1", "h0")).unwrap();
    s.append(block(2, 20, "h2", "h1")).unwrap();
    s.mark_orphaned_above(1);
    // The orphaned row stays, but no longer blocks a fresh append.
    s.append(block(2, 21, "h2", "h1")).unwrap();
    assert_eq!(s.len(), 3);
}

#[test]
fn mark_orphaned_above_rolls_the_head_back() {
    let mut s = ChainStore::new();
    s.append(block(1, 10, "h1", "h0")).unwrap();
    s.append(block(2, 20, "h2", "h1")).unwrap();
    s.append(block(3, 30, "h3", "h2")).unwrap();
    s.mark_orphaned_above(1);
    assert_eq!(s.head_block_number(), Some(1));
    match s.head_point() {
        ChainPoint::At { slot, hash } => {
            assert_eq!(slot, 10);
            assert_eq!(hash, "h1");
        }
        ChainPoint::Origin => panic!("expected a head"),
    }
    // Rows above the rollback height are orphaned, not deleted.
    assert_eq!(s.len(), 3);
    let b3 = s.find_by_hash_prefix("h3").unwrap();
    assert!(b3.orphaned);
    let b1 = s.find_by_hash_prefix("h1").unwrap();
    assert!(!b1.orphaned);
    // Idempotent: a second pass changes nothing.
    s.mark_orphaned_above(1);
    assert_eq!(s.head_block_number(), Some(1));
    assert_eq!(s.len(), 3);
}

#[test]
fn mark_all_orphaned_leaves_origin() {
    let mut s = ChainStore::new();
    s.append(block(1, 10, "h1", "h0")).unwrap();
    s.mark_all_orphaned();
    assert!(matches!(s.head_point(), ChainPoint::Origin));
    assert_eq!(s.head_block_number(), None);
}

#[test]
fn recent_points_newest_first_skipping_orphans() {
    let mut s = ChainStore::new();
    s.append(block(1, 10, "h1", "h0")).unwrap();
    s.append(block(2, 20, "h2", "h1")).unwrap();
    s.append(block(3, 30, "h3", "h2")).unwrap();
    s.mark_orphaned_above(2);
    let points = s.recent_points(2);
    assert_eq!(points.len(), 2);
    match &points[0] {
        ChainPoint::At { slot, hash } => {
            assert_eq!(*slot, 20);
            assert_eq!(hash, "h2");
        }
        ChainPoint::Origin => panic!("expected a point"),
    }
    match &points[1] {
        ChainPoint::At { slot, hash } => {
            assert_eq!(*slot, 10);
            assert_eq!(hash, "h1");
        }
        ChainPoint::Origin => panic!("expected a point"),
    }
    // Asking for more than exist returns what exists.
    assert_eq!(s.recent_points(10).len(), 2);
    assert_eq!(s.recent_points(0).len(), 0);
}

#[test]
fn live_block_number_ignores_orphaned_rows() {
    let mut s = ChainStore::new();
    s.append(block(1, 10, "h1", "h0")).unwrap();
    s.append(block(2, 20, "h2", "h1")).unwrap();
    assert_eq!(s.live_block_number_by_hash("h2"), Some(2));
    s.mark_orphaned_above(1);
    assert_eq!(s.live_block_number_by_hash("h2"), None);
    assert_eq!(s.live_block_number_by_hash("h1"), Some(1));
}

#[test]
fn find_by_hash_prefix_finds_first_match() {
    let mut s = ChainStore::new();
    s.append(block(1, 10, "aabb", "h0")).unwrap();
    s.append(block(2, 20, "aacc", "aabb")).unwrap();
    let b = s.find_by_hash_prefix("aa").unwrap();
    assert_eq!(b.hash, "aabb");
    let b2 = s.find_by_hash_prefix("aac").unwrap();
    assert_eq!(b2.hash, "aacc");
    assert!(matches!(s.find_by_hash_prefix("zz"), Err(StoreError::NotFound)));
}

#[test]
fn restore_reloads_orphaned_rows_as_they_were() {
    let mut s = ChainStore::new();
    let mut orphaned_row = block(2, 20, "h2", "h1");
    orphaned_row.orphaned = true;
    s.restore(block(1, 10, "h1", "h0")).unwrap();
    s.restore(orphaned_row).unwrap();
    assert_eq!(s.len(), 2);
    assert_eq!(s.head_block_number(), Some(1));
    // A live duplicate is refused on reload too; an orphaned one is not.
    assert_eq!(s.restore(block(1, 11, "h1", "h0")), Err(StoreError::DuplicateHash));
    let mut dup_orphaned = block(1, 11, "h1", "h0");
    dup_orphaned.orphaned = true;
    s.restore(dup_orphaned).unwrap();
}

//! Chain-sync driver: follows the remote node's chain, turning roll-forward
//! and roll-backward instructions into store mutations, and detecting the
//! fatal conditions (lost intersection, out-of-order delivery, body hash
//! mismatch, duplicate block) that end a session.
//!
//! State machine: `Idle -> AwaitingIntersection -> Following`, with `Failed`
//! as the only terminal state short of an explicit shutdown.

use vstd::prelude::*;

verus! {

use crate::store::Block;
use crate::store::ChainPoint;
use crate::store::ChainStore;
use crate::store::has_live;
use crate::store::has_live_hash;
use crate::store::head_index_of;
use crate::store::mark_above;
use crate::store::mark_all;
use crate::strutil::str_equal;

/// How many recent local points are offered when searching an intersection.
pub const INTERSECT_CANDIDATES: usize = 33;

/// A chain header as delivered by a roll-forward instruction.
#[derive(Debug)]
pub struct Header {
    pub block_number: u64,
    pub slot_number: u64,
    /// Hex hash of this block; the fetched body must hash to it.
    pub hash: String,
    /// Hex hash of the parent; must equal the local head's hash.
    pub prev_hash: String,
    /// The block's VRF output, persisted for leader-election consumers.
    pub leader_vrf: String,
}

/// The remote node's most recently announced tip.
#[derive(Debug)]
pub struct Tip {
    pub block_number: u64,
    pub slot: u64,
    pub hash: String,
}

impl Clone for Tip {
    fn clone(&self) -> (r: Self)
        ensures
            r == *self,
    {
        Tip { block_number: self.block_number, slot: self.slot, hash: self.hash.clone() }
    }
}

/// Chain-sync driver state.
#[derive(Debug, Clone, Copy, PartialEq, Eq, Structural)]
pub enum SyncState {
    Idle,
    AwaitingIntersection,
    Following,
    Failed,
}

/// The fatal chain-sync conditions; each ends its session.
#[derive(Debug, Clone, Copy, PartialEq, Eq, Structural)]
pub enum SyncError {
    /// The remote found no intersection with the offered points: the local
    /// chain diverged beyond recoverable range; reported, never auto-repaired.
    IntersectionNotFound,
    /// A rollback point matched no non-orphaned local block.
    IntersectionLost,
    /// A roll-forward header's parent hash did not match the local head.
    OutOfOrderDelivery,
    /// A fetched body's hash did not match the requested header's hash.
    BodyHashMismatch,
    /// The store already held a non-orphaned block with the header's hash.
    DuplicateBlock,
}

/// The block row a roll-forward header becomes.
pub open spec fn block_of_header(h: Header) -> Block {
    Block {
        block_number: h.block_number,
        slot_number: h.slot_number,
        hash: h.hash,
        prev_hash: h.prev_hash,
        leader_vrf: h.leader_vrf,
        orphaned: false,
    }
}

/// The header's declared parent equals the local head's hash; trivially
/// true while the store has no non-orphaned block.
pub open spec fn parent_matches(s: Seq<Block>, prev_hash: Seq<char>) -> bool {
    has_live(s) ==> prev_hash == s[head_index_of(s)].hash@
}

/// One chain-sync driver instance.
#[derive(Debug)]
pub struct ChainSyncDriver {
    /// Current state.
    pub state: SyncState,
}

impl ChainSyncDriver {
    /// A fresh driver in `Idle`.
    pub fn new() -> (r: ChainSyncDriver)
        ensures
            r.state is Idle,
    {
        ChainSyncDriver { state: SyncState::Idle }
    }

    /// Declares the intersection candidates: the most recent local points,
    /// newest first. The caller sends them to the remote node.
    pub fn start(&mut self, store: &ChainStore) -> (points: Vec<ChainPoint>)
        requires
            old(self).state is Idle,
        ensures
            final(self).state is AwaitingIntersection,
            crate::store::points_match(
                points@,
                crate::store::recent_points_of(store.rows(), INTERSECT_CANDIDATES as int),
            ),
    {
        self.state = SyncState::AwaitingIntersection;
        store.recent_points(INTERSECT_CANDIDATES)
    }

    /// The remote found an intersection: following begins there.
    pub fn on_intersect_found(&mut self)
        requires
            old(self).state is AwaitingIntersection,
        ensures
            final(self).state is Following,
    {
        self.state = SyncState::Following;
    }

    /// The remote found no intersection: fatal for this session.
    pub fn on_intersect_not_found(&mut self) -> (r: SyncError)
        requires
            old(self).state is AwaitingIntersection,
        ensures
            final(self).state is Failed,
            r == SyncError::IntersectionNotFound,
    {
        self.state = SyncState::Failed;
        SyncError::IntersectionNotFound
    }

    /// A roll-forward instruction: the fetched body for `header` is appended
    /// as the new non-orphaned head. Fails, leaving the store unchanged and
    /// the session failed, when the header does not chain onto the local
    /// head, when the body's hash is not the header's, or when the store
    /// already holds that hash as non-orphaned.
    pub fn on_roll_forward(&mut self, store: &mut ChainStore, header: Header, body_hash: &str) -> (r:
        Result<(), SyncError>)
        requires
            old(self).state is Following,
        ensures
            r is Ok <==> {
                &&& parent_matches(old(store).rows(), header.prev_hash@)
                &&& body_hash@ == header.hash@
                &&& !has_live_hash(old(store).rows(), header.hash@)
            },
            r is Ok ==> final(store).rows() == old(store).rows().push(block_of_header(header))
                && final(self).state is Following,
            r is Err ==> final(store).rows() == old(store).rows() && final(self).state is Failed,
            r == Err::<(), SyncError>(SyncError::OutOfOrderDelivery) <==> !parent_matches(
                old(store).rows(),
                header.prev_hash@,
            ),
            r == Err::<(), SyncError>(SyncError::BodyHashMismatch) <==> parent_matches(
                old(store).rows(),
                header.prev_hash@,
            ) && body_hash@ != header.hash@,
            r == Err::<(), SyncError>(SyncError::DuplicateBlock) <==> {
                &&& parent_matches(old(store).rows(), header.prev_hash@)
                &&& body_hash@ == header.hash@
                &&& has_live_hash(old(store).rows(), header.hash@)
            },
    {
        let parent_ok = match store.head_hash() {
            None => true,
            Some(h) => str_equal(h.as_str(), header.prev_hash.as_str()),
        };
        if !parent_ok {
            self.state = SyncState::Failed;
            return Err(SyncError::OutOfOrderDelivery);
        }
        if !str_equal(body_hash, header.hash.as_str()) {
            self.state = SyncState::Failed;
            return Err(SyncError::BodyHashMismatch);
        }
        let row = Block {
            block_number: header.block_number,
            slot_number: header.slot_number,
            hash: header.hash,
            prev_hash: header.prev_hash,
            leader_vrf: header.leader_vrf,
            orphaned: false,
        };
        match store.append(row) {
            Ok(()) => Ok(()),
            Err(_) => {
                self.state = SyncState::Failed;
                Err(SyncError::DuplicateBlock)
            },
        }
    }

    /// A roll-backward instruction: every non-orphaned block strictly above
    /// the rollback point's height is orphaned. Rolling back to origin
    /// orphans everything. A point whose hash matches no non-orphaned local
    /// block loses the intersection: fatal, store unchanged.
    pub fn on_roll_backward(&mut self, store: &mut ChainStore, point: &ChainPoint) -> (r: Result<
        (),
        SyncError,
    >)
        requires
            old(self).state is Following,
        ensures
            point is Origin ==> r is Ok && final(store).rows() == mark_all(old(store).rows()),
            point matches ChainPoint::At { slot, hash } ==> {
                &&& (r is Ok <==> has_live_hash(old(store).rows(), hash@))
                &&& (r is Ok ==> exists|i: int|
                    {
                        &&& 0 <= i < old(store).rows().len()
                        &&& !old(store).rows()[i].orphaned
                        &&& old(store).rows()[i].hash@ == hash@
                        &&& final(store).rows() == mark_above(
                            old(store).rows(),
                            old(store).rows()[i].block_number,
                        )
                    })
                &&& (r is Err ==> r == Err::<(), SyncError>(SyncError::IntersectionLost)
                    && final(store).rows() == old(store).rows())
            },
            r is Ok ==> final(self).state is Following,
            r is Err ==> final(self).state is Failed,
    {
        match point {
            ChainPoint::Origin => {
                store.mark_all_orphaned();
                Ok(())
            },
            ChainPoint::At { slot: _, hash } => {
                match store.live_block_number_by_hash(hash.as_str()) {
                    Some(bn) => {
                        store.mark_orphaned_above(bn);
                        Ok(())
                    },
                    None => {
                        self.state = SyncState::Failed;
                        Err(SyncError::IntersectionLost)
                    },
                }
            },
        }
    }
}

} // verus!

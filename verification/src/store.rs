//! Chain store: persists accepted blocks, resolves rollbacks by marking
//! orphaned blocks (never deleting them), and answers point-of-intersection
//! and validation queries.

use vstd::prelude::*;

verus! {

use crate::strutil::str_equal;
use crate::strutil::str_starts_with;

/// One persisted block row.
#[derive(Debug)]
pub struct Block {
    /// Integer chain height.
    pub block_number: u64,
    /// Slot the block was minted in.
    pub slot_number: u64,
    /// Hex block hash; unique among non-orphaned rows.
    pub hash: String,
    /// Hex hash of the parent block, or a genesis sentinel.
    pub prev_hash: String,
    /// The block's VRF output, kept for leader-election consumers.
    pub leader_vrf: String,
    /// True once a rollback moved the canonical chain past this block.
    pub orphaned: bool,
}

impl Clone for Block {
    fn clone(&self) -> (r: Self)
        ensures
            r == *self,
    {
        Block {
            block_number: self.block_number,
            slot_number: self.slot_number,
            hash: self.hash.clone(),
            prev_hash: self.prev_hash.clone(),
            leader_vrf: self.leader_vrf.clone(),
            orphaned: self.orphaned,
        }
    }
}

/// A position on the chain: a (slot, hash) pair, or the origin sentinel
/// that precedes all blocks.
#[derive(Debug)]
pub enum ChainPoint {
    Origin,
    At { slot: u64, hash: String },
}

impl Clone for ChainPoint {
    fn clone(&self) -> (r: Self)
        ensures
            r == *self,
    {
        match self {
            ChainPoint::Origin => ChainPoint::Origin,
            ChainPoint::At { slot, hash } => ChainPoint::At { slot: *slot, hash: hash.clone() },
        }
    }
}

/// Why a store operation failed.
#[derive(Debug, Clone, Copy, PartialEq, Eq, Structural)]
pub enum StoreError {
    /// `append` found a non-orphaned row with the same hash.
    DuplicateHash,
    /// A query matched no row.
    NotFound,
}

/// Some non-orphaned row carries this hash.
pub open spec fn has_live_hash(s: Seq<Block>, h: Seq<char>) -> bool {
    exists|i: int| 0 <= i < s.len() && !s[i].orphaned && s[i].hash@ == h
}

/// Some row is non-orphaned.
pub open spec fn has_live(s: Seq<Block>) -> bool {
    exists|i: int| 0 <= i < s.len() && !s[i].orphaned
}

/// The block with its orphaned flag raised and every other field kept.
pub open spec fn orphan(b: Block) -> Block {
    Block { orphaned: true, ..b }
}

/// The store contents after orphaning every row above height `h`.
pub open spec fn mark_above(s: Seq<Block>, h: u64) -> Seq<Block> {
    s.map(
        |i: int, b: Block|
            if b.block_number > h {
                orphan(b)
            } else {
                b
            },
    )
}

/// The store contents after orphaning every row.
pub open spec fn mark_all(s: Seq<Block>) -> Seq<Block> {
    s.map(|i: int, b: Block| orphan(b))
}

/// Index `i` holds a non-orphaned row of maximal height: the head.
pub open spec fn is_head_index(s: Seq<Block>, i: int) -> bool {
    &&& 0 <= i < s.len()
    &&& !s[i].orphaned
    &&& forall|j: int| 0 <= j < s.len() && !s[j].orphaned ==> s[j].block_number <= s[i].block_number
}

/// The index of the head row: among non-orphaned rows of maximal height,
/// the most recently inserted one; -1 when every row is orphaned.
pub open spec fn head_index_of(s: Seq<Block>) -> int
    decreases s.len(),
{
    if s.len() == 0 {
        -1
    } else {
        let r = head_index_of(s.drop_last());
        let last = s.len() - 1;
        if s[last].orphaned {
            r
        } else if r < 0 || s[r].block_number <= s[last].block_number {
            last
        } else {
            r
        }
    }
}

/// The head index is a real head exactly when some row is non-orphaned.
pub proof fn lemma_head_index_of(s: Seq<Block>)
    ensures
        -1 <= head_index_of(s) < s.len(),
        head_index_of(s) == -1 <==> !has_live(s),
        has_live(s) ==> is_head_index(s, head_index_of(s)),
    decreases s.len(),
{
    if s.len() == 0 {
    } else {
        let t = s.drop_last();
        lemma_head_index_of(t);
        let last = s.len() - 1;
        let r = head_index_of(t);
        assert(forall|j: int| 0 <= j < last ==> s[j] == t[j]);
        if s[last].orphaned {
            if r == -1 {
                assert(!has_live(s)) by {
                    assert(forall|j: int| 0 <= j < last ==> s[j].orphaned);
                }
            } else {
                assert(is_head_index(s, r));
            }
        } else {
            assert(has_live(s));
            if r < 0 {
                assert(forall|j: int| 0 <= j < last ==> s[j].orphaned);
                assert(is_head_index(s, last as int));
            } else if t[r].block_number <= s[last].block_number {
                assert(is_head_index(s, last as int));
            } else {
                assert(is_head_index(s, r));
            }
        }
    }
}

/// The points of the most recent (up to) `n` non-orphaned blocks, newest
/// first, as (slot, hash) pairs.
pub open spec fn recent_points_of(s: Seq<Block>, n: int) -> Seq<(u64, Seq<char>)>
    decreases s.len(),
{
    if n <= 0 || s.len() == 0 {
        Seq::empty()
    } else {
        let last = s[s.len() - 1];
        if last.orphaned {
            recent_points_of(s.drop_last(), n)
        } else {
            seq![(last.slot_number, last.hash@)] + recent_points_of(s.drop_last(), n - 1)
        }
    }
}

/// Every returned point is an `At` point carrying the matching slot and hash.
pub open spec fn points_match(r: Seq<ChainPoint>, p: Seq<(u64, Seq<char>)>) -> bool {
    &&& r.len() == p.len()
    &&& forall|k: int|
        0 <= k < r.len() ==> ((#[trigger] r[k]) matches ChainPoint::At { slot, hash } && slot
            == p[k].0 && hash@ == p[k].1)
}

/// In-memory model of the chain table: rows in insertion order. The durable
/// storage layer mirrors these operations row for row.
#[derive(Debug)]
pub struct ChainStore {
    blocks: Vec<Block>,
}

impl ChainStore {
    /// The rows, in insertion order.
    pub closed spec fn rows(&self) -> Seq<Block> {
        self.blocks@
    }

    /// An empty store.
    pub fn new() -> (r: ChainStore)
        ensures
            r.rows() == Seq::<Block>::empty(),
    {
        ChainStore { blocks: Vec::new() }
    }

    /// Number of rows, orphaned ones included.
    pub fn len(&self) -> (r: usize)
        ensures
            r == self.rows().len(),
    {
        self.blocks.len()
    }

    /// Appends a block as non-orphaned. Fails, leaving the store unchanged,
    /// exactly when a non-orphaned row already carries the same hash; an
    /// orphaned row with that hash does not block the append.
    pub fn append(&mut self, b: Block) -> (r: Result<(), StoreError>)
        ensures
            r is Ok <==> !has_live_hash(old(self).rows(), b.hash@),
            r is Ok ==> final(self).rows() == old(self).rows().push(
                Block { orphaned: false, ..b },
            ),
            r is Err ==> final(self).rows() == old(self).rows() && r == Err::<
                (),
                StoreError,
            >(StoreError::DuplicateHash),
    {
        let n = self.blocks.len();
        let mut i: usize = 0;
        while i < n
            invariant
                n == self.rows().len(),
                i <= n,
                forall|j: int|
                    0 <= j < i ==> !(!self.rows()[j].orphaned && self.rows()[j].hash@ == b.hash@),
            decreases n - i,
        {
            if !self.blocks[i].orphaned && str_equal(self.blocks[i].hash.as_str(), b.hash.as_str())
            {
                return Err(StoreError::DuplicateHash);
            }
            i = i + 1;
        }
        let row = Block {
            block_number: b.block_number,
            slot_number: b.slot_number,
            hash: b.hash,
            prev_hash: b.prev_hash,
            leader_vrf: b.leader_vrf,
            orphaned: false,
        };
        self.blocks.push(row);
        Ok(())
    }

    /// Reinstates a persisted row, orphaned flag included: how the durable
    /// storage layer reloads the store. An orphaned row is always accepted;
    /// a non-orphaned one is refused exactly as `append` would refuse it.
    pub fn restore(&mut self, b: Block) -> (r: Result<(), StoreError>)
        ensures
            r is Ok <==> (b.orphaned || !has_live_hash(old(self).rows(), b.hash@)),
            r is Ok ==> final(self).rows() == old(self).rows().push(b),
            r is Err ==> final(self).rows() == old(self).rows() && r == Err::<
                (),
                StoreError,
            >(StoreError::DuplicateHash),
    {
        if b.orphaned {
            self.blocks.push(b);
            return Ok(());
        }
        let n = self.blocks.len();
        let mut i: usize = 0;
        while i < n
            invariant
                !b.orphaned,
                self.rows() == old(self).rows(),
                n == self.rows().len(),
                i <= n,
                forall|j: int|
                    0 <= j < i ==> !(!self.rows()[j].orphaned && self.rows()[j].hash@ == b.hash@),
            decreases n - i,
        {
            if !self.blocks[i].orphaned && str_equal(self.blocks[i].hash.as_str(), b.hash.as_str())
            {
                return Err(StoreError::DuplicateHash);
            }
            i = i + 1;
        }
        self.blocks.push(b);
        Ok(())
    }

    /// Orphans every non-orphaned row with height strictly above `h`,
    /// touching nothing else. Idempotent.
    pub fn mark_orphaned_above(&mut self, h: u64)
        ensures
            final(self).rows() == mark_above(old(self).rows(), h),
    {
        let n = self.blocks.len();
        let mut i: usize = 0;
        while i < n
            invariant
                n == self.rows().len(),
                n == old(self).rows().len(),
                i <= n,
                forall|j: int| i <= j < n ==> self.rows()[j] == old(self).rows()[j],
                forall|j: int| 0 <= j < i ==> self.rows()[j] == mark_above(old(self).rows(), h)[j],
            decreases n - i,
        {
            if self.blocks[i].block_number > h {
                self.blocks[i].orphaned = true;
            }
            i = i + 1;
        }
        proof {
            assert(final(self).rows() =~= mark_above(old(self).rows(), h));
        }
    }

    /// Orphans every row; the rollback target for the origin point.
    pub fn mark_all_orphaned(&mut self)
        ensures
            final(self).rows() == mark_all(old(self).rows()),
    {
        let n = self.blocks.len();
        let mut i: usize = 0;
        while i < n
            invariant
                n == self.rows().len(),
                n == old(self).rows().len(),
                i <= n,
                forall|j: int| i <= j < n ==> self.rows()[j] == old(self).rows()[j],
                forall|j: int| 0 <= j < i ==> self.rows()[j] == mark_all(old(self).rows())[j],
            decreases n - i,
        {
            self.blocks[i].orphaned = true;
            i = i + 1;
        }
        proof {
            assert(final(self).rows() =~= mark_all(old(self).rows()));
        }
    }

    fn head_index(&self) -> (r: Option<usize>)
        ensures
            r is None <==> head_index_of(self.rows()) == -1,
            r matches Some(k) ==> k as int == head_index_of(self.rows()) && k
                < self.rows().len(),
    {
        let n = self.blocks.len();
        let mut best: Option<usize> = None;
        let mut i: usize = 0;
        proof {
            assert(self.rows().subrange(0, 0) =~= Seq::<Block>::empty());
        }
        while i < n
            invariant
                n == self.rows().len(),
                i <= n,
                best is None <==> head_index_of(self.rows().subrange(0, i as int)) == -1,
                best matches Some(k) ==> k as int == head_index_of(
                    self.rows().subrange(0, i as int),
                ) && k < i,
            decreases n - i,
        {
            let ghost pre = self.rows().subrange(0, i as int);
            let ghost post = self.rows().subrange(0, i + 1 as int);
            proof {
                lemma_head_index_of(pre);
                assert(post.drop_last() =~= pre);
                assert(post[post.len() - 1] == self.rows()[i as int]);
            }
            if !self.blocks[i].orphaned {
                match best {
                    None => {
                        best = Some(i);
                    },
                    Some(k) => {
                        if self.blocks[i].block_number >= self.blocks[k].block_number {
                            best = Some(i);
                        }
                    },
                }
            }
            i = i + 1;
        }
        proof {
            assert(self.rows().subrange(0, n as int) =~= self.rows());
        }
        best
    }

    /// The (slot, hash) point of the highest non-orphaned block (on equal
    /// heights, the most recently inserted), or the origin point when no
    /// non-orphaned block exists.
    pub fn head_point(&self) -> (r: ChainPoint)
        ensures
            r is Origin <==> !has_live(self.rows()),
            r matches ChainPoint::At { slot, hash } ==> {
                &&& is_head_index(self.rows(), head_index_of(self.rows()))
                &&& slot == self.rows()[head_index_of(self.rows())].slot_number
                &&& hash@ == self.rows()[head_index_of(self.rows())].hash@
            },
    {
        proof {
            lemma_head_index_of(self.rows());
        }
        match self.head_index() {
            None => ChainPoint::Origin,
            Some(k) => ChainPoint::At {
                slot: self.blocks[k].slot_number,
                hash: self.blocks[k].hash.clone(),
            },
        }
    }

    /// The height of the head block, if any.
    pub fn head_block_number(&self) -> (r: Option<u64>)
        ensures
            r is Some <==> has_live(self.rows()),
            r matches Some(bn) ==> {
                &&& is_head_index(self.rows(), head_index_of(self.rows()))
                &&& bn == self.rows()[head_index_of(self.rows())].block_number
            },
    {
        proof {
            lemma_head_index_of(self.rows());
        }
        match self.head_index() {
            None => None,
            Some(k) => Some(self.blocks[k].block_number),
        }
    }

    /// The hash of the head block, if any; what a roll-forward header's
    /// parent hash must equal.
    pub fn head_hash(&self) -> (r: Option<String>)
        ensures
            r is Some <==> has_live(self.rows()),
            r matches Some(h) ==> {
                &&& is_head_index(self.rows(), head_index_of(self.rows()))
                &&& h@ == self.rows()[head_index_of(self.rows())].hash@
            },
    {
        proof {
            lemma_head_index_of(self.rows());
        }
        match self.head_index() {
            None => None,
            Some(k) => Some(self.blocks[k].hash.clone()),
        }
    }

    /// The points of the most recent `n` non-orphaned blocks, newest first;
    /// the candidates offered for an intersection search.
    pub fn recent_points(&self, n: usize) -> (r: Vec<ChainPoint>)
        ensures
            points_match(r@, recent_points_of(self.rows(), n as int)),
    {
        let mut out: Vec<ChainPoint> = Vec::new();
        let mut i: usize = self.blocks.len();
        proof {
            assert(self.rows().subrange(0, i as int) =~= self.rows());
        }
        while i > 0 && out.len() < n
            invariant
                i <= self.rows().len(),
                out@.len() <= n,
                points_match(out@, recent_points_of(self.rows(), n as int).subrange(0, out@.len() as int)),
                recent_points_of(self.rows(), n as int) == recent_points_of(
                    self.rows(),
                    n as int,
                ).subrange(0, out@.len() as int) + recent_points_of(
                    self.rows().subrange(0, i as int),
                    n - out@.len(),
                ),
            decreases i,
        {
            let ghost pre = self.rows().subrange(0, i as int);
            proof {
                assert(pre.drop_last() =~= self.rows().subrange(0, i - 1));
                assert(pre[pre.len() - 1] == self.rows()[i - 1]);
            }
            if !self.blocks[i - 1].orphaned {
                let ghost taken = recent_points_of(self.rows(), n as int).subrange(
                    0,
                    out@.len() as int,
                );
                let ghost rest = recent_points_of(pre, n - out@.len());
                out.push(
                    ChainPoint::At {
                        slot: self.blocks[i - 1].slot_number,
                        hash: self.blocks[i - 1].hash.clone(),
                    },
                );
                proof {
                    let all = recent_points_of(self.rows(), n as int);
                    assert(rest == seq![
                        (self.rows()[i - 1].slot_number, self.rows()[i - 1].hash@),
                    ] + recent_points_of(self.rows().subrange(0, i - 1), n - out@.len()));
                    assert(all[out@.len() - 1] == rest[0]);
                    assert(all.subrange(0, out@.len() as int) =~= taken + seq![rest[0]]);
                    assert(all == all.subrange(0, out@.len() as int) + recent_points_of(
                        self.rows().subrange(0, i - 1),
                        n - out@.len(),
                    )) by {
                        assert(all =~= (taken + seq![rest[0]]) + recent_points_of(
                            self.rows().subrange(0, i - 1),
                            n - out@.len(),
                        ));
                    }
                }
            }
            i = i - 1;
        }
        proof {
            let all = recent_points_of(self.rows(), n as int);
            if i == 0 {
                assert(self.rows().subrange(0, 0) =~= Seq::<Block>::empty());
                assert(recent_points_of(self.rows().subrange(0, 0), n - out@.len())
                    =~= Seq::<(u64, Seq<char>)>::empty());
            }
            assert(all =~= all.subrange(0, out@.len() as int));
        }
        out
    }

    /// The height of the non-orphaned block carrying exactly this hash;
    /// what a rollback point's height is resolved from.
    pub fn live_block_number_by_hash(&self, hash: &str) -> (r: Option<u64>)
        ensures
            r is Some <==> has_live_hash(self.rows(), hash@),
            r matches Some(bn) ==> exists|i: int|
                {
                    &&& 0 <= i < self.rows().len()
                    &&& !self.rows()[i].orphaned
                    &&& self.rows()[i].hash@ == hash@
                    &&& bn == self.rows()[i].block_number
                    &&& forall|j: int|
                        0 <= j < i ==> !(!self.rows()[j].orphaned && self.rows()[j].hash@ == hash@)
                },
    {
        let n = self.blocks.len();
        let mut i: usize = 0;
        while i < n
            invariant
                n == self.rows().len(),
                i <= n,
                forall|j: int|
                    0 <= j < i ==> !(!self.rows()[j].orphaned && self.rows()[j].hash@ == hash@),
            decreases n - i,
        {
            if !self.blocks[i].orphaned && str_equal(self.blocks[i].hash.as_str(), hash) {
                return Some(self.blocks[i].block_number);
            }
            i = i + 1;
        }
        None
    }

    /// The first row, in insertion order, whose hash starts with `prefix`,
    /// orphaned or not: status interpretation is the caller's. Fails with
    /// `NotFound` exactly when no row matches.
    pub fn find_by_hash_prefix(&self, prefix: &str) -> (r: Result<Block, StoreError>)
        ensures
            r is Ok <==> exists|i: int|
                0 <= i < self.rows().len() && prefix@.is_prefix_of(self.rows()[i].hash@),
            r matches Ok(b) ==> exists|i: int|
                {
                    &&& 0 <= i < self.rows().len()
                    &&& b == self.rows()[i]
                    &&& prefix@.is_prefix_of(self.rows()[i].hash@)
                    &&& forall|j: int| 0 <= j < i ==> !prefix@.is_prefix_of(self.rows()[j].hash@)
                },
            r matches Err(e) ==> e == StoreError::NotFound,
    {
        let n = self.blocks.len();
        let mut i: usize = 0;
        while i < n
            invariant
                n == self.rows().len(),
                i <= n,
                forall|j: int| 0 <= j < i ==> !prefix@.is_prefix_of(self.rows()[j].hash@),
            decreases n - i,
        {
            if str_starts_with(self.blocks[i].hash.as_str(), prefix) {
                return Ok(self.blocks[i].clone());
            }
            i = i + 1;
        }
        Err(StoreError::NotFound)
    }
}

/// Rollback invariant: after orphaning above `h`, every row above `h` is
/// orphaned, any head row left sits at height at most `h`, all other fields
/// survive untouched, and doing it again changes nothing (idempotence).
pub proof fn lemma_rollback_invariant(s: Seq<Block>, h: u64)
    ensures
        forall|i: int|
            0 <= i < mark_above(s, h).len() && (#[trigger] mark_above(s, h)[i]).block_number > h
                ==> mark_above(s, h)[i].orphaned,
        forall|i: int| #[trigger]
            is_head_index(mark_above(s, h), i) ==> mark_above(s, h)[i].block_number <= h,
        mark_above(s, h).len() == s.len(),
        forall|i: int|
            0 <= i < s.len() ==> (#[trigger] mark_above(s, h)[i]).block_number
                == s[i].block_number && mark_above(s, h)[i].slot_number == s[i].slot_number
                && mark_above(s, h)[i].hash == s[i].hash && mark_above(s, h)[i].prev_hash
                == s[i].prev_hash && mark_above(s, h)[i].leader_vrf == s[i].leader_vrf,
        mark_above(mark_above(s, h), h) == mark_above(s, h),
{
    assert(mark_above(mark_above(s, h), h) =~= mark_above(s, h));
}

/// Append invariant: a push of a non-orphaned block is allowed exactly when
/// no non-orphaned row already carries its hash; an orphaned row with the
/// same hash never blocks it.
pub proof fn lemma_append_invariant(s: Seq<Block>, b: Block)
    ensures
        !has_live_hash(s, b.hash@) <==> forall|i: int|
            0 <= i < s.len() && (#[trigger] s[i]).hash@ == b.hash@ ==> s[i].orphaned,
        has_live_hash(s.push(Block { orphaned: false, ..b }), b.hash@),
{
    let t = s.push(Block { orphaned: false, ..b });
    assert(!t[s.len() as int].orphaned && t[s.len() as int].hash@ == b.hash@);
}

} // verus!

//! Block-fetch driver: retrieves the body for a point announced by
//! chain-sync, strictly one outstanding request at a time, and verifies that
//! the body's hash equals the requested point's hash.

use vstd::prelude::*;

verus! {

use crate::store::ChainPoint;
use crate::strutil::str_equal;

/// Why block fetching failed; fatal protocol violation for the session.
#[derive(Debug, Clone, Copy, PartialEq, Eq, Structural)]
pub enum FetchError {
    /// The delivered body's hash is not the requested hash.
    HashMismatch,
}

/// One block-fetch driver instance; `pending` holds the hash of the one
/// outstanding request, preserving order with chain-sync's roll-forwards.
#[derive(Debug)]
pub struct BlockFetchDriver {
    pending: Option<String>,
}

impl BlockFetchDriver {
    /// The hash awaited, if a request is outstanding.
    pub closed spec fn pending_hash(&self) -> Option<Seq<char>> {
        match self.pending {
            Option::None => Option::None,
            Option::Some(h) => Option::Some(h@),
        }
    }

    /// A fresh driver with no outstanding request.
    pub fn new() -> (r: BlockFetchDriver)
        ensures
            r.pending_hash() is None,
    {
        BlockFetchDriver { pending: None }
    }

    /// Records the request for the body at `point`. The caller puts the
    /// request on the wire. Only one request may be outstanding.
    pub fn request(&mut self, point: &ChainPoint)
        requires
            old(self).pending_hash() is None,
            point matches ChainPoint::At { .. },
        ensures
            point matches ChainPoint::At { slot: _, hash } ==> final(self).pending_hash()
                == Option::Some(hash@),
    {
        match point {
            ChainPoint::Origin => {},
            ChainPoint::At { slot: _, hash } => {
                self.pending = Some(hash.clone());
            },
        }
    }

    /// Consumes the delivered body: returns it unchanged when its hash is
    /// the requested one, and fails otherwise. Either way the request is no
    /// longer outstanding.
    pub fn on_body(&mut self, body: Vec<u8>, body_hash: &str) -> (r: Result<Vec<u8>, FetchError>)
        requires
            old(self).pending_hash() is Some,
        ensures
            final(self).pending_hash() is None,
            r is Ok <==> Option::Some(body_hash@) == old(self).pending_hash(),
            r matches Ok(b) ==> b@ == body@,
            r matches Err(e) ==> e == FetchError::HashMismatch,
    {
        let matched = match &self.pending {
            None => false,
            Some(h) => str_equal(body_hash, h.as_str()),
        };
        self.pending = None;
        if matched {
            Ok(body)
        } else {
            Err(FetchError::HashMismatch)
        }
    }
}

} // verus!

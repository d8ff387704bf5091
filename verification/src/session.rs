//! Session orchestration: the handshake's completion gates every other
//! driver on a connection, the ping operation reports the handshake outcome
//! with its measured latency, and each telemetry fan-out target runs as an
//! independent session whose failure touches no sibling.

use vstd::prelude::*;

verus! {

use crate::chainsync::ChainSyncDriver;
use crate::chainsync::INTERSECT_CANDIDATES;
use crate::handshake::HandshakeDriver;
use crate::handshake::HandshakeState;
use crate::store::ChainPoint;
use crate::store::ChainStore;

/// Why a ping failed.
#[derive(Debug, Clone, Copy, PartialEq, Eq, Structural)]
pub enum PingFailure {
    /// The TCP connection could not be opened.
    ConnectError,
    /// The connection or the handshake reply timed out.
    Timeout,
    /// The remote refused the handshake (version or magic mismatch).
    Refused,
}

/// What a ping reports: latency on success, the specific reason otherwise.
#[derive(Debug, Clone, Copy, PartialEq, Eq, Structural)]
pub enum PingOutcome {
    Success { duration_ms: u64 },
    Failure { reason: PingFailure },
}

/// The ping verdict for a finished handshake: success with the measured
/// latency exactly when the handshake was accepted, a refusal otherwise.
/// Connection errors and timeouts never reach a finished handshake and are
/// reported by the caller as their own failure reasons.
pub fn ping_outcome(state: &HandshakeState, duration_ms: u64) -> (r: PingOutcome)
    requires
        !(state is Idle),
        !(state is ProposalSent),
    ensures
        r == (PingOutcome::Success { duration_ms }) <==> state matches HandshakeState::Accepted {
            ..
        },
        state is Refused ==> r == (PingOutcome::Failure { reason: PingFailure::Refused }),
{
    match state {
        HandshakeState::Accepted { .. } => PingOutcome::Success { duration_ms },
        _ => PingOutcome::Failure { reason: PingFailure::Refused },
    }
}

/// One connection's driver composition for following a chain: the handshake
/// driver and the chain-sync driver, with the strict ordering barrier
/// between them.
#[derive(Debug)]
pub struct SyncSession {
    /// Runs first; everything else waits on it.
    pub handshake: HandshakeDriver,
    /// Unblocked only once the handshake is accepted.
    pub chainsync: ChainSyncDriver,
}

impl SyncSession {
    /// A fresh session for one connection.
    pub fn new(network_magic: u32, offered_versions: Vec<u64>) -> (r: SyncSession)
        ensures
            r.handshake.state is Idle,
            r.handshake.network_magic == network_magic,
            r.handshake.offered_versions == offered_versions,
            r.chainsync.state is Idle,
    {
        SyncSession {
            handshake: HandshakeDriver::new(network_magic, offered_versions),
            chainsync: ChainSyncDriver::new(),
        }
    }

    /// Unblocks chain-sync: only a finished, accepted handshake lets the
    /// dependent driver declare its intersection candidates.
    pub fn begin_following(&mut self, store: &ChainStore) -> (points: Vec<ChainPoint>)
        requires
            old(self).handshake.state matches HandshakeState::Accepted { .. },
            old(self).chainsync.state is Idle,
        ensures
            final(self).handshake == old(self).handshake,
            final(self).chainsync.state is AwaitingIntersection,
            crate::store::points_match(
                points@,
                crate::store::recent_points_of(store.rows(), INTERSECT_CANDIDATES as int),
            ),
    {
        self.chainsync.start(store)
    }
}

} // verus!

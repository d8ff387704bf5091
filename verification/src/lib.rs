//! Client-side logic for a blockchain node's multiplexed mini-protocol
//! network client: segment framing, multiplexing, handshake negotiation,
//! chain-sync state tracking, chain storage with rollback handling, and
//! chain-tip telemetry formatting.

use vstd::prelude::*;

pub mod blockfetch;
pub mod chainsync;
pub mod framer;
pub mod handshake;
pub mod mux;
pub mod session;
pub mod store;
pub mod strutil;
pub mod tipreport;
pub mod validate;
pub mod wire;

verus! {

use crate::strutil::str_equal;

/// Which epoch's ledger snapshot a leader-schedule query works from.
#[derive(Debug, Clone, Copy, PartialEq, Eq, Structural)]
pub enum LedgerSet {
    Mark,
    Current,
    Go,
}

/// The ledger set selected by a textual name: "next" selects the future
/// epoch, "prev" the previous one, and anything else (including "current")
/// the current epoch.
pub open spec fn ledger_set_of(s: Seq<char>) -> LedgerSet {
    if s == "next"@ {
        LedgerSet::Mark
    } else if s == "prev"@ {
        LedgerSet::Go
    } else {
        LedgerSet::Current
    }
}

/// Selects a ledger set by name; an unrecognized name falls back to the
/// current epoch.
pub fn ledger_set_from_str(s: &str) -> (r: LedgerSet)
    ensures
        r == ledger_set_of(s@),
{
    if str_equal(s, "next") {
        LedgerSet::Mark
    } else if str_equal(s, "prev") {
        LedgerSet::Go
    } else {
        LedgerSet::Current
    }
}

/// One requested operation, as the command line hands it to the session
/// orchestrator. File locations are plain path strings; the caller resolves
/// them.
#[derive(Debug)]
pub enum Command {
    /// Measure reachability: handshake only, then report latency.
    Ping { host: String, port: u16, network_magic: u32 },
    /// Look a persisted block up by full or partial hash and report it.
    Validate { hash: String, db: String },
    /// Follow the remote chain and persist it, until a fatal error.
    Sync { db: String, host: String, port: u16, network_magic: u32 },
    /// Compute a leader schedule from the chain database and ledger files;
    /// runs as an independent batch job against the same database.
    Leaderlog {
        db: String,
        byron_genesis: String,
        shelley_genesis: String,
        ledger_state: String,
        ledger_set: LedgerSet,
        pool_id: String,
        pool_vrf_skey: String,
    },
    /// Report the chain tip to each configured telemetry target, one
    /// independent session per pool.
    Sendtip { config: String },
}

impl core::str::FromStr for LedgerSet {
    type Err = core::convert::Infallible;

    fn from_str(ledger_set: &str) -> Result<Self, Self::Err> {
        Ok(ledger_set_from_str(ledger_set))
    }
}

} // verus!

//! Handshake driver: negotiates the protocol version and checks the network
//! magic before any other mini-protocol may exchange data.
//!
//! State machine: `Idle -> ProposalSent -> { Accepted, Refused }`. A refusal
//! is fatal for the session and is never retried automatically.

use vstd::prelude::*;

verus! {

/// Handshake driver state. Once `Accepted`, the negotiated version is
/// immutable for the connection's life; `Refused` ends the session.
#[derive(Debug, Clone, Copy, PartialEq, Eq, Structural)]
pub enum HandshakeState {
    Idle,
    ProposalSent,
    Accepted { version: u64 },
    Refused,
}

/// The remote side's answer to a version proposal.
#[derive(Debug, Clone, Copy, PartialEq, Eq, Structural)]
pub enum HandshakeReply {
    /// The remote picked a version and echoed a network magic.
    Accept { version: u64, magic: u32 },
    /// Version or magic mismatch on the remote side.
    Refuse,
}

/// True exactly when the reply finalizes the handshake: the magic must
/// equal the configured one and the chosen version must have been offered.
pub open spec fn reply_accepted(expected_magic: u32, offered: Seq<u64>, reply: HandshakeReply) -> bool {
    reply matches HandshakeReply::Accept { version, magic } && magic == expected_magic
        && offered.contains(version)
}

/// A reply carrying a mismatched network magic always yields `Refused`,
/// never `Accepted`, whatever version it names.
pub proof fn lemma_magic_mismatch_refused(
    expected_magic: u32,
    offered: Seq<u64>,
    version: u64,
    magic: u32,
)
    requires
        magic != expected_magic,
    ensures
        !reply_accepted(expected_magic, offered, HandshakeReply::Accept { version, magic }),
{
}

/// True exactly when `v` is offered by both sides.
pub open spec fn common_version(offered: Seq<u64>, supported: Seq<u64>, v: u64) -> bool {
    offered.contains(v) && supported.contains(v)
}

fn contains_u64(vs: &Vec<u64>, x: u64) -> (r: bool)
    ensures
        r == vs@.contains(x),
{
    let n = vs.len();
    let mut i: usize = 0;
    while i < n
        invariant
            n == vs@.len(),
            i <= n,
            forall|j: int| 0 <= j < i ==> vs@[j] != x,
    decreases n - i,
    {
        if vs[i] == x {
            return true;
        }
        i = i + 1;
    }
    false
}

/// Picks the greatest version present in both the offered and the supported
/// sets, or nothing when the sets share no version.
pub fn negotiate(offered: &Vec<u64>, supported: &Vec<u64>) -> (r: Option<u64>)
    ensures
        r is Some <==> exists|v: u64| common_version(offered@, supported@, v),
        r matches Some(v) ==> common_version(offered@, supported@, v) && forall|w: u64|
            common_version(offered@, supported@, w) ==> w <= v,
{
    let n = offered.len();
    let mut best: Option<u64> = None;
    let mut i: usize = 0;
    while i < n
        invariant
            n == offered@.len(),
            i <= n,
            best matches Some(v) ==> common_version(offered@, supported@, v),
            best matches Some(v) ==> forall|j: int|
                0 <= j < i && supported@.contains(#[trigger] offered@[j]) ==> offered@[j] <= v,
            best is None ==> forall|j: int|
                0 <= j < i ==> !supported@.contains(#[trigger] offered@[j]),
        decreases n - i,
    {
        let v = offered[i];
        if contains_u64(supported, v) {
            match best {
                None => {
                    best = Some(v);
                },
                Some(b) => {
                    if v > b {
                        best = Some(v);
                    }
                },
            }
        }
        i = i + 1;
    }
    proof {
        if best is None {
            assert(forall|v: u64|
                common_version(offered@, supported@, v) ==> exists|j: int|
                    0 <= j < offered@.len() && offered@[j] == v);
        } else {
            assert forall|w: u64| common_version(offered@, supported@, w) implies w
                <= best->Some_0 by {
                let j = choose|j: int| 0 <= j < offered@.len() && offered@[j] == w;
                assert(supported@.contains(offered@[j]));
            }
        }
    }
    best
}

/// One handshake driver instance: the configured expectation plus the
/// current state.
#[derive(Debug)]
pub struct HandshakeDriver {
    /// Network magic the remote must echo.
    pub network_magic: u32,
    /// Version identifiers this client offers; fixed by its capability.
    pub offered_versions: Vec<u64>,
    /// Current state.
    pub state: HandshakeState,
}

impl HandshakeDriver {
    /// A fresh driver for one connection, in `Idle`.
    pub fn new(network_magic: u32, offered_versions: Vec<u64>) -> (r: HandshakeDriver)
        ensures
            r.network_magic == network_magic,
            r.offered_versions == offered_versions,
            r.state is Idle,
    {
        HandshakeDriver { network_magic, offered_versions, state: HandshakeState::Idle }
    }

    /// Marks the proposal (offered versions plus magic) as sent. The caller
    /// puts the proposal on the wire.
    pub fn propose(&mut self)
        requires
            old(self).state is Idle,
        ensures
            final(self).state is ProposalSent,
            final(self).network_magic == old(self).network_magic,
            final(self).offered_versions == old(self).offered_versions,
    {
        self.state = HandshakeState::ProposalSent;
    }

    /// Consumes the remote's reply. Accepts exactly when the reply echoes
    /// the configured magic and names an offered version; any other reply
    /// refuses the session.
    pub fn on_reply(&mut self, reply: HandshakeReply)
        requires
            old(self).state is ProposalSent,
        ensures
            final(self).network_magic == old(self).network_magic,
            final(self).offered_versions == old(self).offered_versions,
            final(self).state is Accepted <==> reply_accepted(
                old(self).network_magic,
                old(self).offered_versions@,
                reply,
            ),
            final(self).state matches HandshakeState::Accepted { version } ==> reply
                matches HandshakeReply::Accept { version: rv, magic: _ } && version == rv,
            !reply_accepted(old(self).network_magic, old(self).offered_versions@, reply)
                ==> final(self).state is Refused,
    {
        match reply {
            HandshakeReply::Refuse => {
                self.state = HandshakeState::Refused;
            },
            HandshakeReply::Accept { version, magic } => {
                if magic == self.network_magic && contains_u64(&self.offered_versions, version) {
                    self.state = HandshakeState::Accepted { version };
                } else {
                    self.state = HandshakeState::Refused;
                }
            },
        }
    }
}

} // verus!

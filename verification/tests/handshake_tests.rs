use cncli::handshake::{negotiate, HandshakeDriver, HandshakeReply, HandshakeState};
use cncli::session::{ping_outcome, PingFailure, PingOutcome};

#[test]
fn negotiate_picks_greatest_common_version() {
    let offered = vec![4u64, 5, 6, 7];
    let supported = vec![1u64, 5, 6];
    assert_eq!(negotiate(&offered, &supported), Some(6));
}

#[test]
fn negotiate_order_does_not_matter() {
    let offered = vec![7u64, 4, 6, 5];
    let supported = vec![6u64, 1, 5];
    assert_eq!(negotiate(&offered, &supported), Some(6));
}

#[test]
fn negotiate_with_no_common_version_fails() {
    let offered = vec![4u64, 5];
    let supported = vec![6u64, 7];
    assert_eq!(negotiate(&offered, &supported), None);
}

#[test]
fn negotiate_with_empty_offer_fails() {
    let offered: Vec<u64> = vec![];
    let supported = vec![6u64, 7];
    assert_eq!(negotiate(&offered, &supported), None);
}

#[test]
fn handshake_accepts_matching_magic_and_offered_version() {
    let mut hs = HandshakeDriver::new(764824073, vec![4, 5, 6]);
    assert_eq!(hs.state, HandshakeState::Idle);
    hs.propose();
    assert_eq!(hs.state, HandshakeState::ProposalSent);
    hs.on_reply(HandshakeReply::Accept { version: 6, magic: 764824073 });
    assert_eq!(hs.state, HandshakeState::Accepted { version: 6 });
}

#[test]
fn mismatched_magic_always_refuses() {
    let mut hs = HandshakeDriver::new(764824073, vec![4, 5, 6]);
    hs.propose();
    hs.on_reply(HandshakeReply::Accept { version: 6, magic: 42 });
    assert_eq!(hs.state, HandshakeState::Refused);
}

#[test]
fn unoffered_version_refuses() {
    let mut hs = HandshakeDriver::new(764824073, vec![4, 5, 6]);
    hs.propose();
    hs.on_reply(HandshakeReply::Accept { version: 9, magic: 764824073 });
    assert_eq!(hs.state, HandshakeState::Refused);
}

#[test]
fn remote_refusal_refuses() {
    let mut hs = HandshakeDriver::new(764824073, vec![4, 5, 6]);
    hs.propose();
    hs.on_reply(HandshakeReply::Refuse);
    assert_eq!(hs.state, HandshakeState::Refused);
}

#[test]
fn ping_reports_latency_on_accept_and_reason_on_refusal() {
    let accepted = HandshakeState::Accepted { version: 6 };
    assert_eq!(ping_outcome(&accepted, 37), PingOutcome::Success { duration_ms: 37 });
    let refused = HandshakeState::Refused;
    assert_eq!(
        ping_outcome(&refused, 37),
        PingOutcome::Failure { reason: PingFailure::Refused }
    );
}

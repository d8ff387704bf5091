use cncli::handshake::HandshakeReply;
use cncli::wire::{encode_proposal, encode_reply, parse_reply, WireError, MAX_OFFERED_VERSIONS};

#[test]
fn proposal_bytes_are_exact() {
    let versions = vec![4u64, 6];
    let bytes = encode_proposal(&versions, 764824073).unwrap();
    let mut expected = vec![0u8, 2];
    expected.extend([0, 0, 0, 0, 0, 0, 0, 4]);
    expected.extend([0, 0, 0, 0, 0, 0, 0, 6]);
    // 764824073 = 0x2D964A09
    expected.extend([0x2d, 0x96, 0x4a, 0x09]);
    assert_eq!(bytes, expected);
}

#[test]
fn proposal_refuses_oversized_offer() {
    let versions = vec![1u64; MAX_OFFERED_VERSIONS + 1];
    assert_eq!(encode_proposal(&versions, 1), Err(WireError::TooManyVersions));
}

#[test]
fn reply_round_trip() {
    let accept = HandshakeReply::Accept { version: 6, magic: 764824073 };
    let bytes = encode_reply(&accept);
    assert_eq!(bytes.len(), 13);
    assert_eq!(parse_reply(&bytes), Ok(accept));
    let refuse = HandshakeReply::Refuse;
    let bytes = encode_reply(&refuse);
    assert_eq!(bytes, vec![1u8]);
    assert_eq!(parse_reply(&bytes), Ok(refuse));
}

#[test]
fn garbled_reply_is_malformed() {
    assert_eq!(parse_reply(&vec![]), Err(WireError::MalformedReply));
    assert_eq!(parse_reply(&vec![9u8]), Err(WireError::MalformedReply));
    assert_eq!(parse_reply(&vec![0u8, 1, 2]), Err(WireError::MalformedReply));
}

use cncli::framer::{
    decode, encode, DecodeOutcome, FramerError, MAX_PROTOCOL_ID, MAX_SEGMENT_PAYLOAD,
};

#[test]
fn round_trip_small_payload() {
    let payload = vec![1u8, 2, 3, 4, 5];
    let bytes = encode(42, 2, false, &payload).unwrap();
    assert_eq!(bytes.len(), 13);
    match decode(&bytes) {
        DecodeOutcome::Decoded { header, payload: p, consumed } => {
            assert_eq!(header.timestamp, 42);
            assert_eq!(header.protocol_id, 2);
            assert!(!header.from_responder);
            assert_eq!(header.payload_len, 5);
            assert_eq!(p, payload);
            assert_eq!(consumed, 13);
        }
        _ => panic!("expected a decoded segment"),
    }
}

#[test]
fn round_trip_empty_payload() {
    let payload: Vec<u8> = vec![];
    let bytes = encode(0, 0, false, &payload).unwrap();
    assert_eq!(bytes.len(), 8);
    match decode(&bytes) {
        DecodeOutcome::Decoded { header, payload: p, consumed } => {
            assert_eq!(header.payload_len, 0);
            assert!(p.is_empty());
            assert_eq!(consumed, 8);
        }
        _ => panic!("expected a decoded segment"),
    }
}

#[test]
fn round_trip_largest_payload() {
    let payload = vec![0xabu8; MAX_SEGMENT_PAYLOAD as usize];
    let bytes = encode(u32::MAX, MAX_PROTOCOL_ID, true, &payload).unwrap();
    match decode(&bytes) {
        DecodeOutcome::Decoded { header, payload: p, consumed } => {
            assert_eq!(header.timestamp, u32::MAX);
            assert_eq!(header.protocol_id, MAX_PROTOCOL_ID);
            assert!(header.from_responder);
            assert_eq!(p, payload);
            assert_eq!(consumed, 8 + MAX_SEGMENT_PAYLOAD as usize);
        }
        _ => panic!("expected a decoded segment"),
    }
}

#[test]
fn responder_direction_bit_survives() {
    let payload = vec![9u8];
    let bytes = encode(7, 5, true, &payload).unwrap();
    match decode(&bytes) {
        DecodeOutcome::Decoded { header, .. } => {
            assert_eq!(header.protocol_id, 5);
            assert!(header.from_responder);
        }
        _ => panic!("expected a decoded segment"),
    }
}

#[test]
fn truncated_prefix_needs_more_never_malformed() {
    let payload = vec![10u8, 20, 30];
    let bytes = encode(1, 3, false, &payload).unwrap();
    for cut in 0..bytes.len() {
        let prefix: Vec<u8> = bytes[..cut].to_vec();
        assert!(matches!(decode(&prefix), DecodeOutcome::NeedMoreBytes));
    }
}

#[test]
fn trailing_bytes_stay_unconsumed() {
    let payload = vec![1u8, 2];
    let mut bytes = encode(9, 4, false, &payload).unwrap();
    let seg_len = bytes.len();
    bytes.push(0xff);
    bytes.push(0xee);
    match decode(&bytes) {
        DecodeOutcome::Decoded { payload: p, consumed, .. } => {
            assert_eq!(p, payload);
            assert_eq!(consumed, seg_len);
        }
        _ => panic!("expected a decoded segment"),
    }
}

#[test]
fn oversized_declared_length_is_malformed() {
    // 8-byte header whose declared payload length exceeds the maximum.
    let bytes = vec![0u8, 0, 0, 0, 0, 2, 0x30, 0x01];
    assert!(matches!(decode(&bytes), DecodeOutcome::Malformed));
}

#[test]
fn encode_refuses_oversized_payload() {
    let payload = vec![0u8; MAX_SEGMENT_PAYLOAD as usize + 1];
    assert_eq!(encode(0, 1, false, &payload), Err(FramerError::PayloadTooLong));
}

#[test]
fn encode_refuses_oversized_protocol_id() {
    let payload = vec![0u8];
    assert_eq!(
        encode(0, MAX_PROTOCOL_ID + 1, false, &payload),
        Err(FramerError::ProtocolIdTooLarge)
    );
}

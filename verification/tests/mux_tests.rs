use cncli::framer::{decode, encode, DecodeOutcome, MAX_SEGMENT_PAYLOAD};
use cncli::mux::{Demux, Mux, MuxError};

fn seg(ts: u32, pid: u16, resp: bool, payload: &[u8]) -> Vec<u8> {
    encode(ts, pid, resp, &payload.to_vec()).unwrap()
}

#[test]
fn demux_preserves_per_channel_order() {
    let mut d = Demux::new();
    d.register(2, false).unwrap();
    d.register(3, false).unwrap();
    let mut stream = Vec::new();
    stream.extend(seg(0, 2, false, b"a1"));
    stream.extend(seg(1, 3, false, b"b1"));
    stream.extend(seg(2, 2, false, b"a2"));
    stream.extend(seg(3, 3, false, b"b2"));
    stream.extend(seg(4, 2, false, b"a3"));
    d.feed(&stream).unwrap();
    assert_eq!(d.recv(2, false).unwrap(), b"a1".to_vec());
    assert_eq!(d.recv(2, false).unwrap(), b"a2".to_vec());
    assert_eq!(d.recv(3, false).unwrap(), b"b1".to_vec());
    assert_eq!(d.recv(3, false).unwrap(), b"b2".to_vec());
    assert_eq!(d.recv(2, false).unwrap(), b"a3".to_vec());
    assert!(d.recv(2, false).is_none());
    assert!(d.recv(3, false).is_none());
}

#[test]
fn demux_is_resumable_across_partial_reads() {
    let mut d = Demux::new();
    d.register(5, true).unwrap();
    let mut stream = Vec::new();
    stream.extend(seg(0, 5, true, b"hello"));
    stream.extend(seg(1, 5, true, b"world"));
    // Feed the stream in awkward pieces: mid-header and mid-payload.
    for piece in stream.chunks(3) {
        d.feed(&piece.to_vec()).unwrap();
    }
    assert_eq!(d.recv(5, true).unwrap(), b"hello".to_vec());
    assert_eq!(d.recv(5, true).unwrap(), b"world".to_vec());
    assert!(d.recv(5, true).is_none());
}

#[test]
fn demux_refuses_unknown_channel() {
    let mut d = Demux::new();
    d.register(2, false).unwrap();
    let stream = seg(0, 9, false, b"stray");
    assert_eq!(d.feed(&stream), Err(MuxError::UnknownChannel));
}

#[test]
fn demux_refuses_malformed_segment() {
    let mut d = Demux::new();
    d.register(2, false).unwrap();
    // Declared payload length above the maximum: fatal framing error.
    let stream = vec![0u8, 0, 0, 0, 0, 2, 0xff, 0xff];
    assert_eq!(d.feed(&stream), Err(MuxError::MalformedSegment));
}

#[test]
fn register_refuses_duplicate_channel() {
    let mut d = Demux::new();
    d.register(2, false).unwrap();
    assert_eq!(d.register(2, false), Err(MuxError::ChannelExists));
    // The other direction of the same protocol is its own channel.
    d.register(2, true).unwrap();
}

#[test]
fn mux_fragments_large_chunk_in_order() {
    let mut m = Mux::new();
    m.register(2, false).unwrap();
    let chunk: Vec<u8> = (0..20000u32).map(|i| (i % 251) as u8).collect();
    m.enqueue(2, false, chunk.clone()).unwrap();
    let mut reassembled = Vec::new();
    let mut seg_count = 0;
    while let Some(wire) = m.next_segment(seg_count) {
        match decode(&wire) {
            DecodeOutcome::Decoded { header, payload, consumed } => {
                assert_eq!(header.protocol_id, 2);
                assert!(payload.len() <= MAX_SEGMENT_PAYLOAD as usize);
                assert_eq!(consumed, wire.len());
                reassembled.extend(payload);
            }
            _ => panic!("expected a decoded segment"),
        }
        seg_count += 1;
    }
    assert_eq!(seg_count, 2);
    assert_eq!(reassembled, chunk);
}

#[test]
fn mux_round_robin_serves_both_channels() {
    let mut m = Mux::new();
    m.register(2, false).unwrap();
    m.register(3, false).unwrap();
    m.enqueue(2, false, b"a1".to_vec()).unwrap();
    m.enqueue(2, false, b"a2".to_vec()).unwrap();
    m.enqueue(3, false, b"b1".to_vec()).unwrap();
    let mut served = Vec::new();
    while let Some(wire) = m.next_segment(0) {
        match decode(&wire) {
            DecodeOutcome::Decoded { header, payload, .. } => {
                served.push((header.protocol_id, payload));
            }
            _ => panic!("expected a decoded segment"),
        }
    }
    // Neither channel is starved: the single pending chunk of channel 3 is
    // served between channel 2's two chunks.
    assert_eq!(
        served,
        vec![
            (2u16, b"a1".to_vec()),
            (3u16, b"b1".to_vec()),
            (2u16, b"a2".to_vec()),
        ]
    );
}

#[test]
fn mux_enqueue_refuses_unknown_channel() {
    let mut m = Mux::new();
    assert_eq!(m.enqueue(1, false, b"x".to_vec()), Err(MuxError::UnknownChannel));
}

#[test]
fn mux_to_demux_end_to_end() {
    let mut m = Mux::new();
    m.register(2, false).unwrap();
    m.register(4, true).unwrap();
    m.enqueue(2, false, b"ping".to_vec()).unwrap();
    m.enqueue(4, true, b"pong".to_vec()).unwrap();
    let mut d = Demux::new();
    d.register(2, false).unwrap();
    d.register(4, true).unwrap();
    let mut wire = Vec::new();
    while let Some(s) = m.next_segment(7) {
        wire.extend(s);
    }
    d.feed(&wire).unwrap();
    assert_eq!(d.recv(2, false).unwrap(), b"ping".to_vec());
    assert_eq!(d.recv(4, true).unwrap(), b"pong".to_vec());
}

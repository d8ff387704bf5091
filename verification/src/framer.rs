//! Segment framer: encodes and decodes the fixed-header wire segments that
//! carry mini-protocol payloads over one byte stream.
//!
//! A segment is an 8-byte big-endian header followed by the payload:
//! bytes 0..4 hold a 32-bit wrapping timestamp, bytes 4..6 hold the
//! direction bit (most significant) and the 15-bit protocol identifier,
//! and bytes 6..8 hold the payload length.

use vstd::prelude::*;

verus! {

use vstd::slice::slice_subrange;
use vstd::slice::slice_to_vec;

/// Largest payload one segment may carry; a header declaring more is malformed.
pub const MAX_SEGMENT_PAYLOAD: u16 = 12288;

/// Largest protocol identifier (15 bits; the 16th bit carries the direction).
pub const MAX_PROTOCOL_ID: u16 = 0x7fff;

/// Number of bytes in a segment header.
pub const HEADER_LEN: usize = 8;

pub open spec fn u16_hi(x: u16) -> u8 {
    ((x >> 8) & 0xff) as u8
}

pub open spec fn u16_lo(x: u16) -> u8 {
    (x & 0xff) as u8
}

pub open spec fn be16_val(hi: u8, lo: u8) -> u16 {
    (((hi as u16) << 8) | (lo as u16)) as u16
}

pub open spec fn u32_b0(x: u32) -> u8 {
    ((x >> 24) & 0xff) as u8
}

pub open spec fn u32_b1(x: u32) -> u8 {
    ((x >> 16) & 0xff) as u8
}

pub open spec fn u32_b2(x: u32) -> u8 {
    ((x >> 8) & 0xff) as u8
}

pub open spec fn u32_b3(x: u32) -> u8 {
    (x & 0xff) as u8
}

pub open spec fn be32_val(b0: u8, b1: u8, b2: u8, b3: u8) -> u32 {
    (((b0 as u32) << 24) | ((b1 as u32) << 16) | ((b2 as u32) << 8) | (b3 as u32)) as u32
}

pub proof fn lemma_be16_round(x: u16)
    ensures
        be16_val(u16_hi(x), u16_lo(x)) == x,
{
    assert(((((x >> 8) & 0xff) as u8 as u16) << 8 | ((x & 0xff) as u8 as u16)) == x)
        by (bit_vector);
}

pub proof fn lemma_be32_round(x: u32)
    ensures
        be32_val(u32_b0(x), u32_b1(x), u32_b2(x), u32_b3(x)) == x,
{
    assert(((((x >> 24) & 0xff) as u8 as u32) << 24 | (((x >> 16) & 0xff) as u8 as u32) << 16
        | (((x >> 8) & 0xff) as u8 as u32) << 8 | ((x & 0xff) as u8 as u32)) == x)
        by (bit_vector);
}

/// The 16-bit field mixing the direction bit into the protocol identifier.
pub open spec fn mix_of(protocol_id: u16, from_responder: bool) -> u16 {
    (protocol_id | if from_responder {
        0x8000u16
    } else {
        0u16
    }) as u16
}

pub proof fn lemma_mix_round(protocol_id: u16, from_responder: bool)
    requires
        protocol_id <= MAX_PROTOCOL_ID,
    ensures
        (mix_of(protocol_id, from_responder) & 0x7fff) == protocol_id,
        ((mix_of(protocol_id, from_responder) >> 15) == 1) == from_responder,
{
    let pid = protocol_id;
    if from_responder {
        assert(pid <= 0x7fff ==> ((pid | 0x8000u16) & 0x7fff) == pid && ((pid | 0x8000u16) >> 15)
            == 1) by (bit_vector);
    } else {
        assert(pid <= 0x7fff ==> ((pid | 0u16) & 0x7fff) == pid && ((pid | 0u16) >> 15) == 0)
            by (bit_vector);
    }
}

/// The parsed fields of one segment header.
#[derive(Debug, Clone, Copy, PartialEq, Eq, Structural)]
pub struct SegmentHeader {
    /// Producer-local monotonic timestamp, wrapping at 32 bits.
    pub timestamp: u32,
    /// Mini-protocol identifier, at most [`MAX_PROTOCOL_ID`].
    pub protocol_id: u16,
    /// Direction bit: true when the responder side produced the segment.
    pub from_responder: bool,
    /// Number of payload bytes that follow the header.
    pub payload_len: u16,
}

/// Why `encode` refused a segment.
#[derive(Debug, Clone, Copy, PartialEq, Eq, Structural)]
pub enum FramerError {
    /// The payload exceeds [`MAX_SEGMENT_PAYLOAD`].
    PayloadTooLong,
    /// The protocol identifier exceeds [`MAX_PROTOCOL_ID`].
    ProtocolIdTooLarge,
}

/// The eight header bytes for the given fields.
pub open spec fn header_bytes(
    timestamp: u32,
    protocol_id: u16,
    from_responder: bool,
    payload_len: u16,
) -> Seq<u8> {
    let mix = mix_of(protocol_id, from_responder);
    seq![
        u32_b0(timestamp),
        u32_b1(timestamp),
        u32_b2(timestamp),
        u32_b3(timestamp),
        u16_hi(mix),
        u16_lo(mix),
        u16_hi(payload_len),
        u16_lo(payload_len),
    ]
}

/// The full wire bytes of one segment: header followed by payload.
pub open spec fn segment_bytes(
    timestamp: u32,
    protocol_id: u16,
    from_responder: bool,
    payload: Seq<u8>,
) -> Seq<u8> {
    header_bytes(timestamp, protocol_id, from_responder, payload.len() as u16) + payload
}

/// What decoding a byte buffer yields, at the specification level.
pub enum SpecDecodeResult {
    /// A whole segment lies at the front of the buffer; `consumed` bytes
    /// belong to it and the remainder is unconsumed.
    Decoded {
        timestamp: u32,
        protocol_id: u16,
        from_responder: bool,
        payload: Seq<u8>,
        consumed: int,
    },
    /// The buffer holds only a proper prefix of a segment.
    NeedMoreBytes,
    /// The header declares an impossible payload length; fatal for the
    /// connection.
    Malformed,
}

/// Decoding, specified over the raw bytes. Resumable: with fewer bytes than
/// one whole segment it asks for more, and it never consumes past the first
/// segment.
pub open spec fn spec_decode(b: Seq<u8>) -> SpecDecodeResult {
    if b.len() < 8 {
        SpecDecodeResult::NeedMoreBytes
    } else {
        let declared = be16_val(b[6], b[7]);
        if declared > MAX_SEGMENT_PAYLOAD {
            SpecDecodeResult::Malformed
        } else if b.len() < 8 + declared {
            SpecDecodeResult::NeedMoreBytes
        } else {
            let mix = be16_val(b[4], b[5]);
            SpecDecodeResult::Decoded {
                timestamp: be32_val(b[0], b[1], b[2], b[3]),
                protocol_id: (mix & 0x7fff) as u16,
                from_responder: (mix >> 15) == 1,
                payload: b.subrange(8, 8 + declared as int),
                consumed: 8 + declared as int,
            }
        }
    }
}

/// What the executable decoder returned.
#[derive(Debug)]
pub enum DecodeOutcome {
    /// One whole segment was at the front of the buffer; the first
    /// `consumed` bytes belong to it and the caller keeps the rest.
    Decoded { header: SegmentHeader, payload: Vec<u8>, consumed: usize },
    /// The buffer holds only a proper prefix of a segment; feed more bytes.
    NeedMoreBytes,
    /// The header is malformed; fatal framing error for the connection.
    Malformed,
}

/// The executable outcome agrees with the specification-level one.
pub open spec fn decode_agrees(b: Seq<u8>, r: DecodeOutcome) -> bool {
    match spec_decode(b) {
        SpecDecodeResult::Decoded { timestamp, protocol_id, from_responder, payload, consumed } => {
            &&& r matches DecodeOutcome::Decoded { header, payload: p, consumed: c }
            &&& header.timestamp == timestamp
            &&& header.protocol_id == protocol_id
            &&& header.from_responder == from_responder
            &&& header.payload_len == payload.len()
            &&& p@ == payload
            &&& c == consumed
        },
        SpecDecodeResult::NeedMoreBytes => r is NeedMoreBytes,
        SpecDecodeResult::Malformed => r is Malformed,
    }
}

/// Encodes one segment, refusing a payload longer than
/// [`MAX_SEGMENT_PAYLOAD`] or a protocol identifier above
/// [`MAX_PROTOCOL_ID`]. Splitting longer chunks into several segments is
/// the multiplexer's job, not the framer's.
pub fn encode(timestamp: u32, protocol_id: u16, from_responder: bool, payload: &Vec<u8>) -> (r:
    Result<Vec<u8>, FramerError>)
    ensures
        r is Ok <==> (payload@.len() <= MAX_SEGMENT_PAYLOAD && protocol_id <= MAX_PROTOCOL_ID),
        r matches Ok(b) ==> b@ == segment_bytes(timestamp, protocol_id, from_responder, payload@),
        r matches Err(e) ==> (e is PayloadTooLong <==> payload@.len() > MAX_SEGMENT_PAYLOAD),
{
    if payload.len() > MAX_SEGMENT_PAYLOAD as usize {
        return Err(FramerError::PayloadTooLong);
    }
    if protocol_id > MAX_PROTOCOL_ID {
        return Err(FramerError::ProtocolIdTooLarge);
    }
    let ts = timestamp;
    let mix: u16 = protocol_id | if from_responder {
        0x8000u16
    } else {
        0u16
    };
    let len: u16 = payload.len() as u16;
    let mut out: Vec<u8> = Vec::new();
    proof {
        assert(((ts >> 24) & 0xff) < 256 && ((ts >> 16) & 0xff) < 256 && ((ts >> 8) & 0xff) < 256
            && (ts & 0xff) < 256) by (bit_vector);
        assert(((mix >> 8) & 0xff) < 256 && (mix & 0xff) < 256) by (bit_vector);
        assert(((len >> 8) & 0xff) < 256 && (len & 0xff) < 256) by (bit_vector);
    }
    out.push(((ts >> 24) & 0xff) as u8);
    out.push(((ts >> 16) & 0xff) as u8);
    out.push(((ts >> 8) & 0xff) as u8);
    out.push((ts & 0xff) as u8);
    out.push(((mix >> 8) & 0xff) as u8);
    out.push((mix & 0xff) as u8);
    out.push(((len >> 8) & 0xff) as u8);
    out.push((len & 0xff) as u8);
    let mut i: usize = 0;
    while i < payload.len()
        invariant
            i <= payload@.len(),
            out@ == header_bytes(timestamp, protocol_id, from_responder, len) + payload@.subrange(
                0,
                i as int,
            ),
        decreases payload@.len() - i,
    {
        out.push(payload[i]);
        i = i + 1;
        proof {
            assert(payload@.subrange(0, i as int) =~= payload@.subrange(0, i - 1).push(
                payload@[i - 1],
            ));
        }
    }
    proof {
        assert(payload@.subrange(0, payload@.len() as int) =~= payload@);
    }
    Ok(out)
}

/// Decodes at most one segment from the front of the accumulating buffer,
/// reporting how many bytes it consumed so the caller can retain the rest.
pub fn decode(buf: &Vec<u8>) -> (r: DecodeOutcome)
    ensures
        decode_agrees(buf@, r),
{
    if buf.len() < HEADER_LEN {
        return DecodeOutcome::NeedMoreBytes;
    }
    let declared: u16 = ((buf[6] as u16) << 8) | (buf[7] as u16);
    proof {
        let hi = buf@[6];
        let lo = buf@[7];
        assert((((hi as u16) << 8) | (lo as u16)) == be16_val(hi, lo));
    }
    if declared > MAX_SEGMENT_PAYLOAD {
        return DecodeOutcome::Malformed;
    }
    let total: usize = HEADER_LEN + declared as usize;
    if buf.len() < total {
        return DecodeOutcome::NeedMoreBytes;
    }
    let timestamp: u32 = ((buf[0] as u32) << 24) | ((buf[1] as u32) << 16) | ((buf[2] as u32) << 8)
        | (buf[3] as u32);
    let mix: u16 = ((buf[4] as u16) << 8) | (buf[5] as u16);
    let protocol_id: u16 = mix & 0x7fff;
    let from_responder: bool = (mix >> 15) == 1;
    let payload: Vec<u8> = slice_to_vec(slice_subrange(buf.as_slice(), HEADER_LEN, total));
    proof {
        assert((mix & 0x7fff) <= 0x7fff) by (bit_vector);
    }
    DecodeOutcome::Decoded {
        header: SegmentHeader { timestamp, protocol_id, from_responder, payload_len: declared },
        payload,
        consumed: total,
    }
}

/// Decoding a well-formed segment, with any trailing bytes behind it, yields
/// back exactly the fields and payload that were encoded, and consumes
/// exactly the segment's own bytes.
pub proof fn lemma_decode_of_segment(
    timestamp: u32,
    protocol_id: u16,
    from_responder: bool,
    payload: Seq<u8>,
    rest: Seq<u8>,
)
    requires
        protocol_id <= MAX_PROTOCOL_ID,
        payload.len() <= MAX_SEGMENT_PAYLOAD,
    ensures
        spec_decode(segment_bytes(timestamp, protocol_id, from_responder, payload) + rest)
            == (SpecDecodeResult::Decoded {
            timestamp,
            protocol_id,
            from_responder,
            payload,
            consumed: 8 + payload.len() as int,
        }),
{
    let len = payload.len() as u16;
    let b = segment_bytes(timestamp, protocol_id, from_responder, payload) + rest;
    let mix = mix_of(protocol_id, from_responder);
    assert(b[0] == u32_b0(timestamp) && b[1] == u32_b1(timestamp) && b[2] == u32_b2(timestamp)
        && b[3] == u32_b3(timestamp) && b[4] == u16_hi(mix) && b[5] == u16_lo(mix) && b[6]
        == u16_hi(len) && b[7] == u16_lo(len));
    lemma_be16_round(len);
    lemma_be32_round(timestamp);
    lemma_be16_round(mix);
    lemma_mix_round(protocol_id, from_responder);
    assert(b.subrange(8, 8 + len as int) =~= payload);
}

/// Round trip: decoding an encoded segment returns the payload unchanged.
pub proof fn lemma_framer_round_trip(
    timestamp: u32,
    protocol_id: u16,
    from_responder: bool,
    payload: Seq<u8>,
)
    requires
        protocol_id <= MAX_PROTOCOL_ID,
        payload.len() <= MAX_SEGMENT_PAYLOAD,
    ensures
        spec_decode(segment_bytes(timestamp, protocol_id, from_responder, payload))
            == (SpecDecodeResult::Decoded {
            timestamp,
            protocol_id,
            from_responder,
            payload,
            consumed: 8 + payload.len() as int,
        }),
{
    assert(segment_bytes(timestamp, protocol_id, from_responder, payload) + Seq::<u8>::empty()
        =~= segment_bytes(timestamp, protocol_id, from_responder, payload));
    lemma_decode_of_segment(timestamp, protocol_id, from_responder, payload, Seq::empty());
}

/// Any proper prefix of a well-formed segment decodes to `NeedMoreBytes`,
/// never to `Malformed`.
pub proof fn lemma_decode_of_prefix(
    timestamp: u32,
    protocol_id: u16,
    from_responder: bool,
    payload: Seq<u8>,
    cut: int,
)
    requires
        protocol_id <= MAX_PROTOCOL_ID,
        payload.len() <= MAX_SEGMENT_PAYLOAD,
        0 <= cut < segment_bytes(timestamp, protocol_id, from_responder, payload).len(),
    ensures
        spec_decode(
            segment_bytes(timestamp, protocol_id, from_responder, payload).subrange(0, cut),
        ) is NeedMoreBytes,
{
    let whole = segment_bytes(timestamp, protocol_id, from_responder, payload);
    let b = whole.subrange(0, cut);
    if cut >= 8 {
        let len = payload.len() as u16;
        assert(b[6] == u16_hi(len) && b[7] == u16_lo(len));
        lemma_be16_round(len);
        assert(b.len() < 8 + len);
    }
}

} // verus!

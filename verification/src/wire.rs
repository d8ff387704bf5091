//! Wire grammar of the handshake mini-protocol messages carried inside
//! segment payloads: the initiator's proposal (offered versions plus
//! network magic) and the responder's reply, both in fixed big-endian
//! fields.

use vstd::prelude::*;

verus! {

use crate::framer::be16_val;
use crate::framer::be32_val;
use crate::framer::u16_hi;
use crate::framer::u16_lo;
use crate::framer::u32_b0;
use crate::framer::u32_b1;
use crate::framer::u32_b2;
use crate::framer::u32_b3;
use crate::handshake::HandshakeReply;

/// Most versions one proposal may offer, so that it fits one segment.
pub const MAX_OFFERED_VERSIONS: usize = 64;

/// Why a handshake message could not be built or read.
#[derive(Debug, Clone, Copy, PartialEq, Eq, Structural)]
pub enum WireError {
    /// The proposal offers more versions than one message carries.
    TooManyVersions,
    /// The reply bytes fit no known message shape.
    MalformedReply,
}

pub open spec fn u64_hi32(x: u64) -> u32 {
    ((x >> 32) & 0xffffffff) as u32
}

pub open spec fn u64_lo32(x: u64) -> u32 {
    (x & 0xffffffff) as u32
}

pub open spec fn be64_val(hi: u32, lo: u32) -> u64 {
    (((hi as u64) << 32) | (lo as u64)) as u64
}

pub proof fn lemma_be64_round(x: u64)
    ensures
        be64_val(u64_hi32(x), u64_lo32(x)) == x,
{
    assert(((((x >> 32) & 0xffffffff) as u32 as u64) << 32 | ((x & 0xffffffff) as u32 as u64))
        == x) by (bit_vector);
}

/// The four big-endian bytes of a 32-bit value.
pub open spec fn be32_bytes(x: u32) -> Seq<u8> {
    seq![u32_b0(x), u32_b1(x), u32_b2(x), u32_b3(x)]
}

/// The eight big-endian bytes of a 64-bit value.
pub open spec fn be64_bytes(x: u64) -> Seq<u8> {
    be32_bytes(u64_hi32(x)) + be32_bytes(u64_lo32(x))
}

/// The version list's bytes: eight per version, in order.
pub open spec fn versions_bytes(vs: Seq<u64>) -> Seq<u8>
    decreases vs.len(),
{
    if vs.len() == 0 {
        Seq::empty()
    } else {
        versions_bytes(vs.drop_last()) + be64_bytes(vs.last())
    }
}

/// The proposal message: a 16-bit version count, the versions, and the
/// 32-bit network magic.
pub open spec fn proposal_bytes(versions: Seq<u64>, magic: u32) -> Seq<u8> {
    seq![u16_hi(versions.len() as u16), u16_lo(versions.len() as u16)] + versions_bytes(versions)
        + be32_bytes(magic)
}

/// The reply message: a tag byte, then for an acceptance the chosen
/// version and the echoed magic.
pub open spec fn reply_bytes(r: HandshakeReply) -> Seq<u8> {
    match r {
        HandshakeReply::Accept { version, magic } => seq![0u8] + be64_bytes(version) + be32_bytes(
            magic,
        ),
        HandshakeReply::Refuse => seq![1u8],
    }
}

/// What reply, if any, a payload spells.
pub open spec fn parse_reply_spec(b: Seq<u8>) -> Option<HandshakeReply> {
    if b.len() == 13 && b[0] == 0u8 {
        Option::Some(
            HandshakeReply::Accept {
                version: be64_val(be32_val(b[1], b[2], b[3], b[4]), be32_val(b[5], b[6], b[7], b[8])),
                magic: be32_val(b[9], b[10], b[11], b[12]),
            },
        )
    } else if b.len() == 1 && b[0] == 1u8 {
        Option::Some(HandshakeReply::Refuse)
    } else {
        Option::None
    }
}

/// Reading back an encoded reply yields the reply that was encoded.
pub proof fn lemma_reply_round_trip(r: HandshakeReply)
    ensures
        parse_reply_spec(reply_bytes(r)) == Option::Some(r),
{
    match r {
        HandshakeReply::Refuse => {},
        HandshakeReply::Accept { version, magic } => {
            let b = reply_bytes(r);
            assert(b[1] == u32_b0(u64_hi32(version)) && b[2] == u32_b1(u64_hi32(version)) && b[3]
                == u32_b2(u64_hi32(version)) && b[4] == u32_b3(u64_hi32(version)) && b[5]
                == u32_b0(u64_lo32(version)) && b[6] == u32_b1(u64_lo32(version)) && b[7]
                == u32_b2(u64_lo32(version)) && b[8] == u32_b3(u64_lo32(version)) && b[9]
                == u32_b0(magic) && b[10] == u32_b1(magic) && b[11] == u32_b2(magic) && b[12]
                == u32_b3(magic));
            crate::framer::lemma_be32_round(u64_hi32(version));
            crate::framer::lemma_be32_round(u64_lo32(version));
            crate::framer::lemma_be32_round(magic);
            lemma_be64_round(version);
        },
    }
}

fn push_u32_be(out: &mut Vec<u8>, x: u32)
    ensures
        final(out)@ == old(out)@ + be32_bytes(x),
{
    proof {
        assert(((x >> 24) & 0xff) < 256 && ((x >> 16) & 0xff) < 256 && ((x >> 8) & 0xff) < 256 && (
        x & 0xff) < 256) by (bit_vector);
    }
    out.push(((x >> 24) & 0xff) as u8);
    out.push(((x >> 16) & 0xff) as u8);
    out.push(((x >> 8) & 0xff) as u8);
    out.push((x & 0xff) as u8);
    proof {
        assert(final(out)@ =~= old(out)@ + be32_bytes(x));
    }
}

fn push_u64_be(out: &mut Vec<u8>, x: u64)
    ensures
        final(out)@ == old(out)@ + be64_bytes(x),
{
    proof {
        assert(((x >> 32) & 0xffffffff) <= 0xffffffffu64 && (x & 0xffffffff) <= 0xffffffffu64)
            by (bit_vector);
    }
    let hi: u32 = ((x >> 32) & 0xffffffff) as u32;
    let lo: u32 = (x & 0xffffffff) as u32;
    push_u32_be(out, hi);
    push_u32_be(out, lo);
    proof {
        assert(final(out)@ =~= old(out)@ + be64_bytes(x));
    }
}

/// Builds the proposal payload for the offered versions and the configured
/// magic; refuses an offer too large for one message.
pub fn encode_proposal(versions: &Vec<u64>, magic: u32) -> (r: Result<Vec<u8>, WireError>)
    ensures
        r is Ok <==> versions@.len() <= MAX_OFFERED_VERSIONS,
        r matches Ok(b) ==> b@ == proposal_bytes(versions@, magic),
        r matches Err(e) ==> e == WireError::TooManyVersions,
{
    if versions.len() > MAX_OFFERED_VERSIONS {
        return Err(WireError::TooManyVersions);
    }
    let count: u16 = versions.len() as u16;
    let mut out: Vec<u8> = Vec::new();
    proof {
        assert(((count >> 8) & 0xff) < 256 && (count & 0xff) < 256) by (bit_vector);
    }
    out.push(((count >> 8) & 0xff) as u8);
    out.push((count & 0xff) as u8);
    let n = versions.len();
    let mut i: usize = 0;
    while i < n
        invariant
            n == versions@.len(),
            i <= n,
            out@ == seq![u16_hi(n as u16), u16_lo(n as u16)] + versions_bytes(
                versions@.subrange(0, i as int),
            ),
        decreases n - i,
    {
        push_u64_be(&mut out, versions[i]);
        i = i + 1;
        proof {
            assert(versions@.subrange(0, i as int).drop_last() =~= versions@.subrange(0, i - 1));
            assert(versions@.subrange(0, i as int).last() == versions@[i - 1]);
            assert(out@ =~= seq![u16_hi(n as u16), u16_lo(n as u16)] + versions_bytes(
                versions@.subrange(0, i as int),
            ));
        }
    }
    proof {
        assert(versions@.subrange(0, n as int) =~= versions@);
    }
    push_u32_be(&mut out, magic);
    proof {
        assert(out@ =~= proposal_bytes(versions@, magic));
    }
    Ok(out)
}

/// Builds the reply payload a responder would send.
pub fn encode_reply(reply: &HandshakeReply) -> (r: Vec<u8>)
    ensures
        r@ == reply_bytes(*reply),
{
    match reply {
        HandshakeReply::Refuse => {
            let mut out: Vec<u8> = Vec::new();
            out.push(1u8);
            proof {
                assert(out@ =~= reply_bytes(*reply));
            }
            out
        },
        HandshakeReply::Accept { version, magic } => {
            let mut out: Vec<u8> = Vec::new();
            out.push(0u8);
            push_u64_be(&mut out, *version);
            push_u32_be(&mut out, *magic);
            proof {
                assert(out@ =~= reply_bytes(*reply));
            }
            out
        },
    }
}

/// Reads the responder's reply; any payload that spells no reply is a
/// malformed message, fatal for the handshake.
pub fn parse_reply(b: &Vec<u8>) -> (r: Result<HandshakeReply, WireError>)
    ensures
        r matches Ok(rep) ==> parse_reply_spec(b@) == Option::Some(rep),
        r is Err <==> parse_reply_spec(b@) is None,
        r matches Err(e) ==> e == WireError::MalformedReply,
{
    if b.len() == 13 && b[0] == 0u8 {
        let vhi: u32 = ((b[1] as u32) << 24) | ((b[2] as u32) << 16) | ((b[3] as u32) << 8) | (
        b[4] as u32);
        let vlo: u32 = ((b[5] as u32) << 24) | ((b[6] as u32) << 16) | ((b[7] as u32) << 8) | (
        b[8] as u32);
        let version: u64 = ((vhi as u64) << 32) | (vlo as u64);
        let magic: u32 = ((b[9] as u32) << 24) | ((b[10] as u32) << 16) | ((b[11] as u32) << 8) | (
        b[12] as u32);
        Ok(HandshakeReply::Accept { version, magic })
    } else if b.len() == 1 && b[0] == 1u8 {
        Ok(HandshakeReply::Refuse)
    } else {
        Err(WireError::MalformedReply)
    }
}

} // verus!

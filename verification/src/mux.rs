//! Multiplexer/demultiplexer: multiplexes outbound chunks from several
//! mini-protocol drivers into wire segments, and routes inbound segments
//! back to the channel registered for their (protocol id, direction) pair,
//! preserving each channel's order.

use vstd::prelude::*;

verus! {

use crate::framer::DecodeOutcome;
use crate::framer::MAX_PROTOCOL_ID;
use crate::framer::MAX_SEGMENT_PAYLOAD;
use crate::framer::SpecDecodeResult;
use crate::framer::decode;
use crate::framer::encode;
use crate::framer::segment_bytes;
use crate::framer::spec_decode;
use vstd::slice::slice_subrange;
use vstd::slice::slice_to_vec;

/// Why a multiplexer operation failed.
#[derive(Debug, Clone, Copy, PartialEq, Eq, Structural)]
pub enum MuxError {
    /// An inbound segment named a (protocol id, direction) pair with no
    /// registered channel; fatal for the connection.
    UnknownChannel,
    /// An inbound segment header was malformed; fatal for the connection.
    MalformedSegment,
    /// A channel for that (protocol id, direction) pair already exists.
    ChannelExists,
}

/// One segment at the specification level.
pub struct SpecSegment {
    pub timestamp: u32,
    pub protocol_id: u16,
    pub from_responder: bool,
    pub payload: Seq<u8>,
}

impl SpecSegment {
    /// The segment can be put on the wire.
    pub open spec fn wf(self) -> bool {
        self.protocol_id <= MAX_PROTOCOL_ID && self.payload.len() <= MAX_SEGMENT_PAYLOAD
    }

    /// Its wire bytes.
    pub open spec fn wire(self) -> Seq<u8> {
        segment_bytes(self.timestamp, self.protocol_id, self.from_responder, self.payload)
    }
}

/// The concatenated wire bytes of a run of segments.
pub open spec fn wire_of(segs: Seq<SpecSegment>) -> Seq<u8>
    decreases segs.len(),
{
    if segs.len() == 0 {
        Seq::empty()
    } else {
        segs[0].wire() + wire_of(segs.drop_first())
    }
}

/// The payloads of the segments addressed to one channel, in send order.
pub open spec fn payloads_for(segs: Seq<SpecSegment>, protocol_id: u16, from_responder: bool) -> Seq<
    Seq<u8>,
>
    decreases segs.len(),
{
    if segs.len() == 0 {
        Seq::empty()
    } else {
        let rest = payloads_for(segs.drop_first(), protocol_id, from_responder);
        if segs[0].protocol_id == protocol_id && segs[0].from_responder == from_responder {
            seq![segs[0].payload] + rest
        } else {
            rest
        }
    }
}

/// One channel's model: its (protocol id, direction) pair and the queued
/// payloads not yet consumed by its driver, oldest first.
pub struct ChannelModel {
    pub protocol_id: u16,
    pub from_responder: bool,
    pub queue: Seq<Seq<u8>>,
}

/// Some channel carries this (protocol id, direction) pair.
pub open spec fn registered(chans: Seq<ChannelModel>, protocol_id: u16, from_responder: bool) -> bool {
    exists|i: int|
        0 <= i < chans.len() && chans[i].protocol_id == protocol_id && chans[i].from_responder
            == from_responder
}

/// No two channels share a (protocol id, direction) pair.
pub open spec fn unique_keys(chans: Seq<ChannelModel>) -> bool {
    forall|i: int, j: int|
        0 <= i < chans.len() && 0 <= j < chans.len() && (#[trigger] chans[i]).protocol_id == (
        #[trigger] chans[j]).protocol_id && chans[i].from_responder == chans[j].from_responder ==> i
            == j
}

/// The channels after delivering one payload to its channel's queue.
pub open spec fn enqueue_model(
    chans: Seq<ChannelModel>,
    protocol_id: u16,
    from_responder: bool,
    p: Seq<u8>,
) -> Seq<ChannelModel> {
    chans.map(
        |i: int, c: ChannelModel|
            if c.protocol_id == protocol_id && c.from_responder == from_responder {
                ChannelModel { queue: c.queue.push(p), ..c }
            } else {
                c
            },
    )
}

/// What repeatedly decoding and routing the buffered bytes yields: the
/// unconsumed remainder and the updated channels, or the fatal condition hit.
pub enum SpecDemuxResult {
    Routed { rest: Seq<u8>, chans: Seq<ChannelModel> },
    UnknownChannel,
    MalformedSegment,
}

/// Decodes segments off the front of `b` one at a time, delivering each
/// payload to its channel in arrival order, until the remainder is a
/// proper prefix of a segment or a fatal condition is hit.
pub open spec fn demux_run(b: Seq<u8>, chans: Seq<ChannelModel>) -> SpecDemuxResult
    decreases b.len(),
{
    match spec_decode(b) {
        SpecDecodeResult::Decoded { timestamp, protocol_id, from_responder, payload, consumed } => {
            // A decoded segment always has 0 < consumed <= b.len(); the two
            // length guards only make the recursion's termination evident.
            if registered(chans, protocol_id, from_responder) && consumed <= b.len() && consumed
                > 0 {
                demux_run(
                    b.skip(consumed),
                    enqueue_model(chans, protocol_id, from_responder, payload),
                )
            } else {
                SpecDemuxResult::UnknownChannel
            }
        },
        SpecDecodeResult::NeedMoreBytes => SpecDemuxResult::Routed { rest: b, chans },
        SpecDecodeResult::Malformed => SpecDemuxResult::MalformedSegment,
    }
}

/// Demultiplexer ordering: feeding any run of well-formed segments for
/// registered channels consumes every byte and appends to each channel's
/// queue exactly that channel's payloads, in their send order; the
/// cross-channel interleaving changes no channel's own order.
pub proof fn lemma_demux_ordering(segs: Seq<SpecSegment>, chans: Seq<ChannelModel>)
    requires
        forall|i: int| 0 <= i < segs.len() ==> (#[trigger] segs[i]).wf(),
        forall|i: int|
            0 <= i < segs.len() ==> registered(
                chans,
                (#[trigger] segs[i]).protocol_id,
                segs[i].from_responder,
            ),
        unique_keys(chans),
    ensures
        (demux_run(wire_of(segs), chans) matches SpecDemuxResult::Routed { rest, chans: c2 } && {
            &&& rest == Seq::<u8>::empty()
            &&& c2.len() == chans.len()
            &&& forall|i: int|
                0 <= i < chans.len() ==> (#[trigger] c2[i]).protocol_id == chans[i].protocol_id
                    && c2[i].from_responder == chans[i].from_responder && c2[i].queue
                    == chans[i].queue + payloads_for(
                    segs,
                    chans[i].protocol_id,
                    chans[i].from_responder,
                )
        }),
    decreases segs.len(),
{
    if segs.len() == 0 {
        assert(wire_of(segs) == Seq::<u8>::empty());
        assert(spec_decode(Seq::<u8>::empty()) is NeedMoreBytes);
        assert forall|i: int| 0 <= i < chans.len() implies (#[trigger] chans[i]).queue
            == chans[i].queue + payloads_for(
            segs,
            chans[i].protocol_id,
            chans[i].from_responder,
        ) by {
            assert(chans[i].queue + Seq::<Seq<u8>>::empty() =~= chans[i].queue);
        }
    } else {
        let s0 = segs[0];
        let rest_segs = segs.drop_first();
        let w = wire_of(segs);
        crate::framer::lemma_decode_of_segment(
            s0.timestamp,
            s0.protocol_id,
            s0.from_responder,
            s0.payload,
            wire_of(rest_segs),
        );
        let consumed = 8 + s0.payload.len() as int;
        assert(s0.wire().len() == consumed);
        assert(w.skip(consumed) =~= wire_of(rest_segs));
        let chans2 = enqueue_model(chans, s0.protocol_id, s0.from_responder, s0.payload);
        assert(registered(chans, s0.protocol_id, s0.from_responder));
        assert(demux_run(w, chans) == demux_run(wire_of(rest_segs), chans2));
        assert forall|i: int|
            0 <= i < rest_segs.len() implies (#[trigger] rest_segs[i]).wf() && registered(
            chans2,
            rest_segs[i].protocol_id,
            rest_segs[i].from_responder,
        ) by {
            assert(rest_segs[i] == segs[i + 1]);
            let k = choose|k: int|
                0 <= k < chans.len() && chans[k].protocol_id == segs[i + 1].protocol_id && chans[
                    k
                ].from_responder == segs[i + 1].from_responder;
            assert(chans2[k].protocol_id == chans[k].protocol_id && chans2[k].from_responder
                == chans[k].from_responder);
        }
        assert(unique_keys(chans2)) by {
            assert(forall|k: int|
                0 <= k < chans.len() ==> (#[trigger] chans2[k]).protocol_id
                    == chans[k].protocol_id && chans2[k].from_responder
                    == chans[k].from_responder);
        }
        lemma_demux_ordering(rest_segs, chans2);
        assert forall|i: int|
            0 <= i < chans.len() implies chans2[i].queue + payloads_for(
            rest_segs,
            chans[i].protocol_id,
            chans[i].from_responder,
        ) == chans[i].queue + payloads_for(
            segs,
            chans[i].protocol_id,
            chans[i].from_responder,
        ) by {
            if chans[i].protocol_id == s0.protocol_id && chans[i].from_responder
                == s0.from_responder {
                assert(chans2[i].queue == chans[i].queue.push(s0.payload));
                assert(chans[i].queue.push(s0.payload) + payloads_for(
                    rest_segs,
                    chans[i].protocol_id,
                    chans[i].from_responder,
                ) =~= chans[i].queue + (seq![s0.payload] + payloads_for(
                    rest_segs,
                    chans[i].protocol_id,
                    chans[i].from_responder,
                )));
            } else {
                assert(chans2[i].queue == chans[i].queue);
            }
        }
    }
}


/// The view of a queue of byte chunks.
pub open spec fn queue_view(q: Seq<Vec<u8>>) -> Seq<Seq<u8>> {
    q.map(|i: int, v: Vec<u8>| v@)
}

struct DemuxChannel {
    protocol_id: u16,
    from_responder: bool,
    queue: Vec<Vec<u8>>,
}

/// Demultiplexer: accumulates inbound bytes, decodes one segment at a time,
/// and buffers each payload for the channel registered for its (protocol id,
/// direction) pair until that driver consumes it.
pub struct Demux {
    buf: Vec<u8>,
    channels: Vec<DemuxChannel>,
    failed: bool,
}

impl Demux {
    /// The channels with their queued payloads.
    pub closed spec fn chans(&self) -> Seq<ChannelModel> {
        self.channels@.map(
            |i: int, c: DemuxChannel|
                ChannelModel {
                    protocol_id: c.protocol_id,
                    from_responder: c.from_responder,
                    queue: queue_view(c.queue@),
                },
        )
    }

    /// The bytes received but not yet part of a whole segment.
    pub closed spec fn buffered(&self) -> Seq<u8> {
        self.buf@
    }

    /// A fatal condition was hit; every channel is dead.
    pub closed spec fn is_failed(&self) -> bool {
        self.failed
    }

    /// Channels are keyed uniquely.
    pub open spec fn wf(&self) -> bool {
        unique_keys(self.chans())
    }

    /// A fresh demultiplexer with no channels.
    pub fn new() -> (r: Demux)
        ensures
            r.wf(),
            !r.is_failed(),
            r.chans() == Seq::<ChannelModel>::empty(),
            r.buffered() == Seq::<u8>::empty(),
    {
        let r = Demux { buf: Vec::new(), channels: Vec::new(), failed: false };
        proof {
            assert(r.chans() =~= Seq::<ChannelModel>::empty());
        }
        r
    }

    fn find_channel(&self, protocol_id: u16, from_responder: bool) -> (r: Option<usize>)
        ensures
            r is Some <==> registered(self.chans(), protocol_id, from_responder),
            r matches Some(i) ==> i < self.chans().len() && self.chans()[i as int].protocol_id
                == protocol_id && self.chans()[i as int].from_responder == from_responder,
    {
        let n = self.channels.len();
        let mut i: usize = 0;
        while i < n
            invariant
                n == self.chans().len(),
                i <= n,
                forall|j: int|
                    0 <= j < i ==> !((#[trigger] self.chans()[j]).protocol_id == protocol_id
                        && self.chans()[j].from_responder == from_responder),
            decreases n - i,
        {
            if self.channels[i].protocol_id == protocol_id && self.channels[i].from_responder
                == from_responder {
                proof {
                    assert((i as int) < self.chans().len() && self.chans()[
                        i as int
                    ].protocol_id == protocol_id && self.chans()[i as int].from_responder
                        == from_responder);
                    assert(registered(self.chans(), protocol_id, from_responder));
                }
                return Some(i);
            }
            i = i + 1;
        }
        None
    }

    /// Registers the channel for a (protocol id, direction) pair; refuses a
    /// pair already registered.
    pub fn register(&mut self, protocol_id: u16, from_responder: bool) -> (r: Result<(), MuxError>)
        requires
            old(self).wf(),
        ensures
            final(self).wf(),
            final(self).buffered() == old(self).buffered(),
            final(self).is_failed() == old(self).is_failed(),
            r is Ok <==> !registered(old(self).chans(), protocol_id, from_responder),
            r is Ok ==> final(self).chans() == old(self).chans().push(
                ChannelModel { protocol_id, from_responder, queue: Seq::empty() },
            ),
            r is Err ==> final(self).chans() == old(self).chans() && r == Err::<
                (),
                MuxError,
            >(MuxError::ChannelExists),
    {
        match self.find_channel(protocol_id, from_responder) {
            Some(_) => Err(MuxError::ChannelExists),
            None => {
                self.channels.push(
                    DemuxChannel { protocol_id, from_responder, queue: Vec::new() },
                );
                proof {
                    assert(queue_view(Seq::<Vec<u8>>::empty()) =~= Seq::<Seq<u8>>::empty());
                    assert(final(self).chans() =~= old(self).chans().push(
                        ChannelModel { protocol_id, from_responder, queue: Seq::empty() },
                    ));
                }
                Ok(())
            },
        }
    }

    /// Accepts newly read bytes and routes every whole segment now buffered
    /// to its channel, in arrival order, keeping any trailing partial
    /// segment for the next read. An unknown channel or a malformed header
    /// is fatal: the demultiplexer refuses further work.
    pub fn feed(&mut self, data: &Vec<u8>) -> (r: Result<(), MuxError>)
        requires
            old(self).wf(),
            !old(self).is_failed(),
        ensures
            final(self).wf(),
            (demux_run(old(self).buffered() + data@, old(self).chans())
                matches SpecDemuxResult::Routed { rest, chans } ==> r is Ok
                && final(self).buffered() == rest && final(self).chans() == chans
                && !final(self).is_failed()),
            (demux_run(old(self).buffered() + data@, old(self).chans()) is UnknownChannel ==> r
                == Err::<(), MuxError>(MuxError::UnknownChannel) && final(self).is_failed()),
            (demux_run(old(self).buffered() + data@, old(self).chans()) is MalformedSegment ==> r
                == Err::<(), MuxError>(MuxError::MalformedSegment) && final(self).is_failed()),
    {
        let ghost total = old(self).buffered() + data@;
        let ghost chans0 = old(self).chans();
        let m = data.len();
        let mut k: usize = 0;
        while k < m
            invariant
                m == data@.len(),
                k <= m,
                self.buf@ == old(self).buffered() + data@.subrange(0, k as int),
                self.chans() == old(self).chans(),
                self.failed == old(self).is_failed(),
            decreases m - k,
        {
            self.buf.push(data[k]);
            k = k + 1;
            proof {
                assert(old(self).buffered() + data@.subrange(0, k as int) =~= (old(
                    self,
                ).buffered() + data@.subrange(0, k - 1)).push(data@[k - 1]));
            }
        }
        proof {
            assert(self.buf@ =~= total);
        }
        loop
            invariant
                self.wf(),
                !self.failed,
                demux_run(self.buf@, self.chans()) == demux_run(
                    old(self).buffered() + data@,
                    old(self).chans(),
                ),
            decreases self.buf@.len(),
        {
            let ghost pre_chans = self.chans();
            let ghost pre_buf = self.buf@;
            match decode(&self.buf) {
                DecodeOutcome::NeedMoreBytes => {
                    proof {
                        assert(spec_decode(pre_buf) is NeedMoreBytes);
                        assert(demux_run(pre_buf, pre_chans) == (SpecDemuxResult::Routed {
                            rest: pre_buf,
                            chans: pre_chans,
                        }));
                    }
                    return Ok(());
                },
                DecodeOutcome::Malformed => {
                    proof {
                        assert(spec_decode(pre_buf) is Malformed);
                        assert(demux_run(pre_buf, pre_chans)
                            == SpecDemuxResult::MalformedSegment);
                    }
                    self.failed = true;
                    return Err(MuxError::MalformedSegment);
                },
                DecodeOutcome::Decoded { header, payload, consumed } => {
                    match self.find_channel(header.protocol_id, header.from_responder) {
                        None => {
                            proof {
                                assert(spec_decode(pre_buf) matches
                                    SpecDecodeResult::Decoded { protocol_id, from_responder, .. }
                                    && protocol_id == header.protocol_id && from_responder
                                    == header.from_responder);
                                assert(demux_run(pre_buf, pre_chans)
                                    == SpecDemuxResult::UnknownChannel);
                            }
                            self.failed = true;
                            return Err(MuxError::UnknownChannel);
                        },
                        Some(idx) => {
                            let ghost pre_queue = self.channels@[idx as int].queue@;
                            self.channels[idx].queue.push(payload);
                            proof {
                                assert(queue_view(pre_queue.push(payload)) =~= queue_view(
                                    pre_queue,
                                ).push(payload@));
                                assert(self.chans() =~= enqueue_model(
                                    pre_chans,
                                    header.protocol_id,
                                    header.from_responder,
                                    payload@,
                                ));
                            }
                            let rest = slice_to_vec(
                                slice_subrange(self.buf.as_slice(), consumed, self.buf.len()),
                            );
                            self.buf = rest;
                            proof {
                                assert(self.buf@ =~= pre_buf.skip(consumed as int));
                                assert(demux_run(pre_buf, pre_chans) == demux_run(
                                    self.buf@,
                                    self.chans(),
                                ));
                            }
                        },
                    }
                },
            }
        }
    }

    /// Hands out the oldest undelivered payload for the channel, if any.
    pub fn recv(&mut self, protocol_id: u16, from_responder: bool) -> (r: Option<Vec<u8>>)
        requires
            old(self).wf(),
        ensures
            final(self).wf(),
            final(self).buffered() == old(self).buffered(),
            final(self).is_failed() == old(self).is_failed(),
            r is Some <==> exists|i: int|
                0 <= i < old(self).chans().len() && (#[trigger] old(self).chans()[i]).protocol_id
                    == protocol_id && old(self).chans()[i].from_responder == from_responder
                    && old(self).chans()[i].queue.len() > 0,
            r matches Some(p) ==> exists|i: int|
                {
                    &&& 0 <= i < old(self).chans().len()
                    &&& (#[trigger] old(self).chans()[i]).protocol_id == protocol_id
                    &&& old(self).chans()[i].from_responder == from_responder
                    &&& old(self).chans()[i].queue.len() > 0
                    &&& p@ == old(self).chans()[i].queue[0]
                    &&& final(self).chans() == old(self).chans().update(
                        i,
                        ChannelModel {
                            protocol_id,
                            from_responder,
                            queue: old(self).chans()[i].queue.drop_first(),
                        },
                    )
                },
            r is None ==> final(self).chans() == old(self).chans(),
    {
        match self.find_channel(protocol_id, from_responder) {
            None => None,
            Some(i) => {
                if self.channels[i].queue.len() == 0 {
                    proof {
                        assert forall|j: int|
                            0 <= j < self.chans().len() && (#[trigger] self.chans()[
                                j
                            ]).protocol_id == protocol_id && self.chans()[j].from_responder
                                == from_responder implies j == i as int by {}
                    }
                    return None;
                }
                let ghost pre_chans = self.chans();
                let ghost pre_queue = self.channels@[i as int].queue@;
                let p = self.channels[i].queue.remove(0);
                proof {
                    assert(queue_view(pre_queue.remove(0)) =~= queue_view(pre_queue).drop_first());
                    assert(self.chans() =~= pre_chans.update(
                        i as int,
                        ChannelModel {
                            protocol_id,
                            from_responder,
                            queue: pre_chans[i as int].queue.drop_first(),
                        },
                    ));
                }
                Some(p)
            },
        }
    }
}


/// The payload-sized pieces a chunk is split into, in order.
pub open spec fn fragments(p: Seq<u8>) -> Seq<Seq<u8>>
    decreases p.len(),
{
    if p.len() <= MAX_SEGMENT_PAYLOAD {
        seq![p]
    } else {
        seq![p.take(MAX_SEGMENT_PAYLOAD as int)] + fragments(p.skip(MAX_SEGMENT_PAYLOAD as int))
    }
}

/// The concatenation of a run of payloads.
pub open spec fn concat_all(ps: Seq<Seq<u8>>) -> Seq<u8>
    decreases ps.len(),
{
    if ps.len() == 0 {
        Seq::empty()
    } else {
        ps[0] + concat_all(ps.drop_first())
    }
}

/// Fragmentation loses nothing and keeps order: the pieces each fit one
/// segment and concatenate back to the chunk.
pub proof fn lemma_fragments_concat(p: Seq<u8>)
    ensures
        concat_all(fragments(p)) == p,
        forall|i: int|
            0 <= i < fragments(p).len() ==> (#[trigger] fragments(p)[i]).len()
                <= MAX_SEGMENT_PAYLOAD,
    decreases p.len(),
{
    if p.len() <= MAX_SEGMENT_PAYLOAD {
        assert(fragments(p).len() == 1 && fragments(p)[0] == p);
        assert(fragments(p).drop_first() =~= Seq::<Seq<u8>>::empty());
        assert(concat_all(fragments(p)) == p + concat_all(Seq::<Seq<u8>>::empty()));
        assert(p + Seq::<u8>::empty() =~= p);
    } else {
        let hd = p.take(MAX_SEGMENT_PAYLOAD as int);
        let tl = p.skip(MAX_SEGMENT_PAYLOAD as int);
        lemma_fragments_concat(tl);
        assert(fragments(p).len() >= 1);
        assert(fragments(p).drop_first() =~= fragments(tl));
        assert(fragments(p)[0] == hd);
        assert(concat_all(fragments(p)) == hd + concat_all(fragments(tl)));
        assert(hd + tl =~= p);
    }
}

/// The channel index `k` steps after `cursor`, wrapping at `n`.
pub open spec fn rot(cursor: int, k: int, n: int) -> int {
    if cursor + k < n {
        cursor + k
    } else {
        cursor + k - n
    }
}

struct MuxChannel {
    protocol_id: u16,
    from_responder: bool,
    queue: Vec<Vec<u8>>,
}

/// Multiplexer (outbound side): drivers enqueue payload chunks per channel;
/// `next_segment` picks channels round-robin, splits an oversized chunk
/// across segments in order, and emits one wire segment at a time.
pub struct Mux {
    channels: Vec<MuxChannel>,
    cursor: usize,
}

impl Mux {
    /// The channels with their pending chunks, oldest first.
    pub closed spec fn chans(&self) -> Seq<ChannelModel> {
        self.channels@.map(
            |i: int, c: MuxChannel|
                ChannelModel {
                    protocol_id: c.protocol_id,
                    from_responder: c.from_responder,
                    queue: queue_view(c.queue@),
                },
        )
    }

    /// Where the round-robin scan starts next.
    pub closed spec fn cursor_at(&self) -> int {
        self.cursor as int
    }

    /// Channels are keyed uniquely, carry wire-safe protocol identifiers,
    /// and the cursor stays in range.
    pub open spec fn wf(&self) -> bool {
        &&& unique_keys(self.chans())
        &&& forall|i: int|
            0 <= i < self.chans().len() ==> (#[trigger] self.chans()[i]).protocol_id
                <= MAX_PROTOCOL_ID
        &&& if self.chans().len() == 0 {
            self.cursor_at() == 0
        } else {
            0 <= self.cursor_at() < self.chans().len()
        }
    }

    /// A fresh multiplexer with no channels.
    pub fn new() -> (r: Mux)
        ensures
            r.wf(),
            r.chans() == Seq::<ChannelModel>::empty(),
    {
        let r = Mux { channels: Vec::new(), cursor: 0 };
        proof {
            assert(r.chans() =~= Seq::<ChannelModel>::empty());
        }
        r
    }

    fn find_channel(&self, protocol_id: u16, from_responder: bool) -> (r: Option<usize>)
        ensures
            r is Some <==> registered(self.chans(), protocol_id, from_responder),
            r matches Some(i) ==> i < self.chans().len() && self.chans()[i as int].protocol_id
                == protocol_id && self.chans()[i as int].from_responder == from_responder,
    {
        let n = self.channels.len();
        let mut i: usize = 0;
        while i < n
            invariant
                n == self.chans().len(),
                i <= n,
                forall|j: int|
                    0 <= j < i ==> !((#[trigger] self.chans()[j]).protocol_id == protocol_id
                        && self.chans()[j].from_responder == from_responder),
            decreases n - i,
        {
            if self.channels[i].protocol_id == protocol_id && self.channels[i].from_responder
                == from_responder {
                proof {
                    assert((i as int) < self.chans().len() && self.chans()[
                        i as int
                    ].protocol_id == protocol_id && self.chans()[i as int].from_responder
                        == from_responder);
                    assert(registered(self.chans(), protocol_id, from_responder));
                }
                return Some(i);
            }
            i = i + 1;
        }
        None
    }

    /// Registers the outbound channel for a (protocol id, direction) pair;
    /// refuses a pair already registered. The identifier must fit the
    /// 15-bit wire field.
    pub fn register(&mut self, protocol_id: u16, from_responder: bool) -> (r: Result<(), MuxError>)
        requires
            old(self).wf(),
            protocol_id <= MAX_PROTOCOL_ID,
        ensures
            final(self).wf(),
            final(self).cursor_at() == old(self).cursor_at() || (old(self).chans().len() == 0
                && final(self).cursor_at() == 0),
            r is Ok <==> !registered(old(self).chans(), protocol_id, from_responder),
            r is Ok ==> final(self).chans() == old(self).chans().push(
                ChannelModel { protocol_id, from_responder, queue: Seq::empty() },
            ),
            r is Err ==> final(self).chans() == old(self).chans() && r == Err::<
                (),
                MuxError,
            >(MuxError::ChannelExists),
    {
        match self.find_channel(protocol_id, from_responder) {
            Some(_) => Err(MuxError::ChannelExists),
            None => {
                self.channels.push(MuxChannel { protocol_id, from_responder, queue: Vec::new() });
                proof {
                    assert(queue_view(Seq::<Vec<u8>>::empty()) =~= Seq::<Seq<u8>>::empty());
                    assert(final(self).chans() =~= old(self).chans().push(
                        ChannelModel { protocol_id, from_responder, queue: Seq::empty() },
                    ));
                }
                Ok(())
            },
        }
    }

    /// Queues a chunk of any length on its channel; `next_segment` will
    /// split it across segments as needed, preserving order.
    pub fn enqueue(&mut self, protocol_id: u16, from_responder: bool, chunk: Vec<u8>) -> (r: Result<
        (),
        MuxError,
    >)
        requires
            old(self).wf(),
        ensures
            final(self).wf(),
            final(self).cursor_at() == old(self).cursor_at(),
            r is Ok <==> registered(old(self).chans(), protocol_id, from_responder),
            r is Ok ==> final(self).chans() == enqueue_model(
                old(self).chans(),
                protocol_id,
                from_responder,
                chunk@,
            ),
            r is Err ==> final(self).chans() == old(self).chans() && r == Err::<
                (),
                MuxError,
            >(MuxError::UnknownChannel),
    {
        match self.find_channel(protocol_id, from_responder) {
            None => Err(MuxError::UnknownChannel),
            Some(idx) => {
                let ghost pre_chans = self.chans();
                let ghost pre_queue = self.channels@[idx as int].queue@;
                self.channels[idx].queue.push(chunk);
                proof {
                    assert(queue_view(pre_queue.push(chunk)) =~= queue_view(pre_queue).push(
                        chunk@,
                    ));
                    assert(self.chans() =~= enqueue_model(
                        pre_chans,
                        protocol_id,
                        from_responder,
                        chunk@,
                    ));
                }
                Ok(())
            },
        }
    }

    /// Emits the next wire segment, scanning channels round-robin from the
    /// cursor so no channel with pending output is starved: the first
    /// pending channel at or after the cursor sends the front of its oldest
    /// chunk (up to one segment's payload; any remainder stays at the front
    /// of its queue), and the cursor moves just past that channel. Returns
    /// nothing exactly when no channel has pending output.
    pub fn next_segment(&mut self, timestamp: u32) -> (r: Option<Vec<u8>>)
        requires
            old(self).wf(),
        ensures
            final(self).wf(),
            r is None <==> forall|i: int|
                0 <= i < old(self).chans().len() ==> (#[trigger] old(self).chans()[i]).queue.len()
                    == 0,
            r is None ==> final(self).chans() == old(self).chans() && final(self).cursor_at()
                == old(self).cursor_at(),
            r matches Some(seg) ==> exists|k: int|
                #![trigger rot(old(self).cursor_at(), k, old(self).chans().len() as int)]
                {
                    let n = old(self).chans().len() as int;
                    let idx = rot(old(self).cursor_at(), k, n);
                    let c = old(self).chans()[idx];
                    let head = c.queue[0];
                    let payload = if head.len() <= MAX_SEGMENT_PAYLOAD {
                        head
                    } else {
                        head.take(MAX_SEGMENT_PAYLOAD as int)
                    };
                    let newq = if head.len() <= MAX_SEGMENT_PAYLOAD {
                        c.queue.drop_first()
                    } else {
                        c.queue.update(0, head.skip(MAX_SEGMENT_PAYLOAD as int))
                    };
                    &&& 0 <= k < n
                    &&& forall|k2: int|
                        0 <= k2 < k ==> old(self).chans()[rot(
                            old(self).cursor_at(),
                            k2,
                            n,
                        )].queue.len() == 0
                    &&& c.queue.len() > 0
                    &&& seg@ == segment_bytes(
                        timestamp,
                        c.protocol_id,
                        c.from_responder,
                        payload,
                    )
                    &&& final(self).chans() == old(self).chans().update(
                        idx,
                        ChannelModel {
                            protocol_id: c.protocol_id,
                            from_responder: c.from_responder,
                            queue: newq,
                        },
                    )
                    &&& final(self).cursor_at() == rot(idx, 1, n)
                },
    {
        let n = self.channels.len();
        if n == 0 {
            return None;
        }
        let mut k: usize = 0;
        while k < n
            invariant
                old(self).wf(),
                *self == *old(self),
                n == self.chans().len(),
                0 < n,
                self.cursor < n,
                k <= n,
                forall|k2: int|
                    0 <= k2 < k ==> old(self).chans()[rot(
                        old(self).cursor_at(),
                        k2,
                        n as int,
                    )].queue.len() == 0,
            decreases n - k,
        {
            let idx = if k < n - self.cursor {
                self.cursor + k
            } else {
                k - (n - self.cursor)
            };
            proof {
                assert(idx as int == rot(old(self).cursor_at(), k as int, n as int));
            }
            if self.channels[idx].queue.len() > 0 {
                let ghost pre_chans = self.chans();
                let ghost pre_queue = self.channels@[idx as int].queue@;
                let ghost kk = k as int;
                let head = self.channels[idx].queue.remove(0);
                let protocol_id = self.channels[idx].protocol_id;
                let from_responder = self.channels[idx].from_responder;
                let payload: Vec<u8>;
                if head.len() <= MAX_SEGMENT_PAYLOAD as usize {
                    payload = head;
                    proof {
                        assert(queue_view(pre_queue.remove(0)) =~= queue_view(
                            pre_queue,
                        ).drop_first());
                        assert(self.chans() =~= pre_chans.update(
                            idx as int,
                            ChannelModel {
                                protocol_id,
                                from_responder,
                                queue: pre_chans[idx as int].queue.drop_first(),
                            },
                        ));
                    }
                } else {
                    payload = slice_to_vec(
                        slice_subrange(head.as_slice(), 0, MAX_SEGMENT_PAYLOAD as usize),
                    );
                    let restc = slice_to_vec(
                        slice_subrange(head.as_slice(), MAX_SEGMENT_PAYLOAD as usize, head.len()),
                    );
                    self.channels[idx].queue.insert(0, restc);
                    proof {
                        assert(payload@ =~= pre_chans[idx as int].queue[0].take(
                            MAX_SEGMENT_PAYLOAD as int,
                        ));
                        assert(queue_view(pre_queue.remove(0).insert(0, restc)) =~= queue_view(
                            pre_queue,
                        ).update(0, pre_chans[idx as int].queue[0].skip(MAX_SEGMENT_PAYLOAD as int)));
                        assert(self.chans() =~= pre_chans.update(
                            idx as int,
                            ChannelModel {
                                protocol_id,
                                from_responder,
                                queue: pre_chans[idx as int].queue.update(
                                    0,
                                    pre_chans[idx as int].queue[0].skip(
                                        MAX_SEGMENT_PAYLOAD as int,
                                    ),
                                ),
                            },
                        ));
                    }
                }
                let seg = match encode(timestamp, protocol_id, from_responder, &payload) {
                    Ok(s) => s,
                    Err(_) => {
                        proof {
                            assert(false);
                        }
                        Vec::new()
                    },
                };
                self.cursor = if idx + 1 < n {
                    idx + 1
                } else {
                    0
                };
                proof {
                    assert(self.cursor_at() == rot(idx as int, 1, n as int));
                }
                return Some(seg);
            }
            k = k + 1;
        }
        proof {
            assert forall|i: int|
                0 <= i < old(self).chans().len() implies (#[trigger] old(
                self,
            ).chans()[i]).queue.len() == 0 by {
                let cur = old(self).cursor_at();
                let k2 = if i >= cur {
                    i - cur
                } else {
                    i + n - cur
                };
                assert(rot(cur, k2, n as int) == i);
                assert(old(self).chans()[rot(cur, k2, n as int)].queue.len() == 0);
            }
        }
        None
    }
}

} // verus!

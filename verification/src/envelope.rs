//! Event envelopes and the transport that carries them.
//!
//! An [`EventEnvelope`] is the fixed-shape record describing one observed
//! socket event: which descriptor in which process, the time window of the
//! syscall, a tag, and a payload. Envelopes travel from the correlator to
//! a consumer over a [`RingChannel`], a fixed-capacity circular transport
//! that drops the oldest entry under sustained backpressure.
//!
//! The wire format is `pid (4) | fd (4) | ts_start (8) | ts_end (8) |
//! tag (1) | payload`, all integers little-endian.

use vstd::prelude::*;
use vstd::bytes::{
    lemma_auto_spec_u32_to_from_le_bytes, lemma_auto_spec_u64_to_from_le_bytes,
    spec_u32_from_le_bytes, spec_u32_to_le_bytes, spec_u64_from_le_bytes, spec_u64_to_le_bytes,
    u32_from_le_bytes, u32_to_le_bytes, u64_from_le_bytes, u64_to_le_bytes,
};
use vstd::slice::{slice_subrange, slice_to_vec};

verus! {

/// One file descriptor in one process; immutable once captured.
#[derive(Clone, Copy, PartialEq, Eq, Structural, Debug)]
pub struct SocketId {
    pub pid: u32,
    pub fd: u32,
}

/// The identity and time window of one observed socket event.
#[derive(Clone, Copy, PartialEq, Eq, Structural, Debug)]
pub struct EventId {
    pub socket_id: SocketId,
    pub ts_start: u64,
    pub ts_end: u64,
}

impl EventId {
    pub fn new(socket_id: SocketId, ts_start: u64, ts_end: u64) -> (r: EventId)
        ensures
            r == (EventId { socket_id, ts_start, ts_end }),
    {
        EventId { socket_id, ts_start, ts_end }
    }
}

/// What kind of data an envelope carries.
#[derive(Clone, Copy, PartialEq, Eq, Structural, Debug)]
pub enum DataTag {
    /// A diagnostic event, such as a stale-correlation report.
    Debug,
    /// A correlated syscall observation.
    Data,
}

/// The record carrying one observed socket event from producer to consumer.
pub struct EventEnvelope {
    pub event_id: EventId,
    pub tag: DataTag,
    pub payload: Vec<u8>,
}

/// The mathematical value of an [`EventEnvelope`].
pub struct EnvelopeModel {
    pub pid: u32,
    pub fd: u32,
    pub ts_start: u64,
    pub ts_end: u64,
    pub tag: DataTag,
    pub payload: Seq<u8>,
}

impl View for EventEnvelope {
    type V = EnvelopeModel;

    open spec fn view(&self) -> EnvelopeModel {
        EnvelopeModel {
            pid: self.event_id.socket_id.pid,
            fd: self.event_id.socket_id.fd,
            ts_start: self.event_id.ts_start,
            ts_end: self.event_id.ts_end,
            tag: self.tag,
            payload: self.payload@,
        }
    }
}

/// The byte an envelope's tag encodes to.
pub open spec fn tag_byte(t: DataTag) -> u8 {
    match t {
        DataTag::Debug => 0,
        DataTag::Data => 1,
    }
}

/// The tag a byte decodes to, if any.
pub open spec fn tag_of_byte(b: u8) -> Option<DataTag> {
    if b == 0 {
        Some(DataTag::Debug)
    } else if b == 1 {
        Some(DataTag::Data)
    } else {
        None
    }
}

/// The wire encoding of an envelope.
pub open spec fn encode_model(m: EnvelopeModel) -> Seq<u8> {
    spec_u32_to_le_bytes(m.pid) + spec_u32_to_le_bytes(m.fd) + spec_u64_to_le_bytes(m.ts_start)
        + spec_u64_to_le_bytes(m.ts_end) + seq![tag_byte(m.tag)] + m.payload
}

/// The envelope a byte string decodes to: `None` on a short record or an
/// unknown tag byte, otherwise every field read back from its place.
pub open spec fn decode_model(b: Seq<u8>) -> Option<EnvelopeModel> {
    if b.len() < 25 {
        None
    } else {
        match tag_of_byte(b[24]) {
            None => None,
            Some(tag) => Some(
                EnvelopeModel {
                    pid: spec_u32_from_le_bytes(b.subrange(0, 4)),
                    fd: spec_u32_from_le_bytes(b.subrange(4, 8)),
                    ts_start: spec_u64_from_le_bytes(b.subrange(8, 16)),
                    ts_end: spec_u64_from_le_bytes(b.subrange(16, 24)),
                    tag,
                    payload: b.subrange(25, b.len() as int),
                },
            ),
        }
    }
}

/// Serialize an envelope to its wire format.
pub fn encode_envelope(e: &EventEnvelope) -> (out: Vec<u8>)
    ensures
        out@ == encode_model(e@),
{
    let mut out = u32_to_le_bytes(e.event_id.socket_id.pid);
    let mut fd_bytes = u32_to_le_bytes(e.event_id.socket_id.fd);
    out.append(&mut fd_bytes);
    let mut start_bytes = u64_to_le_bytes(e.event_id.ts_start);
    out.append(&mut start_bytes);
    let mut end_bytes = u64_to_le_bytes(e.event_id.ts_end);
    out.append(&mut end_bytes);
    let tag: u8 = match e.tag {
        DataTag::Debug => 0,
        DataTag::Data => 1,
    };
    out.push(tag);
    let ghost head = out@;
    let mut i: usize = 0;
    while i < e.payload.len()
        invariant
            i <= e.payload.len(),
            out@ == head + e.payload@.subrange(0, i as int),
        decreases e.payload.len() - i,
    {
        out.push(e.payload[i]);
        proof {
            assert(head + e.payload@.subrange(0, i as int) + seq![e.payload@[i as int]] =~= head
                + e.payload@.subrange(0, i as int + 1));
        }
        i = i + 1;
    }
    proof {
        assert(e.payload@.subrange(0, e.payload@.len() as int) =~= e.payload@);
        assert(out@ =~= encode_model(e@));
    }
    out
}

/// Parse an envelope from its wire format; `None` exactly on a record
/// shorter than the fixed header or with an unknown tag byte.
pub fn decode_envelope(bytes: &Vec<u8>) -> (r: Option<EventEnvelope>)
    ensures
        match decode_model(bytes@) {
            Some(m) => r matches Some(e) && e@ == m,
            None => r is None,
        },
{
    if bytes.len() < 25 {
        return None;
    }
    let tag_b = bytes[24];
    let tag = if tag_b == 0 {
        DataTag::Debug
    } else if tag_b == 1 {
        DataTag::Data
    } else {
        return None;
    };
    let s = bytes.as_slice();
    let pid = u32_from_le_bytes(slice_subrange(s, 0, 4));
    let fd = u32_from_le_bytes(slice_subrange(s, 4, 8));
    let ts_start = u64_from_le_bytes(slice_subrange(s, 8, 16));
    let ts_end = u64_from_le_bytes(slice_subrange(s, 16, 24));
    let payload = slice_to_vec(slice_subrange(s, 25, bytes.len()));
    Some(
        EventEnvelope {
            event_id: EventId { socket_id: SocketId { pid, fd }, ts_start, ts_end },
            tag,
            payload,
        },
    )
}

/// Decoding inverts encoding: every envelope read back from its own wire
/// bytes is the envelope itself.
pub proof fn lemma_envelope_round_trip(m: EnvelopeModel)
    ensures
        decode_model(encode_model(m)) == Some(m),
{
    lemma_auto_spec_u32_to_from_le_bytes();
    lemma_auto_spec_u64_to_from_le_bytes();
    let b = encode_model(m);
    assert(b.len() == 25 + m.payload.len());
    assert(b[24] == tag_byte(m.tag));
    assert(tag_of_byte(tag_byte(m.tag)) == Some(m.tag)) by {
        match m.tag {
            DataTag::Debug => {},
            DataTag::Data => {},
        }
    }
    assert(b.subrange(0, 4) =~= spec_u32_to_le_bytes(m.pid));
    assert(b.subrange(4, 8) =~= spec_u32_to_le_bytes(m.fd));
    assert(b.subrange(8, 16) =~= spec_u64_to_le_bytes(m.ts_start));
    assert(b.subrange(16, 24) =~= spec_u64_to_le_bytes(m.ts_end));
    assert(b.subrange(25, b.len() as int) =~= m.payload);
}

/// The contents of a ring channel after accepting one envelope: appended
/// when there is room, otherwise the oldest entry is overwritten.
pub open spec fn send_model(s: Seq<EventEnvelope>, cap: nat, e: EventEnvelope) -> Seq<
    EventEnvelope,
> {
    if s.len() < cap {
        s.push(e)
    } else {
        s.subrange(1, s.len() as int).push(e)
    }
}

/// Fixed-capacity, single-producer/single-consumer transport between the
/// correlator and its consumer. When the consumer falls behind, sending
/// drops the oldest envelope: the channel is deliberately lossy and offers
/// no acknowledgment or replay.
pub struct RingChannel {
    capacity: usize,
    items: Vec<EventEnvelope>,
}

impl View for RingChannel {
    type V = Seq<EventEnvelope>;

    closed spec fn view(&self) -> Seq<EventEnvelope> {
        self.items@
    }
}

impl RingChannel {
    /// The channel never holds more envelopes than its capacity.
    pub closed spec fn wf(&self) -> bool {
        self.capacity >= 1 && self.items@.len() <= self.capacity
    }

    /// The fixed capacity the channel was created with.
    pub closed spec fn cap(&self) -> nat {
        self.capacity as nat
    }

    pub fn new(capacity: usize) -> (r: RingChannel)
        requires
            capacity >= 1,
        ensures
            r.wf(),
            r.cap() == capacity,
            r@ == Seq::<EventEnvelope>::empty(),
    {
        RingChannel { capacity, items: Vec::new() }
    }

    /// Accept one envelope; on a full channel the oldest is dropped first.
    pub fn send(&mut self, e: EventEnvelope)
        requires
            old(self).wf(),
        ensures
            final(self).wf(),
            final(self).cap() == old(self).cap(),
            final(self)@ == send_model(old(self)@, old(self).cap(), e),
    {
        if self.items.len() == self.capacity {
            self.items.remove(0);
            proof {
                assert(self.items@ =~= old(self).items@.subrange(1, old(self).items@.len() as int));
            }
        }
        self.items.push(e);
    }

    /// Take the oldest envelope, if any.
    pub fn recv(&mut self) -> (r: Option<EventEnvelope>)
        requires
            old(self).wf(),
        ensures
            final(self).wf(),
            final(self).cap() == old(self).cap(),
            old(self)@.len() == 0 ==> r is None && final(self)@ == old(self)@,
            old(self)@.len() > 0 ==> r == Some(old(self)@[0]) && final(self)@ == old(
                self,
            )@.subrange(1, old(self)@.len() as int),
    {
        if self.items.len() == 0 {
            None
        } else {
            Some(self.items.remove(0))
        }
    }

    pub fn len(&self) -> (r: usize)
        ensures
            r == self@.len(),
    {
        self.items.len()
    }
}

} // verus!

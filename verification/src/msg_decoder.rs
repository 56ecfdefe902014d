//! Per-peer decryption and reassembly of application messages.
//!
//! Each remote peer owns one [`EncryptedMessageDecoder`]. A call to
//! [`EncryptedMessageDecoder::recv_msg`] handles one received chunk:
//! the sequential nonce is advanced unconditionally — exactly once per
//! call, never reused and never rolled back, even when decryption fails —
//! and on successful decryption the chunk's raw bytes are appended to the
//! accumulation buffer while the count of still-missing plaintext bytes
//! is reduced by the decrypted length. When nothing is missing the buffer
//! is parsed as one length-framed application message: a complete message
//! is delivered and the buffer cleared; an underflow records how many
//! bytes are still required; any other parse failure drops the message
//! and deliberately leaves the buffer untouched.
//!
//! Decryption itself is performed by the caller against the shared key
//! and the decoder's current nonce; the decoder consumes only its
//! outcome, the decrypted plaintext length, so the reassembly logic here
//! is verified for every possible outcome of the cipher. A failed
//! decryption permanently desynchronizes the peer's stream: the nonce
//! has advanced past what the peer will use next, and no resynchronization
//! path exists.

use vstd::prelude::*;
use vstd::slice::{slice_subrange, slice_to_vec};

verus! {

/// The largest chunk body the two-byte length frame can carry.
pub const CHUNK_CONTENT_MAX: usize = 65533;

/// The big-endian 32-bit length read from the first four bytes of a
/// buffer.
pub open spec fn be32_of(b: Seq<u8>) -> int {
    (b[0] as int) * 0x100_0000 + (b[1] as int) * 0x1_0000 + (b[2] as int) * 0x100 + (b[3] as int)
}

/// Outcome of parsing an accumulation buffer as one application message.
pub enum ParseModel {
    /// The buffer is exactly one message; the body follows the length
    /// frame.
    Complete(Seq<u8>),
    /// The buffer is a valid prefix; this many more bytes are required.
    Underflow(int),
    /// The buffer holds more than one message's worth of bytes.
    Error,
}

/// Parse a buffer as one message framed by a big-endian 32-bit length:
/// too short for the frame or for the declared body is an underflow
/// reporting exactly the missing byte count, an exact fit is the
/// complete body, and trailing bytes are an error.
pub open spec fn parse_message_model(buf: Seq<u8>) -> ParseModel {
    if buf.len() < 4 {
        ParseModel::Underflow(4 - buf.len())
    } else {
        let l = be32_of(buf);
        if buf.len() < 4 + l {
            ParseModel::Underflow(4 + l - buf.len())
        } else if buf.len() == 4 + l {
            ParseModel::Complete(buf.subrange(4, buf.len() as int))
        } else {
            ParseModel::Error
        }
    }
}

/// A buffer that is exactly one length-framed message.
pub open spec fn valid_message(m: Seq<u8>) -> bool {
    m.len() >= 4 && m.len() == 4 + be32_of(m)
}

/// The body of a length-framed message.
pub open spec fn message_body(m: Seq<u8>) -> Seq<u8> {
    m.subrange(4, m.len() as int)
}

/// Executable form of one message-parse outcome.
pub enum MessageParse {
    Complete(Vec<u8>),
    Underflow(u64),
    Error,
}

impl View for MessageParse {
    type V = ParseModel;

    open spec fn view(&self) -> ParseModel {
        match *self {
            MessageParse::Complete(ref v) => ParseModel::Complete(v@),
            MessageParse::Underflow(n) => ParseModel::Underflow(n as int),
            MessageParse::Error => ParseModel::Error,
        }
    }
}

/// Parse a buffer as one length-framed application message.
pub fn parse_message(buf: &Vec<u8>) -> (r: MessageParse)
    ensures
        r@ == parse_message_model(buf@),
{
    if buf.len() < 4 {
        return MessageParse::Underflow((4 - buf.len()) as u64);
    }
    let l: u64 = (buf[0] as u64) * 0x100_0000 + (buf[1] as u64) * 0x1_0000 + (buf[2] as u64) * 0x100
        + (buf[3] as u64);
    let blen: u64 = buf.len() as u64;
    if blen < 4 + l {
        MessageParse::Underflow(4 + l - blen)
    } else if blen == 4 + l {
        MessageParse::Complete(slice_to_vec(slice_subrange(buf.as_slice(), 4, buf.len())))
    } else {
        MessageParse::Error
    }
}

/// Frame a chunk body with its big-endian 16-bit length, the wire form
/// one encrypted chunk travels in.
pub fn frame_chunk(content: &Vec<u8>) -> (out: Vec<u8>)
    requires
        content@.len() <= CHUNK_CONTENT_MAX,
    ensures
        out@.len() == 2 + content@.len(),
        out@[0] == content@.len() / 256,
        out@[1] == content@.len() % 256,
        out@.subrange(2, out@.len() as int) == content@,
{
    let len = content.len();
    let mut out: Vec<u8> = Vec::new();
    out.push((len / 256) as u8);
    out.push((len % 256) as u8);
    let mut i: usize = 0;
    while i < content.len()
        invariant
            i <= content.len(),
            out@.len() == 2 + i,
            out@[0] == content@.len() / 256,
            out@[1] == content@.len() % 256,
            out@.subrange(2, out@.len() as int) == content@.subrange(0, i as int),
            content@.len() <= CHUNK_CONTENT_MAX,
        decreases content.len() - i,
    {
        out.push(content[i]);
        proof {
            assert(out@.subrange(2, out@.len() as int) =~= content@.subrange(0, i as int + 1));
        }
        i = i + 1;
    }
    proof {
        assert(content@.subrange(0, content@.len() as int) =~= content@);
    }
    out
}

/// The mathematical state of one peer's decoder.
pub struct DecoderModel {
    /// Shared key material, established out of band.
    pub key: Seq<u8>,
    /// Identifier of the remote peer.
    pub peer: Seq<char>,
    /// The sequential nonce counter; the next decryption uses this value.
    pub nonce: int,
    /// Plaintext bytes still missing before the buffer is parsed again.
    pub remaining: int,
    /// Raw received bytes accumulated toward the next message.
    pub buf: Seq<u8>,
}

/// Outcome of ingesting one chunk.
pub enum RecvEffect {
    /// A complete application message was delivered.
    Delivered(Seq<u8>),
    /// More chunks are required; the normal partial-delivery path.
    AwaitingMore,
    /// The chunk could not be decrypted and was dropped; the nonce has
    /// still advanced, permanently desynchronizing the session.
    DecryptFailed,
    /// The reassembled buffer is not a valid message; the message is
    /// dropped and the buffer kept.
    ParseFailed,
}

/// Executable form of one ingest outcome.
pub enum RecvOutcome {
    Delivered(Vec<u8>),
    AwaitingMore,
    DecryptFailed,
    ParseFailed,
}

impl View for RecvOutcome {
    type V = RecvEffect;

    open spec fn view(&self) -> RecvEffect {
        match *self {
            RecvOutcome::Delivered(ref v) => RecvEffect::Delivered(v@),
            RecvOutcome::AwaitingMore => RecvEffect::AwaitingMore,
            RecvOutcome::DecryptFailed => RecvEffect::DecryptFailed,
            RecvOutcome::ParseFailed => RecvEffect::ParseFailed,
        }
    }
}

/// The decrypted-length argument as the model sees it.
pub open spec fn dlen_model(d: Option<u64>) -> Option<int> {
    match d {
        Some(n) => Some(n as int),
        None => None,
    }
}

/// The decoder state after ingesting one chunk `enc` whose decryption
/// outcome was `dlen`: the nonce always advances by one; on successful
/// decryption the raw chunk is appended and the missing-byte count
/// reduced (floored at zero) by the plaintext length, and when nothing
/// is missing the buffer is parsed — a complete message clears the
/// buffer, an underflow raises the missing-byte count, and any other
/// parse failure leaves the buffer as it stands.
pub open spec fn recv_transition(d: DecoderModel, enc: Seq<u8>, dlen: Option<int>) -> DecoderModel {
    match dlen {
        None => DecoderModel {
            key: d.key,
            peer: d.peer,
            nonce: d.nonce + 1,
            remaining: d.remaining,
            buf: d.buf,
        },
        Some(n) => {
            let rem = if d.remaining >= n {
                d.remaining - n
            } else {
                0
            };
            let buf = d.buf + enc;
            if rem == 0 {
                match parse_message_model(buf) {
                    ParseModel::Complete(_) => DecoderModel {
                        key: d.key,
                        peer: d.peer,
                        nonce: d.nonce + 1,
                        remaining: 0,
                        buf: Seq::empty(),
                    },
                    ParseModel::Underflow(k) => DecoderModel {
                        key: d.key,
                        peer: d.peer,
                        nonce: d.nonce + 1,
                        remaining: k,
                        buf,
                    },
                    ParseModel::Error => DecoderModel {
                        key: d.key,
                        peer: d.peer,
                        nonce: d.nonce + 1,
                        remaining: 0,
                        buf,
                    },
                }
            } else {
                DecoderModel { key: d.key, peer: d.peer, nonce: d.nonce + 1, remaining: rem, buf }
            }
        },
    }
}

/// What ingesting one chunk reports.
pub open spec fn recv_effect(d: DecoderModel, enc: Seq<u8>, dlen: Option<int>) -> RecvEffect {
    match dlen {
        None => RecvEffect::DecryptFailed,
        Some(n) => {
            let rem = if d.remaining >= n {
                d.remaining - n
            } else {
                0
            };
            if rem == 0 {
                match parse_message_model(d.buf + enc) {
                    ParseModel::Complete(m) => RecvEffect::Delivered(m),
                    ParseModel::Underflow(_) => RecvEffect::AwaitingMore,
                    ParseModel::Error => RecvEffect::ParseFailed,
                }
            } else {
                RecvEffect::AwaitingMore
            }
        },
    }
}

/// Stateful decoder of one remote peer's encrypted stream.
pub struct EncryptedMessageDecoder {
    precomputed_key: Vec<u8>,
    remote_nonce: u64,
    peer_id: String,
    input_remaining: u64,
    buf: Vec<u8>,
}

impl View for EncryptedMessageDecoder {
    type V = DecoderModel;

    closed spec fn view(&self) -> DecoderModel {
        DecoderModel {
            key: self.precomputed_key@,
            peer: self.peer_id@,
            nonce: self.remote_nonce as int,
            remaining: self.input_remaining as int,
            buf: self.buf@,
        }
    }
}

impl EncryptedMessageDecoder {
    /// A fresh session: the shared key, the peer's starting nonce, an
    /// empty buffer and nothing outstanding.
    pub fn new(precomputed_key: Vec<u8>, remote_nonce: u64, peer_id: String) -> (r: Self)
        ensures
            r@ == (DecoderModel {
                key: precomputed_key@,
                peer: peer_id@,
                nonce: remote_nonce as int,
                remaining: 0,
                buf: Seq::<u8>::empty(),
            }),
    {
        let r = Self { precomputed_key, remote_nonce, peer_id, input_remaining: 0, buf: Vec::new() };
        proof {
            assert(r@.buf =~= Seq::<u8>::empty());
        }
        r
    }

    /// The nonce the next chunk must be decrypted against.
    pub fn current_nonce(&self) -> (r: u64)
        ensures
            r as int == self@.nonce,
    {
        self.remote_nonce
    }

    /// Read the nonce for this decryption and advance the counter.
    fn nonce_fetch_increment(&mut self) -> (r: u64)
        requires
            old(self)@.nonce < u64::MAX,
        ensures
            r as int == old(self)@.nonce,
            final(self)@ == (DecoderModel { nonce: old(self)@.nonce + 1, ..old(self)@ }),
    {
        let current = self.remote_nonce;
        self.remote_nonce = self.remote_nonce + 1;
        current
    }

    /// Ingest one received chunk. `enc` is the chunk's raw (encrypted)
    /// body; `decrypted_len` is the outcome of decrypting it with the
    /// shared key and the current nonce — the plaintext length on
    /// success, `None` on failure. The nonce advances exactly once
    /// whatever the outcome.
    pub fn recv_msg(&mut self, enc: &Vec<u8>, decrypted_len: Option<u64>) -> (r: RecvOutcome)
        requires
            old(self)@.nonce < u64::MAX,
            enc@.len() <= CHUNK_CONTENT_MAX,
        ensures
            final(self)@ == recv_transition(old(self)@, enc@, dlen_model(decrypted_len)),
            r@ == recv_effect(old(self)@, enc@, dlen_model(decrypted_len)),
    {
        let _nonce = self.nonce_fetch_increment();
        match decrypted_len {
            None => RecvOutcome::DecryptFailed,
            Some(n) => {
                if self.input_remaining >= n {
                    self.input_remaining = self.input_remaining - n;
                } else {
                    self.input_remaining = 0;
                }
                let mut i: usize = 0;
                let ghost buf_before = self.buf@;
                while i < enc.len()
                    invariant
                        i <= enc.len(),
                        self.buf@ == buf_before + enc@.subrange(0, i as int),
                        self@.key == old(self)@.key,
                        self@.peer == old(self)@.peer,
                        self@.nonce == old(self)@.nonce + 1,
                        self.input_remaining as int == ({
                            let m = dlen_model(decrypted_len)->Some_0;
                            if old(self)@.remaining >= m {
                                old(self)@.remaining - m
                            } else {
                                0
                            }
                        }),
                    decreases enc.len() - i,
                {
                    self.buf.push(enc[i]);
                    proof {
                        assert(buf_before + enc@.subrange(0, i as int) + seq![enc@[i as int]]
                            =~= buf_before + enc@.subrange(0, i as int + 1));
                    }
                    i = i + 1;
                }
                proof {
                    assert(buf_before + enc@.subrange(0, enc@.len() as int) =~= buf_before + enc@);
                }
                if self.input_remaining == 0 {
                    match parse_message(&self.buf) {
                        MessageParse::Complete(msg) => {
                            self.buf.clear();
                            proof {
                                assert(self.buf@ =~= Seq::<u8>::empty());
                            }
                            RecvOutcome::Delivered(msg)
                        },
                        MessageParse::Underflow(bytes) => {
                            self.input_remaining = bytes;
                            RecvOutcome::AwaitingMore
                        },
                        MessageParse::Error => RecvOutcome::ParseFailed,
                    }
                } else {
                    RecvOutcome::AwaitingMore
                }
            },
        }
    }
}

/// The decoder state after ingesting a whole sequence of chunk events,
/// each an encrypted body with its decryption outcome.
pub open spec fn run(d: DecoderModel, evs: Seq<(Seq<u8>, Option<int>)>) -> DecoderModel
    decreases evs.len(),
{
    if evs.len() == 0 {
        d
    } else {
        run(recv_transition(d, evs[0].0, evs[0].1), evs.drop_first())
    }
}

/// Every application message delivered while ingesting a sequence of
/// chunk events, in delivery order.
pub open spec fn run_deliveries(d: DecoderModel, evs: Seq<(Seq<u8>, Option<int>)>) -> Seq<Seq<u8>>
    decreases evs.len(),
{
    if evs.len() == 0 {
        Seq::empty()
    } else {
        let rest = run_deliveries(recv_transition(d, evs[0].0, evs[0].1), evs.drop_first());
        match recv_effect(d, evs[0].0, evs[0].1) {
            RecvEffect::Delivered(m) => seq![m] + rest,
            _ => rest,
        }
    }
}

/// The nonce counter after any sequence of ingest calls — successes and
/// failures alike — is its starting value plus the number of calls.
pub proof fn lemma_nonce_counts_calls(d: DecoderModel, evs: Seq<(Seq<u8>, Option<int>)>)
    ensures
        run(d, evs).nonce == d.nonce + evs.len(),
    decreases evs.len(),
{
    if evs.len() == 0 {
    } else {
        lemma_nonce_counts_calls(recv_transition(d, evs[0].0, evs[0].1), evs.drop_first());
    }
}

/// A chunk whose decryption fails delivers no application message, yet
/// the nonce counter still advances by exactly one; buffer and
/// missing-byte count stand as they were.
pub proof fn lemma_decrypt_failure_delivers_nothing(d: DecoderModel, enc: Seq<u8>)
    ensures
        recv_effect(d, enc, None) == RecvEffect::DecryptFailed,
        !(recv_effect(d, enc, None) is Delivered),
        recv_transition(d, enc, None).nonce == d.nonce + 1,
        recv_transition(d, enc, None).buf == d.buf,
        recv_transition(d, enc, None).remaining == d.remaining,
{
}

/// The events of delivering these chunk bodies in order, each decrypting
/// successfully to as many plaintext bytes as its body holds.
pub open spec fn chunk_events(chunks: Seq<Seq<u8>>) -> Seq<(Seq<u8>, Option<int>)> {
    chunks.map_values(|c: Seq<u8>| (c, Some(c.len() as int)))
}

/// Plaintext bytes still owed while the reassembly of `m` stands at
/// byte `n`: first toward the four length-frame bytes, then toward the
/// declared end of the message.
pub open spec fn reassembly_debt(m: Seq<u8>, n: int) -> int {
    if n < 4 {
        4 - n
    } else {
        m.len() - n
    }
}

proof fn lemma_reassembly_from(d: DecoderModel, m: Seq<u8>, chunks: Seq<Seq<u8>>, n: int)
    requires
        valid_message(m),
        chunks.len() >= 1,
        forall|i: int| 0 <= i < chunks.len() ==> chunks[i].len() > 0,
        0 <= n < m.len(),
        d.buf == m.subrange(0, n),
        d.remaining == if n == 0 {
            0int
        } else {
            reassembly_debt(m, n)
        },
        chunks.flatten() == m.subrange(n, m.len() as int),
    ensures
        run_deliveries(d, chunk_events(chunks)) == seq![message_body(m)],
        run(d, chunk_events(chunks)).remaining == 0,
        run(d, chunk_events(chunks)).buf == Seq::<u8>::empty(),
    decreases chunks.len(),
{
    let evs = chunk_events(chunks);
    let c = chunks[0];
    let rest = chunks.drop_first();
    assert(evs[0] == (c, Some(c.len() as int)));
    assert(chunks.flatten() == c + rest.flatten());
    assert(c.len() + rest.flatten().len() == m.len() - n) by {
        assert((c + rest.flatten()).len() == c.len() + rest.flatten().len());
    }
    assert(c =~= m.subrange(n, n + c.len()));
    let n1 = n + c.len() as int;
    let d1 = recv_transition(d, c, Some(c.len() as int));
    assert(d.buf + c =~= m.subrange(0, n1));

    if chunks.len() == 1 {
        assert(rest.flatten() == Seq::<u8>::empty());
        assert(n1 == m.len());
        assert(m.subrange(0, n1) =~= m);
        // The debt never exceeds what the final chunk supplies.
        assert(d1.remaining == 0);
        assert(parse_message_model(m) == ParseModel::Complete(message_body(m)));
        assert(d1.buf =~= Seq::<u8>::empty());
        assert(recv_effect(d, c, Some(c.len() as int)) == RecvEffect::Delivered(message_body(m)));
        let empty_evs = Seq::<(Seq<u8>, Option<int>)>::empty();
        assert(evs.drop_first() =~= empty_evs);
        assert(run_deliveries(d1, empty_evs) == Seq::<Seq<u8>>::empty());
        assert(run(d1, empty_evs) == d1);
        assert(run(d, evs) == d1);
        assert(run_deliveries(d, evs) == seq![message_body(m)] + Seq::<Seq<u8>>::empty());
        assert(seq![message_body(m)] + Seq::<Seq<u8>>::empty() =~= seq![message_body(m)]);
    } else {
        assert(rest.len() >= 1);
        assert(rest.flatten() == rest[0] + rest.drop_first().flatten());
        assert(rest.flatten().len() > 0);
        assert(n1 < m.len());
        // The extended buffer is still a proper prefix, so the parse —
        // when it happens at all — reports exactly the remaining debt.
        if n1 >= 4 {
            assert(be32_of(m.subrange(0, n1)) == be32_of(m));
        }
        assert(d1.buf == m.subrange(0, n1));
        assert(d1.remaining == reassembly_debt(m, n1));
        assert(!(recv_effect(d, c, Some(c.len() as int)) is Delivered));
        assert(rest.flatten() =~= m.subrange(n1, m.len() as int)) by {
            assert(chunks.flatten() =~= c + rest.flatten());
            assert(forall|i: int|
                0 <= i < rest.flatten().len() ==> rest.flatten()[i] == chunks.flatten()[c.len()
                    + i]);
        }
        assert(forall|i: int| 0 <= i < rest.len() ==> rest[i].len() > 0);
        lemma_reassembly_from(d1, m, rest, n1);
        assert(evs.drop_first() =~= chunk_events(rest));
        assert(run_deliveries(d, evs) == run_deliveries(d1, chunk_events(rest)));
        assert(run(d, evs) == run(d1, chunk_events(rest)));
    }
}

/// Round trip of chunked reassembly: a message of total encoded length
/// `L`, delivered as nonempty chunks whose bodies concatenate to the
/// message — so the declared plaintext accounting sums to exactly `L` —
/// with no decryption failures, delivers exactly the one application
/// message that delivering it as a single unsplit chunk of length `L`
/// delivers, and leaves the decoder ready for the next message.
pub proof fn lemma_chunked_round_trip(d: DecoderModel, m: Seq<u8>, chunks: Seq<Seq<u8>>)
    requires
        d.remaining == 0,
        d.buf == Seq::<u8>::empty(),
        valid_message(m),
        chunks.len() >= 1,
        forall|i: int| 0 <= i < chunks.len() ==> chunks[i].len() > 0,
        chunks.flatten() == m,
    ensures
        run_deliveries(d, chunk_events(chunks)) == seq![message_body(m)],
        run_deliveries(d, chunk_events(chunks)) == run_deliveries(d, chunk_events(seq![m])),
        run(d, chunk_events(chunks)).remaining == 0,
        run(d, chunk_events(chunks)).buf == Seq::<u8>::empty(),
{
    assert(d.buf =~= m.subrange(0, 0));
    assert(m.subrange(0, m.len() as int) =~= m);
    lemma_reassembly_from(d, m, chunks, 0);
    let single = seq![m];
    assert(single.flatten() =~= m) by {
        single.lemma_flatten_one_element();
    }
    assert(forall|i: int| 0 <= i < single.len() ==> single[i].len() > 0);
    lemma_reassembly_from(d, m, single, 0);
}

} // verus!

//! Routing of captured segments to per-remote-address workers.
//!
//! The orchestrator processes one tagged segment at a time from its
//! sequential inbox. Each segment's raw bytes are relayed first —
//! toward the local virtual interface when the segment is incoming,
//! toward the outbound path with a substituted source address when
//! outgoing — unconditionally, whatever decoding later makes of it.
//! The segment is then forwarded to the worker owning its remote
//! address; a first-seen address gets a fresh worker, constructed from
//! the shared identity, and workers are never evicted. Each worker has
//! its own sequential inbox and owns one decoder session, so per-peer
//! nonce and buffer state is never touched by two segments at once.
//!
//! Relay itself and decryption are outside collaborators: relay is
//! returned to the caller as a [`RelayAction`] to perform, and a
//! worker's step consumes the decryption outcome for the chunk it is
//! about to ingest.

use crate::msg_decoder::{
    dlen_model, recv_effect, recv_transition, DecoderModel, EncryptedMessageDecoder, RecvEffect,
    RecvOutcome, CHUNK_CONTENT_MAX,
};
use std::collections::HashMap;
use vstd::prelude::*;

verus! {

broadcast use vstd::std_specs::hash::group_hash_axioms;

/// The monitored node's identity as the decoders need it: the peer
/// identifier, the precomputed shared key, and the peer's starting
/// nonce. Loading it from disk is the caller's business.
pub struct Identity {
    pub peer_id: String,
    pub precomputed_key: Vec<u8>,
    pub initial_nonce: u64,
}

/// The durable sink decoded application messages are delivered to.
pub struct MessageStore {
    messages: Vec<Vec<u8>>,
}

impl View for MessageStore {
    type V = Seq<Seq<u8>>;

    closed spec fn view(&self) -> Seq<Seq<u8>> {
        self.messages@.map_values(|v: Vec<u8>| v@)
    }
}

impl MessageStore {
    pub fn new() -> (r: MessageStore)
        ensures
            r@ == Seq::<Seq<u8>>::empty(),
    {
        let r = MessageStore { messages: Vec::new() };
        proof {
            assert(r@ =~= Seq::<Seq<u8>>::empty());
        }
        r
    }

    /// Append one delivered message.
    fn record(&mut self, m: Vec<u8>)
        ensures
            final(self)@ == old(self)@.push(m@),
    {
        self.messages.push(m);
        proof {
            assert(self@ =~= old(self)@.push(m@));
        }
    }

    pub fn len(&self) -> (r: usize)
        ensures
            r == self@.len(),
    {
        self.messages.len()
    }

    pub fn message(&self, i: usize) -> (r: &Vec<u8>)
        requires
            i < self@.len(),
        ensures
            r@ == self@[i as int],
    {
        &self.messages[i]
    }
}

/// One captured TCP payload, tagged with its direction and the remote
/// address it belongs to.
pub struct RawPacketMessage {
    pub remote_addr: u64,
    pub incoming: bool,
    pub payload: Vec<u8>,
}

impl RawPacketMessage {
    pub fn is_incoming(&self) -> (r: bool)
        ensures
            r == self.incoming,
    {
        self.incoming
    }

    pub fn remote_addr(&self) -> (r: u64)
        ensures
            r == self.remote_addr,
    {
        self.remote_addr
    }
}

/// What the caller must do with a segment's raw bytes: hand them to the
/// local virtual interface, or send them to the network with the given
/// substituted source address.
#[derive(Clone, Copy, PartialEq, Eq, Structural, Debug)]
pub enum RelayAction {
    ToLocal { address: u64 },
    ToInternet { address: u64 },
}

/// The relay every segment gets, decided by its direction alone.
pub open spec fn relay_model(incoming: bool, local_address: u64, fake_address: u64) -> RelayAction {
    if incoming {
        RelayAction::ToLocal { address: local_address }
    } else {
        RelayAction::ToInternet { address: fake_address }
    }
}

/// The worker owning one remote address: its decoder session and its
/// sequential inbox of not yet ingested segments.
pub struct Peer {
    pub addr: u64,
    pub decoder: EncryptedMessageDecoder,
    pub inbox: Vec<RawPacketMessage>,
}

/// What a fresh worker's decoder starts as.
pub open spec fn fresh_decoder_model(id: &Identity) -> DecoderModel {
    DecoderModel {
        key: id.precomputed_key@,
        peer: id.peer_id@,
        nonce: id.initial_nonce as int,
        remaining: 0,
        buf: Seq::<u8>::empty(),
    }
}

/// Everything an orchestrator is constructed from.
pub struct PacketOrchestratorArgs {
    pub local_identity: Identity,
    pub fake_address: u64,
    pub local_address: u64,
    pub db: MessageStore,
}

/// Main packet router and worker supervisor.
pub struct PacketOrchestrator {
    pub remotes: HashMap<u64, Peer>,
    pub local_identity: Identity,
    pub db: MessageStore,
    pub fake_address: u64,
    pub local_address: u64,
}

/// Copy a byte vector; the copy's contents equal the original's.
fn copy_bytes(v: &Vec<u8>) -> (r: Vec<u8>)
    ensures
        r@ == v@,
{
    let mut r: Vec<u8> = Vec::new();
    let mut i: usize = 0;
    while i < v.len()
        invariant
            i <= v.len(),
            r@ == v@.subrange(0, i as int),
        decreases v.len() - i,
    {
        r.push(v[i]);
        proof {
            assert(v@.subrange(0, i as int) + seq![v@[i as int]] =~= v@.subrange(0, i as int + 1));
        }
        i = i + 1;
    }
    proof {
        assert(v@.subrange(0, v@.len() as int) =~= v@);
    }
    r
}

impl PacketOrchestrator {
    /// No worker holds an over-long chunk in its inbox: every queued
    /// payload fits the chunk frame.
    pub open spec fn wf(&self) -> bool {
        forall|a: u64| #[trigger]
            self.remotes@.contains_key(a) ==> forall|i: int|
                0 <= i < self.remotes@[a].inbox@.len() ==> self.remotes@[a].inbox@[i].payload@.len()
                    <= CHUNK_CONTENT_MAX
    }

    pub fn new(args: PacketOrchestratorArgs) -> (r: Self)
        ensures
            r.remotes@ == Map::<u64, Peer>::empty(),
            r.local_identity == args.local_identity,
            r.db == args.db,
            r.fake_address == args.fake_address,
            r.local_address == args.local_address,
            r.wf(),
    {
        Self {
            remotes: HashMap::new(),
            local_identity: args.local_identity,
            db: args.db,
            fake_address: args.fake_address,
            local_address: args.local_address,
        }
    }

    /// A fresh worker for one remote address, its decoder constructed
    /// from the shared identity, its inbox empty.
    fn spawn_peer(&self, addr: u64) -> (p: Peer)
        ensures
            p.addr == addr,
            p.decoder@ == fresh_decoder_model(&self.local_identity),
            p.inbox@ == Seq::<RawPacketMessage>::empty(),
    {
        let key = copy_bytes(&self.local_identity.precomputed_key);
        let decoder = EncryptedMessageDecoder::new(
            key,
            self.local_identity.initial_nonce,
            self.local_identity.peer_id.clone(),
        );
        let p = Peer { addr, decoder, inbox: Vec::new() };
        proof {
            assert(p.inbox@ =~= Seq::<RawPacketMessage>::empty());
        }
        p
    }

    /// The relay every segment gets before any decoding: incoming
    /// segments go to the local virtual interface, outgoing ones to the
    /// network under the substituted source address.
    pub fn relay(&self, msg: &RawPacketMessage) -> (r: RelayAction)
        ensures
            r == relay_model(msg.incoming, self.local_address, self.fake_address),
    {
        if msg.is_incoming() {
            RelayAction::ToLocal { address: self.local_address }
        } else {
            RelayAction::ToInternet { address: self.fake_address }
        }
    }

    /// Handle one tagged segment: relay it unconditionally, then hand it
    /// to its remote address's worker, spawning that worker on first
    /// sight of the address. The returned action is the relay the caller
    /// must perform.
    pub fn recv(&mut self, msg: RawPacketMessage) -> (r: RelayAction)
        requires
            old(self).wf(),
            msg.payload@.len() <= CHUNK_CONTENT_MAX,
        ensures
            final(self).wf(),
            r == relay_model(msg.incoming, old(self).local_address, old(self).fake_address),
            final(self).local_identity == old(self).local_identity,
            final(self).db == old(self).db,
            final(self).fake_address == old(self).fake_address,
            final(self).local_address == old(self).local_address,
            final(self).remotes@.dom() == old(self).remotes@.dom().insert(msg.remote_addr),
            final(self).remotes@ == old(self).remotes@.insert(
                msg.remote_addr,
                final(self).remotes@[msg.remote_addr],
            ),
            old(self).remotes@.contains_key(msg.remote_addr) ==> {
                let p0 = old(self).remotes@[msg.remote_addr];
                let p1 = final(self).remotes@[msg.remote_addr];
                &&& final(self).remotes@.dom() == old(self).remotes@.dom()
                &&& p1.addr == p0.addr
                &&& p1.decoder == p0.decoder
                &&& p1.inbox@ == p0.inbox@.push(msg)
            },
            !old(self).remotes@.contains_key(msg.remote_addr) ==> {
                let p1 = final(self).remotes@[msg.remote_addr];
                &&& p1.addr == msg.remote_addr
                &&& p1.decoder@ == fresh_decoder_model(&old(self).local_identity)
                &&& p1.inbox@ == seq![msg]
            },
    {
        let addr = msg.remote_addr();
        let action = self.relay(&msg);
        match self.remotes.remove(&addr) {
            Some(mut peer) => {
                peer.inbox.push(msg);
                self.remotes.insert(addr, peer);
                proof {
                    assert(self.remotes@ =~= old(self).remotes@.insert(
                        addr,
                        self.remotes@[addr],
                    ));
                    assert(self.remotes@.dom() =~= old(self).remotes@.dom().insert(addr));
                    assert(self.remotes@.dom() =~= old(self).remotes@.dom());
                }
            },
            None => {
                let mut peer = self.spawn_peer(addr);
                peer.inbox.push(msg);
                self.remotes.insert(addr, peer);
                proof {
                    assert(self.remotes@[addr].inbox@ =~= seq![msg]);
                    assert(self.remotes@ =~= old(self).remotes@.insert(
                        addr,
                        self.remotes@[addr],
                    ));
                    assert(self.remotes@.dom() =~= old(self).remotes@.dom().insert(addr));
                }
            },
        }
        action
    }

    /// How many workers exist.
    pub fn worker_count(&self) -> (r: usize)
        ensures
            r == self.remotes@.len(),
    {
        self.remotes.len()
    }

    pub fn has_worker(&self, addr: u64) -> (r: bool)
        ensures
            r == self.remotes@.contains_key(addr),
    {
        self.remotes.contains_key(&addr)
    }

    /// Let one worker ingest the oldest segment of its inbox, given the
    /// decryption outcome for that segment's chunk. Nothing happens for
    /// an unknown address, an empty inbox, or a session whose nonce
    /// counter is exhausted. A delivered application message goes to the
    /// store; all other effects are worker-local.
    pub fn worker_step(&mut self, addr: u64, decrypted_len: Option<u64>) -> (r: Option<RecvOutcome>)
        requires
            old(self).wf(),
        ensures
            final(self).wf(),
            final(self).local_identity == old(self).local_identity,
            final(self).fake_address == old(self).fake_address,
            final(self).local_address == old(self).local_address,
            final(self).remotes@.dom() == old(self).remotes@.dom(),
            !worker_can_step(old(self).remotes@, addr) ==> r is None && final(self).remotes@ == old(
                self,
            ).remotes@ && final(self).db == old(self).db,
            worker_can_step(old(self).remotes@, addr) ==> {
                let p0 = old(self).remotes@[addr];
                let m = p0.inbox@[0];
                let eff = recv_effect(p0.decoder@, m.payload@, dlen_model(decrypted_len));
                let p1 = final(self).remotes@[addr];
                &&& final(self).remotes@ == old(self).remotes@.insert(addr, p1)
                &&& p1.addr == p0.addr
                &&& p1.inbox@ == p0.inbox@.drop_first()
                &&& p1.decoder@ == recv_transition(
                    p0.decoder@,
                    m.payload@,
                    dlen_model(decrypted_len),
                )
                &&& (r matches Some(out) && out@ == eff)
                &&& (eff matches RecvEffect::Delivered(body) ==> final(self).db@ == old(
                    self,
                ).db@.push(body))
                &&& !(eff is Delivered) ==> final(self).db@ == old(self).db@
            },
    {
        match self.remotes.remove(&addr) {
            None => {
                proof {
                    assert(self.remotes@ =~= old(self).remotes@);
                }
                None
            },
            Some(mut peer) => {
                if peer.inbox.len() == 0 {
                    self.remotes.insert(addr, peer);
                    proof {
                        assert(self.remotes@ =~= old(self).remotes@);
                        assert(self.remotes@.dom() =~= old(self).remotes@.dom());
                    }
                    None
                } else if peer.decoder.current_nonce() == u64::MAX {
                    self.remotes.insert(addr, peer);
                    proof {
                        assert(self.remotes@ =~= old(self).remotes@);
                        assert(self.remotes@.dom() =~= old(self).remotes@.dom());
                    }
                    None
                } else {
                    let msg = peer.inbox.remove(0);
                    let out = peer.decoder.recv_msg(&msg.payload, decrypted_len);
                    let result = match out {
                        RecvOutcome::Delivered(body) => {
                            let copy = copy_bytes(&body);
                            self.db.record(body);
                            RecvOutcome::Delivered(copy)
                        },
                        other => other,
                    };
                    self.remotes.insert(addr, peer);
                    proof {
                        assert(self.remotes@ =~= old(self).remotes@.insert(
                            addr,
                            self.remotes@[addr],
                        ));
                        assert(self.remotes@.dom() =~= old(self).remotes@.dom());
                    }
                    Some(result)
                }
            },
        }
    }
}

/// Whether a worker exists for this address with a segment waiting and a
/// nonce counter still usable.
pub open spec fn worker_can_step(remotes: Map<u64, Peer>, addr: u64) -> bool {
    &&& remotes.contains_key(addr)
    &&& remotes[addr].inbox@.len() > 0
    &&& remotes[addr].decoder@.nonce < u64::MAX
}

/// The set of worker addresses after the orchestrator has handled
/// segments for each address in turn: a first-seen address creates its
/// worker, a seen one reuses it.
pub open spec fn workers_after(existing: Set<u64>, addrs: Seq<u64>) -> Set<u64>
    decreases addrs.len(),
{
    if addrs.len() == 0 {
        existing
    } else {
        workers_after(existing.insert(addrs[0]), addrs.drop_first())
    }
}

proof fn lemma_workers_after_union(existing: Set<u64>, addrs: Seq<u64>)
    ensures
        workers_after(existing, addrs) == existing.union(addrs.to_set()),
    decreases addrs.len(),
{
    if addrs.len() == 0 {
        assert(existing.union(addrs.to_set()) =~= existing);
    } else {
        let rest = addrs.drop_first();
        lemma_workers_after_union(existing.insert(addrs[0]), rest);
        assert forall|x: u64| addrs.to_set().contains(x) implies existing.insert(
            addrs[0],
        ).union(rest.to_set()).contains(x) by {
            let i = choose|i: int| 0 <= i < addrs.len() && addrs[i] == x;
            if i > 0 {
                assert(rest[i - 1] == x);
                assert(rest.contains(x));
            }
        }
        assert forall|x: u64| rest.to_set().contains(x) implies addrs.to_set().contains(x) by {
            let i = choose|i: int| 0 <= i < rest.len() && rest[i] == x;
            assert(addrs[i + 1] == x);
        }
        assert(addrs.to_set().contains(addrs[0]));
        assert(existing.insert(addrs[0]).union(rest.to_set()) =~= existing.union(addrs.to_set()));
    }
}

/// Delivering segments for a sequence of remote addresses, starting with
/// no workers, leaves exactly the workers of the addresses seen — and
/// for K distinct addresses that is exactly K workers, redelivery for a
/// seen address creating none.
pub proof fn lemma_one_worker_per_address(addrs: Seq<u64>)
    ensures
        workers_after(Set::<u64>::empty(), addrs) == addrs.to_set(),
        addrs.no_duplicates() ==> workers_after(Set::<u64>::empty(), addrs).len() == addrs.len(),
{
    lemma_workers_after_union(Set::<u64>::empty(), addrs);
    assert(Set::<u64>::empty().union(addrs.to_set()) =~= addrs.to_set());
    if addrs.no_duplicates() {
        addrs.unique_seq_to_set();
    }
}

} // verus!

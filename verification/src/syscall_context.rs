//! Correlation of socket syscall entries with their exits.
//!
//! The entry-side probe of an instrumented syscall captures the call's
//! arguments as a [`SyscallContext`] and pushes it, keyed by process id,
//! into a [`ContextTable`]; the exit-side probe pops it, pairs it with the
//! syscall's numeric result and the elapsed time, and emits an
//! [`EventEnvelope`] over the transport. Per process id the table is a
//! two-state machine, *empty* or *pending*: at most one pending context
//! exists per process id at any instant.
//!
//! A second push while a context is still pending is a stale correlation:
//! the stale entry is deleted, a diagnostic envelope with a fixed sentinel
//! payload is emitted, and — deliberately preserved behaviour — the new
//! context is discarded rather than stored.
//!
//! The host derives the table key from the low half of the combined
//! process/thread id word it is handed, and reports the high half as the
//! process id of diagnostic events.

use crate::envelope::{send_model, DataTag, EnvelopeModel, EventEnvelope, EventId, RingChannel, SocketId};
use std::collections::HashMap;
use vstd::prelude::*;

verus! {

broadcast use vstd::std_specs::hash::group_hash_axioms;

/// Key of one pending context: the process id, taken from the low half of
/// the combined id word.
#[derive(Clone, Copy, PartialEq, Eq, Structural, Debug)]
pub struct SyscallContextKey {
    pub pid: u32,
}

/// The table key an id word maps to.
pub open spec fn key_of(id: u64) -> u32 {
    (id & 0xffff_ffff) as u32
}

/// The process id diagnostic events report for an id word.
pub open spec fn diag_pid_of(id: u64) -> u32 {
    (id >> 32) as u32
}

impl SyscallContextKey {
    pub fn from_id(id: u64) -> (r: SyscallContextKey)
        ensures
            r.pid == key_of(id),
    {
        SyscallContextKey { pid: #[verifier::truncate] ((id & 0xffff_ffff) as u32) }
    }
}

/// Captured entry-side arguments of one socket syscall, held until the
/// matching exit is observed. Buffer arguments the kernel copies by
/// pointer are kept as a pointer/length pair; arguments already copied in
/// at the entry site are kept as an inline byte span. `Empty` is the
/// placeholder variant; its fields keep it as large as the largest real
/// variant so that every variant shares one fixed-size representation in
/// the host's table.
#[derive(Clone)]
pub enum SyscallContext {
    Empty { fake_fd: u32, fake_data: Vec<u8> },
    Write { fd: u32, data_ptr: usize, data_len: usize },
    SendTo { fd: u32, data_ptr: usize, data_len: usize },
    SendMsg { fd: u32, message: Vec<u8> },
    Read { fd: u32, data_ptr: usize, data_len: usize },
    RecvFrom { fd: u32, data_ptr: usize, data_len: usize },
    Connect { fd: u32, address: Vec<u8> },
}

/// One pending context together with its entry timestamp.
#[derive(Clone)]
pub struct SyscallContextFull {
    pub inner: SyscallContext,
    pub ts: u64,
}

impl SyscallContext {
    /// The file descriptor the context was captured for.
    pub open spec fn fd_spec(&self) -> u32 {
        match *self {
            SyscallContext::Empty { fake_fd, .. } => fake_fd,
            SyscallContext::Write { fd, .. } => fd,
            SyscallContext::SendTo { fd, .. } => fd,
            SyscallContext::SendMsg { fd, .. } => fd,
            SyscallContext::Read { fd, .. } => fd,
            SyscallContext::RecvFrom { fd, .. } => fd,
            SyscallContext::Connect { fd, .. } => fd,
        }
    }

    /// The placeholder value every table slot starts from.
    pub fn empty() -> (r: Self)
        ensures
            r matches SyscallContext::Empty { fake_fd, fake_data } && fake_fd == 0
                && fake_data@.len() == 0,
    {
        SyscallContext::Empty { fake_fd: 0, fake_data: Vec::new() }
    }

    pub fn fd(&self) -> (r: u32)
        ensures
            r == self.fd_spec(),
    {
        match self {
            SyscallContext::Empty { fake_fd, .. } => *fake_fd,
            SyscallContext::Write { fd, .. } => *fd,
            SyscallContext::SendTo { fd, .. } => *fd,
            SyscallContext::SendMsg { fd, .. } => *fd,
            SyscallContext::Read { fd, .. } => *fd,
            SyscallContext::RecvFrom { fd, .. } => *fd,
            SyscallContext::Connect { fd, .. } => *fd,
        }
    }

    /// Store this context as pending for the id's process, stamped with
    /// the entry time `now`. If a stale context is already pending for
    /// that process, delete it instead and hand back the diagnostic
    /// envelope to emit; the new context is discarded in that case.
    pub fn push(self, id: u64, now: u64, map: &mut ContextTable) -> (r: Option<EventEnvelope>)
        ensures
            final(map)@ == push_map(old(map)@, key_of(id), self, now),
            old(map)@.contains_key(key_of(id)) ==> (r matches Some(e) && e@
                == debug_envelope_model(id, now)),
            !old(map)@.contains_key(key_of(id)) ==> r is None,
    {
        let key = SyscallContextKey::from_id(id);
        if map.table.contains_key(&key.pid) {
            map.table.remove(&key.pid);
            let event_id = e_unknown_fd(id, now);
            let mut payload: Vec<u8> = Vec::new();
            payload.push(0);
            payload.push(0);
            payload.push(0);
            payload.push(0);
            payload.push(0xde);
            payload.push(0xad);
            payload.push(0xbe);
            payload.push(0xef);
            proof {
                assert(payload@ =~= sentinel_payload());
            }
            Some(EventEnvelope { event_id, tag: DataTag::Debug, payload })
        } else {
            map.table.insert(key.pid, SyscallContextFull { inner: self, ts: now });
            None
        }
    }

    /// Take the pending context for the id's process, if one exists,
    /// together with its entry timestamp; on an empty state this is a
    /// no-op, the correlation already consumed or never begun.
    pub fn pop_with(id: u64, map: &mut ContextTable) -> (r: Option<(SyscallContext, u64)>)
        ensures
            final(map)@ == pop_map(old(map)@, key_of(id)),
            r == pop_result(old(map)@, key_of(id)),
    {
        let key = SyscallContextKey::from_id(id);
        match map.table.remove(&key.pid) {
            Some(full) => Some((full.inner, full.ts)),
            None => None,
        }
    }
}

/// The identity of the instant diagnostic event reporting a stale
/// correlation: no known descriptor, and start and end both `now`,
/// because the event is instant.
fn e_unknown_fd(id: u64, now: u64) -> (r: EventId)
    ensures
        r == (EventId {
            socket_id: SocketId { pid: diag_pid_of(id), fd: 0 },
            ts_start: now,
            ts_end: now,
        }),
{
    let socket_id = SocketId { pid: #[verifier::truncate] ((id >> 32) as u32), fd: 0 };
    EventId::new(socket_id, now, now)
}

/// Fixed-capacity table of pending contexts, one slot per process id.
pub struct ContextTable {
    table: HashMap<u32, SyscallContextFull>,
}

impl View for ContextTable {
    type V = Map<u32, SyscallContextFull>;

    closed spec fn view(&self) -> Map<u32, SyscallContextFull> {
        self.table@
    }
}

impl ContextTable {
    pub fn new() -> (r: ContextTable)
        ensures
            r@ == Map::<u32, SyscallContextFull>::empty(),
    {
        ContextTable { table: HashMap::new() }
    }
}

/// The sentinel payload of a stale-correlation diagnostic: the big-endian
/// bytes of the marker word `0xdeadbeef`.
pub open spec fn sentinel_payload() -> Seq<u8> {
    seq![0u8, 0u8, 0u8, 0u8, 0xdeu8, 0xadu8, 0xbeu8, 0xefu8]
}

/// The diagnostic envelope a stale correlation emits.
pub open spec fn debug_envelope_model(id: u64, now: u64) -> EnvelopeModel {
    EnvelopeModel {
        pid: diag_pid_of(id),
        fd: 0,
        ts_start: now,
        ts_end: now,
        tag: DataTag::Debug,
        payload: sentinel_payload(),
    }
}

/// The table after a push: on an empty slot the context is stored with
/// its timestamp; on a pending slot the stale entry is deleted and the
/// new context discarded.
pub open spec fn push_map(
    m: Map<u32, SyscallContextFull>,
    key: u32,
    ctx: SyscallContext,
    ts: u64,
) -> Map<u32, SyscallContextFull> {
    if m.contains_key(key) {
        m.remove(key)
    } else {
        m.insert(key, SyscallContextFull { inner: ctx, ts })
    }
}

/// Whether a push on this table emits a diagnostic envelope.
pub open spec fn push_emits(m: Map<u32, SyscallContextFull>, key: u32) -> bool {
    m.contains_key(key)
}

/// The table after a pop.
pub open spec fn pop_map(m: Map<u32, SyscallContextFull>, key: u32) -> Map<
    u32,
    SyscallContextFull,
> {
    if m.contains_key(key) {
        m.remove(key)
    } else {
        m
    }
}

/// What a pop returns: the pending context and entry timestamp, if any.
pub open spec fn pop_result(m: Map<u32, SyscallContextFull>, key: u32) -> Option<
    (SyscallContext, u64),
> {
    if m.contains_key(key) {
        Some((m[key].inner, m[key].ts))
    } else {
        None
    }
}

/// A pop after a push on a free slot returns exactly the context and
/// entry timestamp that were pushed, and a second pop for the same id is
/// a no-op: it returns nothing and leaves the table as the first pop left
/// it, which is the table as it was before the push.
pub proof fn lemma_push_then_pop(
    m: Map<u32, SyscallContextFull>,
    key: u32,
    ctx: SyscallContext,
    ts: u64,
)
    requires
        !m.contains_key(key),
    ensures
        ({
            let m1 = push_map(m, key, ctx, ts);
            let m2 = pop_map(m1, key);
            &&& pop_result(m1, key) == Some((ctx, ts))
            &&& pop_result(m2, key) is None
            &&& pop_map(m2, key) == m2
            &&& m2 == m
        }),
{
    let m1 = push_map(m, key, ctx, ts);
    assert(m1 == m.insert(key, SyscallContextFull { inner: ctx, ts }));
    assert(m1.remove(key) =~= m);
}

/// Pushes and pops are independent across process ids: an operation for
/// one id never touches another id's slot, so any interleaving of
/// operations for distinct ids leaves each id's correlation exactly as
/// its own operations left it.
pub proof fn lemma_ids_independent(
    m: Map<u32, SyscallContextFull>,
    key: u32,
    other: u32,
    ctx: SyscallContext,
    ts: u64,
)
    requires
        key != other,
    ensures
        push_map(m, key, ctx, ts).contains_key(other) == m.contains_key(other),
        push_map(m, key, ctx, ts).contains_key(other) ==> push_map(m, key, ctx, ts)[other]
            == m[other],
        pop_map(m, key).contains_key(other) == m.contains_key(other),
        pop_map(m, key).contains_key(other) ==> pop_map(m, key)[other] == m[other],
        pop_result(push_map(m, key, ctx, ts), other) == pop_result(m, other),
        pop_result(pop_map(m, key), other) == pop_result(m, other),
{
}

/// Two pushes for one process id with no pop between them emit exactly
/// one diagnostic envelope — none at the first push, one at the second —
/// and leave the table with no entry for that id: the second context is
/// discarded, not stored, and the first is deleted.
pub proof fn lemma_double_push(
    m: Map<u32, SyscallContextFull>,
    key: u32,
    ctx1: SyscallContext,
    ts1: u64,
    ctx2: SyscallContext,
    ts2: u64,
)
    requires
        !m.contains_key(key),
    ensures
        ({
            let m1 = push_map(m, key, ctx1, ts1);
            let m2 = push_map(m1, key, ctx2, ts2);
            &&& !push_emits(m, key)
            &&& push_emits(m1, key)
            &&& !m2.contains_key(key)
            &&& m2 == m
        }),
{
    let m1 = push_map(m, key, ctx1, ts1);
    assert(m1.remove(key) =~= m);
}

/// Entry-site logic of an instrumented syscall: push the captured
/// context, stamped `now`, and emit the diagnostic envelope over the
/// transport if the push reported a stale correlation.
pub fn on_syscall_enter(
    map: &mut ContextTable,
    rb: &mut RingChannel,
    ctx: SyscallContext,
    id: u64,
    now: u64,
)
    requires
        old(rb).wf(),
    ensures
        final(rb).wf(),
        final(rb).cap() == old(rb).cap(),
        final(map)@ == push_map(old(map)@, key_of(id), ctx, now),
        old(map)@.contains_key(key_of(id)) ==> final(rb)@.len() > 0 && final(rb)@
            == send_model(old(rb)@, old(rb).cap(), final(rb)@.last()) && final(rb)@.last()@
            == debug_envelope_model(id, now),
        !old(map)@.contains_key(key_of(id)) ==> final(rb)@ == old(rb)@,
{
    match ctx.push(id, now, map) {
        Some(envelope) => {
            rb.send(envelope);
        },
        None => {},
    }
}

/// The envelope the exit site emits for a correlated syscall: the
/// process and the context's descriptor, the window from the entry
/// timestamp to `now`, and the syscall's numeric result as payload.
pub open spec fn exit_envelope_model(
    full: SyscallContextFull,
    id: u64,
    now: u64,
    ret: i64,
) -> EnvelopeModel {
    EnvelopeModel {
        pid: key_of(id),
        fd: full.inner.fd_spec(),
        ts_start: full.ts,
        ts_end: now,
        tag: DataTag::Data,
        payload: vstd::bytes::spec_u64_to_le_bytes(ret as u64),
    }
}

/// Exit-site logic of an instrumented syscall: pop the pending context
/// for the id's process and, if one was pending, combine it with the
/// exit time and the syscall's numeric result into a normal envelope on
/// the transport. With nothing pending the exit is uninteresting and
/// nothing is emitted.
pub fn on_syscall_exit(map: &mut ContextTable, rb: &mut RingChannel, id: u64, now: u64, ret: i64)
    requires
        old(rb).wf(),
    ensures
        final(rb).wf(),
        final(rb).cap() == old(rb).cap(),
        final(map)@ == pop_map(old(map)@, key_of(id)),
        old(map)@.contains_key(key_of(id)) ==> final(rb)@.len() > 0 && final(rb)@
            == send_model(old(rb)@, old(rb).cap(), final(rb)@.last()) && final(rb)@.last()@
            == exit_envelope_model(old(map)@[key_of(id)], id, now, ret),
        !old(map)@.contains_key(key_of(id)) ==> final(rb)@ == old(rb)@,
{
    match SyscallContext::pop_with(id, map) {
        Some((ctx, enter_ts)) => {
            let fd = ctx.fd();
            let payload = vstd::bytes::u64_to_le_bytes(#[verifier::truncate] (ret as u64));
            let event_id = EventId::new(
                SocketId { pid: SyscallContextKey::from_id(id).pid, fd },
                enter_ts,
                now,
            );
            rb.send(EventEnvelope { event_id, tag: DataTag::Data, payload });
        },
        None => {},
    }
}

} // verus!

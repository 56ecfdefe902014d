use sniffer::envelope::{DataTag, RingChannel};
use sniffer::syscall_context::{ContextTable, SyscallContext, SyscallContextKey};
use sniffer::syscall_context::{on_syscall_enter, on_syscall_exit};

const SENTINEL: [u8; 8] = [0, 0, 0, 0, 0xde, 0xad, 0xbe, 0xef];

fn id_of(high: u32, low: u32) -> u64 {
    ((high as u64) << 32) | (low as u64)
}

#[test]
fn push_then_pop_returns_pushed_context() {
    let mut table = ContextTable::new();
    let ctx = SyscallContext::Write { fd: 4, data_ptr: 0x1000, data_len: 64 };
    let id = id_of(9, 1234);

    let diag = ctx.push(id, 111, &mut table);
    assert!(diag.is_none());

    let popped = SyscallContext::pop_with(id, &mut table);
    match popped {
        Some((SyscallContext::Write { fd, data_ptr, data_len }, ts)) => {
            assert_eq!(fd, 4);
            assert_eq!(data_ptr, 0x1000);
            assert_eq!(data_len, 64);
            assert_eq!(ts, 111);
        }
        _ => panic!("expected the pushed Write context back"),
    }

    // A second pop for the same process id is a no-op.
    assert!(SyscallContext::pop_with(id, &mut table).is_none());
}

#[test]
fn double_push_emits_one_diagnostic_and_clears_entry() {
    let mut table = ContextTable::new();
    let id = id_of(7, 42);

    let first = SyscallContext::Read { fd: 5, data_ptr: 0x2000, data_len: 16 };
    assert!(first.push(id, 100, &mut table).is_none());

    let second = SyscallContext::Connect { fd: 6, address: vec![127, 0, 0, 1] };
    let diag = second.push(id, 200, &mut table).expect("stale push must emit a diagnostic");
    assert!(matches!(diag.tag, DataTag::Debug));
    assert_eq!(diag.event_id.socket_id.pid, 7); // the high half of the id word
    assert_eq!(diag.event_id.socket_id.fd, 0);
    assert_eq!(diag.event_id.ts_start, 200);
    assert_eq!(diag.event_id.ts_end, 200);
    assert_eq!(diag.payload, SENTINEL.to_vec());

    // Neither context is stored afterward.
    assert!(SyscallContext::pop_with(id, &mut table).is_none());
}

#[test]
fn contexts_are_kept_per_process_id() {
    let mut table = ContextTable::new();
    let ctx_a = SyscallContext::SendTo { fd: 1, data_ptr: 1, data_len: 1 };
    let ctx_b = SyscallContext::RecvFrom { fd: 2, data_ptr: 2, data_len: 2 };
    assert!(ctx_a.push(id_of(0, 10), 5, &mut table).is_none());
    assert!(ctx_b.push(id_of(0, 11), 6, &mut table).is_none());

    match SyscallContext::pop_with(id_of(0, 11), &mut table) {
        Some((SyscallContext::RecvFrom { fd, .. }, ts)) => {
            assert_eq!(fd, 2);
            assert_eq!(ts, 6);
        }
        _ => panic!("expected the context of process 11"),
    }
    match SyscallContext::pop_with(id_of(0, 10), &mut table) {
        Some((SyscallContext::SendTo { fd, .. }, ts)) => {
            assert_eq!(fd, 1);
            assert_eq!(ts, 5);
        }
        _ => panic!("expected the context of process 10"),
    }
}

#[test]
fn key_uses_low_half_of_id_word() {
    let key = SyscallContextKey::from_id(id_of(77, 88));
    assert_eq!(key.pid, 88);
}

#[test]
fn empty_context_is_placeholder() {
    match SyscallContext::empty() {
        SyscallContext::Empty { fake_fd, fake_data } => {
            assert_eq!(fake_fd, 0);
            assert!(fake_data.is_empty());
        }
        _ => panic!("empty() must build the Empty variant"),
    }
}

#[test]
fn correlated_exit_emits_data_envelope() {
    let mut table = ContextTable::new();
    let mut ring = RingChannel::new(8);
    let id = id_of(3, 21);

    let ctx = SyscallContext::SendMsg { fd: 9, message: vec![1, 2, 3] };
    on_syscall_enter(&mut table, &mut ring, ctx, id, 1_000);
    assert_eq!(ring.len(), 0); // no stale correlation, nothing diagnostic

    on_syscall_exit(&mut table, &mut ring, id, 1_500, -11);
    let env = ring.recv().expect("the correlated exit must emit one envelope");
    assert!(matches!(env.tag, DataTag::Data));
    assert_eq!(env.event_id.socket_id.pid, 21); // the low half keys the table
    assert_eq!(env.event_id.socket_id.fd, 9);
    assert_eq!(env.event_id.ts_start, 1_000);
    assert_eq!(env.event_id.ts_end, 1_500);
    assert_eq!(env.payload, (-11i64 as u64).to_le_bytes().to_vec());

    // The correlation is consumed; a later exit emits nothing.
    on_syscall_exit(&mut table, &mut ring, id, 1_600, 0);
    assert!(ring.recv().is_none());
}

#[test]
fn stale_push_reaches_the_transport() {
    let mut table = ContextTable::new();
    let mut ring = RingChannel::new(4);
    let id = id_of(8, 15);

    on_syscall_enter(&mut table, &mut ring, SyscallContext::empty(), id, 10);
    on_syscall_enter(&mut table, &mut ring, SyscallContext::empty(), id, 20);
    assert_eq!(ring.len(), 1);
    let env = ring.recv().unwrap();
    assert!(matches!(env.tag, DataTag::Debug));
    assert_eq!(env.payload, SENTINEL.to_vec());
}

use sniffer::capture::{classify_segment, segment_message, SegmentClass};
use sniffer::msg_decoder::RecvOutcome;
use sniffer::packet_orchestrator::{
    Identity, MessageStore, PacketOrchestrator, PacketOrchestratorArgs, RawPacketMessage,
    RelayAction,
};

fn orchestrator() -> PacketOrchestrator {
    PacketOrchestrator::new(PacketOrchestratorArgs {
        local_identity: Identity {
            peer_id: String::from("local-node"),
            precomputed_key: vec![0x11; 32],
            initial_nonce: 40,
        },
        fake_address: 0xfa4e,
        local_address: 0x10ca1,
        db: MessageStore::new(),
    })
}

fn segment(addr: u64, incoming: bool, payload: &[u8]) -> RawPacketMessage {
    RawPacketMessage { remote_addr: addr, incoming, payload: payload.to_vec() }
}

/// One message framed by a big-endian 32-bit length.
fn framed(body: &[u8]) -> Vec<u8> {
    let mut m = (body.len() as u32).to_be_bytes().to_vec();
    m.extend_from_slice(body);
    m
}

#[test]
fn one_worker_per_distinct_address() {
    let mut o = orchestrator();
    o.recv(segment(1, true, b"a"));
    o.recv(segment(2, true, b"b"));
    o.recv(segment(3, false, b"c"));
    assert_eq!(o.worker_count(), 3);

    // Redelivery for a seen address reuses its worker.
    o.recv(segment(2, false, b"d"));
    assert_eq!(o.worker_count(), 3);
    assert!(o.has_worker(1));
    assert!(o.has_worker(2));
    assert!(o.has_worker(3));
    assert!(!o.has_worker(4));

    // The reused worker queued both segments in order.
    let w = o.remotes.get(&2).unwrap();
    assert_eq!(w.inbox.len(), 2);
    assert_eq!(w.inbox[0].payload, b"b".to_vec());
    assert_eq!(w.inbox[1].payload, b"d".to_vec());
}

#[test]
fn every_segment_is_relayed_before_decoding() {
    let mut o = orchestrator();
    let a = o.recv(segment(5, true, b"in"));
    assert_eq!(a, RelayAction::ToLocal { address: 0x10ca1 });
    let a = o.recv(segment(5, false, b"out"));
    assert_eq!(a, RelayAction::ToInternet { address: 0xfa4e });
}

#[test]
fn worker_delivers_message_to_store() {
    let mut o = orchestrator();
    let m = framed(b"payload");
    o.recv(segment(9, true, &m));
    let out = o.worker_step(9, Some(m.len() as u64));
    match out {
        Some(RecvOutcome::Delivered(body)) => assert_eq!(body, b"payload".to_vec()),
        _ => panic!("the complete chunk must deliver its message"),
    }
    assert_eq!(o.db.len(), 1);
    assert_eq!(o.db.message(0), &b"payload".to_vec());
    // The inbox is drained and the nonce consumed.
    let w = o.remotes.get(&9).unwrap();
    assert_eq!(w.inbox.len(), 0);
    assert_eq!(w.decoder.current_nonce(), 41);
}

#[test]
fn failed_first_decryption_delivers_nothing_but_advances_nonce() {
    let mut o = orchestrator();
    o.recv(segment(6, true, &framed(b"secret")));
    let out = o.worker_step(6, None);
    assert!(matches!(out, Some(RecvOutcome::DecryptFailed)));
    assert_eq!(o.db.len(), 0);
    assert_eq!(o.remotes.get(&6).unwrap().decoder.current_nonce(), 41);
}

#[test]
fn worker_step_without_work_does_nothing() {
    let mut o = orchestrator();
    assert!(o.worker_step(77, Some(1)).is_none()); // no such worker
    o.recv(segment(77, true, b"x"));
    assert!(o.worker_step(77, Some(1)).is_some());
    assert!(o.worker_step(77, Some(1)).is_none()); // inbox drained
    assert_eq!(o.worker_count(), 1);
}

#[test]
fn classification_against_configured_port() {
    // The configured port of the monitored node.
    let port = 9732;
    assert_eq!(
        classify_segment(port, 9732, 54321),
        SegmentClass::Incoming { key: 54321 },
    );
    assert_eq!(
        classify_segment(port, 51234, 9732),
        SegmentClass::Outgoing { key: 51234 },
    );
    assert_eq!(classify_segment(port, 1111, 2222), SegmentClass::Ignored);
}

fn tcp_segment(source: u16, dest: u16, payload: &[u8]) -> Vec<u8> {
    let mut seg = vec![0u8; 20];
    seg[0..2].copy_from_slice(&source.to_be_bytes());
    seg[2..4].copy_from_slice(&dest.to_be_bytes());
    seg[12] = 0x50; // data offset: five 32-bit words, no options
    seg.extend_from_slice(payload);
    seg
}

#[test]
fn tcp_segments_route_end_to_end() {
    let port = 9732;
    let mut o = orchestrator();

    // Incoming: source is the monitored port; keyed by the destination.
    let m = framed(b"hello");
    let seg = tcp_segment(9732, 54321, &m);
    let msg = segment_message(port, &seg).expect("the segment touches the port");
    assert!(msg.is_incoming());
    assert_eq!(msg.remote_addr(), 54321);
    assert_eq!(msg.payload, m);
    let action = o.recv(msg);
    assert_eq!(action, RelayAction::ToLocal { address: 0x10ca1 });
    assert!(o.has_worker(54321));

    // Outgoing: destination is the monitored port; keyed by the source.
    let seg = tcp_segment(51234, 9732, b"raw");
    let msg = segment_message(port, &seg).expect("the segment touches the port");
    assert!(!msg.is_incoming());
    assert_eq!(msg.remote_addr(), 51234);
    let action = o.recv(msg);
    assert_eq!(action, RelayAction::ToInternet { address: 0xfa4e });

    // Neither port matches: ignored, no orchestrator activity.
    assert!(segment_message(port, &tcp_segment(1, 2, b"zzz")).is_none());
    assert_eq!(o.worker_count(), 2);

    // Malformed segments are ignored too.
    assert!(segment_message(port, &vec![0u8; 10]).is_none());
    let mut bad_offset = tcp_segment(9732, 1, b"");
    bad_offset[12] = 0x10; // data offset claims 4 bytes, below the fixed header
    assert!(segment_message(port, &bad_offset).is_none());

    // Delivery still works through the end-to-end path.
    let out = o.worker_step(54321, Some(m.len() as u64));
    match out {
        Some(RecvOutcome::Delivered(body)) => assert_eq!(body, b"hello".to_vec()),
        _ => panic!("the queued incoming chunk must deliver"),
    }
    assert_eq!(o.db.len(), 1);
}

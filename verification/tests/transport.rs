use sniffer::envelope::{
    decode_envelope, encode_envelope, DataTag, EventEnvelope, EventId, RingChannel, SocketId,
};

fn sample_envelope() -> EventEnvelope {
    EventEnvelope {
        event_id: EventId {
            socket_id: SocketId { pid: 4242, fd: 7 },
            ts_start: 123_456_789,
            ts_end: 987_654_321,
        },
        tag: DataTag::Data,
        payload: vec![9, 8, 7, 6, 5],
    }
}

#[test]
fn envelope_round_trips_through_wire_format() {
    let e = sample_envelope();
    let bytes = encode_envelope(&e);
    assert_eq!(bytes.len(), 25 + 5);
    let back = decode_envelope(&bytes).expect("own encoding must decode");
    assert_eq!(back.event_id.socket_id.pid, 4242);
    assert_eq!(back.event_id.socket_id.fd, 7);
    assert_eq!(back.event_id.ts_start, 123_456_789);
    assert_eq!(back.event_id.ts_end, 987_654_321);
    assert!(matches!(back.tag, DataTag::Data));
    assert_eq!(back.payload, vec![9, 8, 7, 6, 5]);
}

#[test]
fn envelope_wire_layout_is_little_endian() {
    let e = EventEnvelope {
        event_id: EventId { socket_id: SocketId { pid: 1, fd: 2 }, ts_start: 3, ts_end: 4 },
        tag: DataTag::Debug,
        payload: vec![0xaa],
    };
    let bytes = encode_envelope(&e);
    let mut expected = vec![];
    expected.extend_from_slice(&1u32.to_le_bytes());
    expected.extend_from_slice(&2u32.to_le_bytes());
    expected.extend_from_slice(&3u64.to_le_bytes());
    expected.extend_from_slice(&4u64.to_le_bytes());
    expected.push(0); // Debug tag byte
    expected.push(0xaa);
    assert_eq!(bytes, expected);
}

#[test]
fn short_records_and_unknown_tags_are_rejected() {
    assert!(decode_envelope(&vec![0; 24]).is_none());
    let mut bytes = encode_envelope(&sample_envelope());
    bytes[24] = 250; // no such tag
    assert!(decode_envelope(&bytes).is_none());
}

#[test]
fn empty_payload_decodes() {
    let e = EventEnvelope {
        event_id: EventId { socket_id: SocketId { pid: 0, fd: 0 }, ts_start: 0, ts_end: 0 },
        tag: DataTag::Debug,
        payload: vec![],
    };
    let bytes = encode_envelope(&e);
    assert_eq!(bytes.len(), 25);
    let back = decode_envelope(&bytes).unwrap();
    assert!(back.payload.is_empty());
}

fn tagged(pid: u32) -> EventEnvelope {
    EventEnvelope {
        event_id: EventId { socket_id: SocketId { pid, fd: 0 }, ts_start: 0, ts_end: 0 },
        tag: DataTag::Data,
        payload: vec![],
    }
}

#[test]
fn ring_delivers_in_order() {
    let mut ring = RingChannel::new(4);
    ring.send(tagged(1));
    ring.send(tagged(2));
    ring.send(tagged(3));
    assert_eq!(ring.len(), 3);
    assert_eq!(ring.recv().unwrap().event_id.socket_id.pid, 1);
    assert_eq!(ring.recv().unwrap().event_id.socket_id.pid, 2);
    assert_eq!(ring.recv().unwrap().event_id.socket_id.pid, 3);
    assert!(ring.recv().is_none());
}

#[test]
fn full_ring_drops_oldest() {
    let mut ring = RingChannel::new(2);
    ring.send(tagged(1));
    ring.send(tagged(2));
    ring.send(tagged(3)); // capacity exceeded: envelope 1 is dropped
    assert_eq!(ring.len(), 2);
    assert_eq!(ring.recv().unwrap().event_id.socket_id.pid, 2);
    assert_eq!(ring.recv().unwrap().event_id.socket_id.pid, 3);
    assert!(ring.recv().is_none());
}

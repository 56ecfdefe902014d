//! Classification of captured TCP segments against the monitored port.
//!
//! The capture ingress hands every TCP segment's source and destination
//! port here. A segment addressed to the configured port is outgoing
//! traffic of the monitored node, keyed by its source port; a segment
//! coming from the configured port is incoming traffic, keyed by its
//! destination port; everything else is ignored.

use crate::packet_orchestrator::RawPacketMessage;
use vstd::prelude::*;
use vstd::slice::{slice_subrange, slice_to_vec};

verus! {

/// How a captured TCP segment relates to the monitored port.
#[derive(Clone, Copy, PartialEq, Eq, Structural, Debug)]
pub enum SegmentClass {
    /// Sent by a remote peer to the monitored node; `key` is the
    /// destination port, identifying the local endpoint of the flow.
    Incoming { key: u16 },
    /// Sent by the monitored node to a remote peer; `key` is the
    /// source port, identifying the local endpoint of the flow.
    Outgoing { key: u16 },
    /// Unrelated to the monitored port.
    Ignored,
}

/// Classify one TCP segment by its ports.
///
/// A segment whose destination is the configured port is outgoing,
/// keyed by its source port; one whose source is the configured port
/// is incoming, keyed by its destination port. The destination check
/// comes first, so a segment with both ports equal to the configured
/// port counts as outgoing.
pub fn classify_segment(config_port: u16, source: u16, dest: u16) -> (r: SegmentClass)
    ensures
        dest == config_port ==> r == (SegmentClass::Outgoing { key: source }),
        dest != config_port && source == config_port ==> r == (SegmentClass::Incoming {
            key: dest,
        }),
        dest != config_port && source != config_port ==> r == SegmentClass::Ignored,
{
    if config_port == dest {
        SegmentClass::Outgoing { key: source }
    } else if config_port == source {
        SegmentClass::Incoming { key: dest }
    } else {
        SegmentClass::Ignored
    }
}

/// The big-endian 16-bit word at offset `i` of a byte string.
pub open spec fn be16_at(b: Seq<u8>, i: int) -> int {
    (b[i] as int) * 256 + (b[i + 1] as int)
}

/// Where a TCP segment's payload starts: the data offset field, counted
/// in 32-bit words, from the upper half of the thirteenth header byte.
pub open spec fn tcp_data_offset(b: Seq<u8>) -> int {
    (b[12] as int / 16) * 4
}

/// What the capture ingress makes of one TCP segment against the
/// configured port: `None` for a segment too short for a TCP header,
/// with a malformed data offset, or touching the configured port on
/// neither side; otherwise the worker key, the direction, and the
/// payload behind the header.
pub open spec fn segment_message_model(config_port: u16, b: Seq<u8>) -> Option<
    (u64, bool, Seq<u8>),
> {
    if b.len() < 20 {
        None
    } else {
        let source = be16_at(b, 0);
        let dest = be16_at(b, 2);
        let off = tcp_data_offset(b);
        if off < 20 || off > b.len() {
            None
        } else if dest == config_port {
            Some((source as u64, false, b.subrange(off, b.len() as int)))
        } else if source == config_port {
            Some((dest as u64, true, b.subrange(off, b.len() as int)))
        } else {
            None
        }
    }
}

/// Turn one captured TCP segment into the message the orchestrator
/// routes: outgoing traffic is keyed by its source port, incoming
/// traffic by its destination port, and everything else — including
/// anything malformed — is ignored. The length bound is the IP packet
/// limit, and it keeps every produced payload within the chunk frame.
pub fn segment_message(config_port: u16, segment: &Vec<u8>) -> (r: Option<RawPacketMessage>)
    requires
        segment@.len() <= 65535,
    ensures
        match segment_message_model(config_port, segment@) {
            Some((addr, incoming, payload)) => r matches Some(m) && m.remote_addr == addr
                && m.incoming == incoming && m.payload@ == payload && m.payload@.len() <= 65515,
            None => r is None,
        },
{
    if segment.len() < 20 {
        return None;
    }
    let source: u16 = (segment[0] as u16) * 256 + (segment[1] as u16);
    let dest: u16 = (segment[2] as u16) * 256 + (segment[3] as u16);
    let off: usize = ((segment[12] / 16) as usize) * 4;
    if off < 20 || off > segment.len() {
        return None;
    }
    let (remote_addr, incoming) = match classify_segment(config_port, source, dest) {
        SegmentClass::Outgoing { key } => (key as u64, false),
        SegmentClass::Incoming { key } => (key as u64, true),
        SegmentClass::Ignored => {
            return None;
        },
    };
    let payload = slice_to_vec(slice_subrange(segment.as_slice(), off, segment.len()));
    Some(RawPacketMessage { remote_addr, incoming, payload })
}

} // verus!

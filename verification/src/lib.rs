//! Passive observer for a node's encrypted peer-to-peer traffic.
//!
//! The library covers the live-traffic pipeline: a syscall-context
//! correlator that pairs socket syscall entries with their exits, an
//! event-envelope transport carrying correlated events to a consumer,
//! a per-peer stateful decoder that reverses the authenticated-encryption
//! stream and reassembles length-framed application messages, and a
//! packet orchestrator that routes captured TCP segments to per-remote-
//! address workers while relaying raw bytes to a virtual bridge.

pub mod capture;
pub mod envelope;
pub mod msg_decoder;
pub mod packet_orchestrator;
pub mod syscall_context;

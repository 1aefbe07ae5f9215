//! Client side of gRPC over a direct HTTP/2 transport or a WebRTC data channel.
//!
//! The modules hold the decisions and the byte-level protocol of the transport:
//! outbound packetisation of gRPC messages, inbound reassembly per stream,
//! stream bookkeeping, the signalling exchange, and the dial procedure. The
//! asynchronous plumbing around them hands plain values in and performs the
//! actions that come back.

pub mod base_channel;
pub mod framing;
pub mod metadata;
pub mod client_stream;
pub mod client_channel;
pub mod signaling;
pub mod text;
pub mod dial;

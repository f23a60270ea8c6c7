//! Connection and stream lifecycle, buffering and back-pressure for a polled,
//! multi-stream network transport.
//!
//! Every item below is verified: the byte queues, the registry of live
//! connections, the identifier allocators and the decision steps that a
//! surrounding runtime follows while it drives the transport itself.

pub mod address;
pub mod connection;
pub mod context;
pub mod control;
pub mod datagram;
pub mod last_error;
pub mod laws;
pub mod media;
pub mod registry;
pub mod ring_buffer;
pub mod status;
pub mod stream_writer;
pub mod tasks;

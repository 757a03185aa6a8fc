//! A userspace TCP endpoint: sequence-number arithmetic, the per-connection
//! state machine of RFC 793, the connection table that demultiplexes inbound
//! segments, and the adapter that turns the engine's replies into IPv4 frames.
//!
//! The engine never performs I/O. Every operation that would transmit a
//! segment returns the bytes of the frame instead, and the caller hands them
//! to the interface.

pub mod seq;
pub mod segment;
pub mod quad;
pub mod state;
pub mod codec;
pub mod transmit;
pub mod frame;
pub mod connection;
pub mod laws;
pub mod table;

//! Plain-value views of the headers the endpoint reads and writes.
//!
//! The endpoint never touches wire bytes itself. An inbound frame is decoded
//! into an [`Ipv4HeaderView`] and a [`TcpHeaderView`]; what the endpoint
//! wants to say in return is a [`Segment`], which the transmit adapter
//! serialises.

use vstd::prelude::*;

verus! {

/// IP protocol number of TCP.
pub const IP_PROTOCOL_TCP: u8 = 6;

/// Time to live of every datagram the endpoint emits.
pub const TIME_TO_LIVE: u8 = 64;

/// Length of an IPv4 header without options.
pub const IPV4_HEADER_LEN: usize = 20;

/// Length of a TCP header without options.
pub const TCP_HEADER_LEN: usize = 20;

/// Largest payload that fits one datagram beside the two headers.
pub const MAX_PAYLOAD_LEN: usize = 65495;

/// The fields of a decoded IPv4 header that the endpoint reads. Addresses
/// are 32-bit numbers in host order: `10.0.0.1` is `0x0a00_0001`.
#[derive(Clone, Copy, Debug, PartialEq, Eq, Structural)]
pub struct Ipv4HeaderView {
    pub source: u32,
    pub destination: u32,
    pub protocol: u8,
    /// Length of the header in bytes, options included.
    pub header_len: usize,
}

/// The fields of a decoded TCP header that the endpoint reads.
#[derive(Clone, Copy, Debug, PartialEq, Eq, Structural)]
pub struct TcpHeaderView {
    pub source_port: u16,
    pub destination_port: u16,
    pub sequence_number: u32,
    pub acknowledgment_number: u32,
    pub window_size: u16,
    pub syn: bool,
    pub ack: bool,
    pub fin: bool,
    pub rst: bool,
    pub psh: bool,
    pub urg: bool,
    /// Length of the header in bytes, options included.
    pub header_len: usize,
}

/// A control segment the endpoint wants transmitted: the addresses and
/// ports it travels between, and the TCP fields it carries.
#[derive(Clone, Copy, Debug, PartialEq, Eq, Structural)]
pub struct Segment {
    pub source: u32,
    pub destination: u32,
    pub source_port: u16,
    pub destination_port: u16,
    pub sequence_number: u32,
    pub acknowledgment_number: u32,
    pub window_size: u16,
    pub syn: bool,
    pub ack: bool,
    pub fin: bool,
    pub rst: bool,
}

impl TcpHeaderView {
    /// Sequence numbers the segment occupies: one per payload byte, one for
    /// SYN and one for FIN.
    pub open spec fn seg_len(self, payload_len: nat) -> nat {
        payload_len + (if self.syn { 1nat } else { 0nat }) + (if self.fin { 1nat } else { 0nat })
    }

    /// SYN set and ACK clear: a request for a passive open.
    pub open spec fn is_bare_syn(self) -> bool {
        self.syn && !self.ack
    }
}

} // verus!

//! The header codec: wire bytes to header views and back.
//!
//! Parsing, serialising and checksumming are the work of the `etherparse`
//! crate. Each function here makes one call into it and converts between its
//! types and the plain values of [`crate::segment`]. Their contracts are
//! taken on trust from etherparse's source. The contracts say which bytes
//! the fields are; the two checksums are given a name, not restated.

use vstd::prelude::*;
use crate::segment::Ipv4HeaderView;
use crate::segment::TcpHeaderView;
use crate::segment::Segment;

verus! {

/// The number that two bytes hold, most significant byte first.
pub open spec fn be16(b0: u8, b1: u8) -> u16 {
    (b0 * 0x100 + b1) as u16
}

/// The number that four bytes hold, most significant byte first.
pub open spec fn be32(b0: u8, b1: u8, b2: u8, b3: u8) -> u32 {
    (b0 * 0x100_0000 + b1 * 0x1_0000 + b2 * 0x100 + b3) as u32
}

/// The two bytes of a 16-bit number, most significant byte first.
pub open spec fn bytes16(x: u16) -> Seq<u8> {
    seq![(x / 0x100) as u8, (x % 0x100) as u8]
}

/// The four bytes of a 32-bit number, most significant byte first.
pub open spec fn bytes32(x: u32) -> Seq<u8> {
    seq![
        (x / 0x100_0000) as u8,
        (x / 0x1_0000 % 0x100) as u8,
        (x / 0x100 % 0x100) as u8,
        (x % 0x100) as u8,
    ]
}

/// The bit of `byte` that weighs `weight`, a power of two, is set.
pub open spec fn bit_set(byte: u8, weight: int) -> bool {
    byte as int / weight % 2 == 1
}

/// The IPv4 header at the start of `bytes`, as
/// `etherparse::Ipv4HeaderSlice::from_slice` finds it. The low half of the
/// first byte is the header length in 32-bit words. There is no header
/// where fewer than 20 bytes are given, the version in the high half of
/// the first byte is not 4, the header length is under 5 words or over what
/// is given, or the total length in bytes 2 and 3 is under the header
/// length.
pub open spec fn ipv4_header_view(bytes: Seq<u8>) -> Option<Ipv4HeaderView> {
    if bytes.len() < 20 {
        None
    } else {
        let header_len = (bytes[0] % 16) * 4;
        if bytes[0] / 16 != 4 || header_len < 20 || bytes.len() < header_len || be16(
            bytes[2],
            bytes[3],
        ) < header_len {
            None
        } else {
            Some(
                Ipv4HeaderView {
                    source: be32(bytes[12], bytes[13], bytes[14], bytes[15]),
                    destination: be32(bytes[16], bytes[17], bytes[18], bytes[19]),
                    protocol: bytes[9],
                    header_len: header_len as usize,
                },
            )
        }
    }
}

/// The TCP header at the start of `bytes`, as
/// `etherparse::TcpHeaderSlice::from_slice` finds it. The high half of
/// byte 12 is the header length in 32-bit words. There is no header where
/// fewer than 20 bytes are given, or the header length is under 5 words or
/// over what is given. Byte 13 holds the flags, FIN in the lowest bit.
pub open spec fn tcp_header_view(bytes: Seq<u8>) -> Option<TcpHeaderView> {
    if bytes.len() < 20 {
        None
    } else {
        let header_len = (bytes[12] / 16) * 4;
        if header_len < 20 || bytes.len() < header_len {
            None
        } else {
            Some(
                TcpHeaderView {
                    source_port: be16(bytes[0], bytes[1]),
                    destination_port: be16(bytes[2], bytes[3]),
                    sequence_number: be32(bytes[4], bytes[5], bytes[6], bytes[7]),
                    acknowledgment_number: be32(bytes[8], bytes[9], bytes[10], bytes[11]),
                    window_size: be16(bytes[14], bytes[15]),
                    fin: bit_set(bytes[13], 1),
                    syn: bit_set(bytes[13], 2),
                    rst: bit_set(bytes[13], 4),
                    psh: bit_set(bytes[13], 8),
                    ack: bit_set(bytes[13], 16),
                    urg: bit_set(bytes[13], 32),
                    header_len: header_len as usize,
                },
            )
        }
    }
}

/// The flags byte of an outgoing segment: FIN weighs 1, SYN 2, RST 4 and
/// ACK 16.
pub open spec fn flags_byte(segment: Segment) -> u8 {
    ((if segment.fin { 1int } else { 0 }) + (if segment.syn { 2int } else { 0 }) + (if segment.rst {
        4int
    } else {
        0
    }) + (if segment.ack { 16int } else { 0 })) as u8
}

/// The 20 bytes that `etherparse::TcpHeader::write` emits for the
/// option-less header of `segment` carrying `checksum`: ports, sequence
/// and acknowledgment number, a header length of 5 words, the flags, the
/// window, the checksum, and an urgent pointer of zero.
pub open spec fn tcp_header_bytes(segment: Segment, checksum: u16) -> Seq<u8> {
    bytes16(segment.source_port) + bytes16(segment.destination_port) + bytes32(
        segment.sequence_number,
    ) + bytes32(segment.acknowledgment_number) + seq![0x50u8, flags_byte(segment)] + bytes16(
        segment.window_size,
    ) + bytes16(checksum) + seq![0u8, 0u8]
}

/// The checksum `etherparse::TcpHeader::calc_checksum_ipv4_raw` computes
/// for the option-less header of `segment` followed by `payload`, with the
/// addresses of `segment` in the pseudo-header.
pub uninterp spec fn tcp_checksum(segment: Segment, payload: Seq<u8>) -> u16;

/// The header checksum that `etherparse::Ipv4Header::write` computes for
/// an option-less header with these fields.
pub uninterp spec fn ipv4_header_checksum(
    payload_len: u16,
    time_to_live: u8,
    protocol: u8,
    source: u32,
    destination: u32,
) -> u16;

/// The 20 bytes of an option-less IPv4 header with these fields and this
/// header checksum, as `etherparse::Ipv4Header::write` lays them out:
/// version 4 with a header length of 5 words, no service bits, the total
/// length of header and payload, an identification of zero, the
/// don't-fragment flag alone, time to live, protocol, the checksum, and the
/// two addresses.
pub open spec fn ipv4_header_bytes(
    payload_len: u16,
    time_to_live: u8,
    protocol: u8,
    source: u32,
    destination: u32,
    checksum: u16,
) -> Seq<u8> {
    seq![0x45u8, 0x00u8] + bytes16((payload_len + 20) as u16) + seq![0u8, 0u8, 0x40u8, 0u8]
        + seq![time_to_live, protocol] + bytes16(checksum) + bytes32(source) + bytes32(
        destination,
    )
}

/// Calls `etherparse::Ipv4HeaderSlice::from_slice` and reads source,
/// destination, protocol and header length of the header it found.
/// Trusted: whether a header is found, and which bytes its fields are, is
/// as [`ipv4_header_view`] says.
#[verifier::external_body]
pub(crate) fn decode_ipv4_header(bytes: &[u8]) -> (r: Option<Ipv4HeaderView>)
    ensures
        r == ipv4_header_view(bytes@),
{
    let h = etherparse::Ipv4HeaderSlice::from_slice(bytes).ok()?;
    Some(Ipv4HeaderView {
        source: u32::from_be_bytes(h.source()),
        destination: u32::from_be_bytes(h.destination()),
        protocol: h.protocol(),
        header_len: h.slice().len(),
    })
}

/// Calls `etherparse::TcpHeaderSlice::from_slice` and reads ports,
/// sequence and acknowledgment number, window, flags and header length of
/// the header it found. Trusted: whether a header is found, and which bytes
/// its fields are, is as [`tcp_header_view`] says.
#[verifier::external_body]
pub(crate) fn decode_tcp_header(bytes: &[u8]) -> (r: Option<TcpHeaderView>)
    ensures
        r == tcp_header_view(bytes@),
{
    let h = etherparse::TcpHeaderSlice::from_slice(bytes).ok()?;
    Some(TcpHeaderView {
        source_port: h.source_port(), destination_port: h.destination_port(),
        sequence_number: h.sequence_number(),
        acknowledgment_number: h.acknowledgment_number(),
        window_size: h.window_size(),
        syn: h.syn(), ack: h.ack(), fin: h.fin(), rst: h.rst(), psh: h.psh(), urg: h.urg(),
        header_len: h.slice().len(),
    })
}

/// Calls `etherparse::TcpHeader::calc_checksum_ipv4_raw` on the option-less
/// header of `segment`. Trusted: it fails exactly when header and payload
/// together exceed 65535 bytes, and otherwise returns the named checksum.
#[verifier::external_body]
pub(crate) fn checksum_tcp(segment: &Segment, payload: &[u8]) -> (r: Option<u16>)
    ensures
        r is Some <==> 20 + payload@.len() <= 0xffff,
        r matches Some(sum) ==> sum == tcp_checksum(*segment, payload@),
{
    let s = segment;
    let mut h = etherparse::TcpHeader::new(s.source_port, s.destination_port, s.sequence_number, s.window_size);
    h.acknowledgment_number = s.acknowledgment_number;
    h.syn = s.syn;
    h.ack = s.ack;
    h.fin = s.fin;
    h.rst = s.rst;
    h.calc_checksum_ipv4_raw(s.source.to_be_bytes(), s.destination.to_be_bytes(), payload).ok()
}

/// Calls `etherparse::TcpHeader::write` on the option-less header of
/// `segment` with `checksum` filled in, into an empty vector. Trusted: the
/// write succeeds and leaves the 20 bytes that [`tcp_header_bytes`] lists.
#[verifier::external_body]
pub(crate) fn write_tcp_header(segment: &Segment, checksum: u16) -> (r: Option<Vec<u8>>)
    ensures
        r is Some,
        r matches Some(bytes) ==> bytes@ == tcp_header_bytes(*segment, checksum),
{
    let s = segment;
    let mut h = etherparse::TcpHeader::new(s.source_port, s.destination_port, s.sequence_number, s.window_size);
    h.acknowledgment_number = s.acknowledgment_number;
    h.syn = s.syn;
    h.ack = s.ack;
    h.fin = s.fin;
    h.rst = s.rst;
    h.checksum = checksum;
    let mut out = Vec::new();
    h.write(&mut out).ok()?;
    Some(out)
}

/// Calls `etherparse::Ipv4Header::write` on an option-less header with
/// these fields, into an empty vector. Trusted: the write fails exactly
/// when `payload_len` leaves no room for the header in the 16-bit total
/// length, and otherwise leaves the 20 bytes that [`ipv4_header_bytes`]
/// lists, of which only the checksum is a name.
#[verifier::external_body]
pub(crate) fn write_ipv4_header(
    payload_len: u16,
    time_to_live: u8,
    protocol: u8,
    source: u32,
    destination: u32,
) -> (r: Option<Vec<u8>>)
    ensures
        r is Some <==> payload_len <= 0xffff - 20,
        r matches Some(bytes) ==> bytes@ == ipv4_header_bytes(
            payload_len,
            time_to_live,
            protocol,
            source,
            destination,
            ipv4_header_checksum(payload_len, time_to_live, protocol, source, destination),
        ),
{
    let h = etherparse::Ipv4Header::new(payload_len, time_to_live, protocol, source.to_be_bytes(), destination.to_be_bytes());
    let mut out = Vec::new();
    h.write(&mut out).ok()?;
    Some(out)
}

} // verus!

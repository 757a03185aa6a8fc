//! The transmit adapter: from a control segment to the bytes of one IPv4
//! datagram.

use vstd::prelude::*;
use vstd::pervasive::unreached;
use vstd::slice::slice_to_vec;
use crate::codec::be16;
use crate::codec::be32;
use crate::codec::checksum_tcp;
use crate::codec::flags_byte;
use crate::codec::tcp_header_view;
use crate::codec::ipv4_header_bytes;
use crate::codec::ipv4_header_checksum;
use crate::codec::tcp_checksum;
use crate::codec::tcp_header_bytes;
use crate::codec::write_ipv4_header;
use crate::codec::write_tcp_header;
use crate::codec::ipv4_header_view;
use crate::frame::segment_of;
use crate::frame::tcp_part;
use crate::segment::Ipv4HeaderView;
use crate::segment::Segment;
use crate::segment::TcpHeaderView;
use crate::segment::IPV4_HEADER_LEN;
use crate::segment::IP_PROTOCOL_TCP;
use crate::segment::MAX_PAYLOAD_LEN;
use crate::segment::TCP_HEADER_LEN;
use crate::segment::TIME_TO_LIVE;

verus! {

/// The datagram that carries `segment` and `payload`: an IPv4 header for
/// protocol TCP whose payload length counts the TCP header and the
/// payload, the TCP header with its checksum over pseudo-header, header
/// and payload, and then the payload itself.
pub open spec fn frame_bytes(segment: Segment, payload: Seq<u8>) -> Seq<u8> {
    let tcp_len = (TCP_HEADER_LEN + payload.len()) as u16;
    ipv4_header_bytes(
        tcp_len,
        TIME_TO_LIVE,
        IP_PROTOCOL_TCP,
        segment.source,
        segment.destination,
        ipv4_header_checksum(
            tcp_len,
            TIME_TO_LIVE,
            IP_PROTOCOL_TCP,
            segment.source,
            segment.destination,
        ),
    ) + tcp_header_bytes(segment, tcp_checksum(segment, payload)) + payload
}

/// The TCP header that is written for a segment parses back to the fields
/// of that segment, with a header length of 20 and without PSH and URG.
pub proof fn lemma_written_header_parses_back(segment: Segment, checksum: u16)
    ensures
        tcp_header_view(tcp_header_bytes(segment, checksum)) == Some(
            TcpHeaderView {
                source_port: segment.source_port,
                destination_port: segment.destination_port,
                sequence_number: segment.sequence_number,
                acknowledgment_number: segment.acknowledgment_number,
                window_size: segment.window_size,
                syn: segment.syn,
                ack: segment.ack,
                fin: segment.fin,
                rst: segment.rst,
                psh: false,
                urg: false,
                header_len: 20,
            },
        ),
{
    let bytes = tcp_header_bytes(segment, checksum);
    assert(bytes.len() == 20);
    assert(bytes[12] == 0x50 && bytes[13] == flags_byte(segment));
    assert(be16(bytes[0], bytes[1]) == segment.source_port);
    assert(be16(bytes[2], bytes[3]) == segment.destination_port);
    assert(be32(bytes[4], bytes[5], bytes[6], bytes[7]) == segment.sequence_number);
    assert(be32(bytes[8], bytes[9], bytes[10], bytes[11]) == segment.acknowledgment_number);
    assert(be16(bytes[14], bytes[15]) == segment.window_size);
}

/// An IPv4 header as it is written parses back to its addresses and
/// protocol, whatever follows it.
pub proof fn lemma_written_ipv4_header_parses_back(
    payload_len: u16,
    time_to_live: u8,
    protocol: u8,
    source: u32,
    destination: u32,
    checksum: u16,
    rest: Seq<u8>,
)
    requires
        payload_len <= 0xffff - 20,
    ensures
        ipv4_header_view(
            ipv4_header_bytes(payload_len, time_to_live, protocol, source, destination, checksum)
                + rest,
        ) == Some(Ipv4HeaderView { source, destination, protocol, header_len: 20 }),
{
    let header = ipv4_header_bytes(
        payload_len,
        time_to_live,
        protocol,
        source,
        destination,
        checksum,
    );
    let bytes = header + rest;
    assert(header.len() == 20);
    assert(bytes[0] == 0x45 && bytes[9] == protocol);
    assert(bytes[2] == header[2] && bytes[3] == header[3]);
    assert(be16(bytes[2], bytes[3]) == payload_len + 20);
    assert(bytes[12] == header[12] && bytes[13] == header[13] && bytes[14] == header[14]
        && bytes[15] == header[15]);
    assert(bytes[16] == header[16] && bytes[17] == header[17] && bytes[18] == header[18]
        && bytes[19] == header[19]);
    assert(be32(bytes[12], bytes[13], bytes[14], bytes[15]) == source);
    assert(be32(bytes[16], bytes[17], bytes[18], bytes[19]) == destination);
}

/// The datagram that is written for a segment holds that segment: its
/// IPv4 header parses back to the addresses and to protocol TCP, its TCP
/// header to the fields of the segment, and the payload starts behind
/// forty bytes of headers.
pub proof fn lemma_written_datagram_parses_back(segment: Segment, payload: Seq<u8>)
    requires
        payload.len() <= MAX_PAYLOAD_LEN,
    ensures
        segment_of(frame_bytes(segment, payload)) matches Ok(d) && {
            &&& d.ip == (Ipv4HeaderView {
                source: segment.source,
                destination: segment.destination,
                protocol: IP_PROTOCOL_TCP,
                header_len: 20,
            })
            &&& tcp_header_view(tcp_header_bytes(segment, tcp_checksum(segment, payload))) == Some(
                d.tcp,
            )
            &&& d.payload_offset == 40
            &&& frame_bytes(segment, payload).subrange(40, 40 + payload.len() as int) == payload
        },
{
    let tcp_len = (TCP_HEADER_LEN + payload.len()) as u16;
    let sum = ipv4_header_checksum(
        tcp_len,
        TIME_TO_LIVE,
        IP_PROTOCOL_TCP,
        segment.source,
        segment.destination,
    );
    let ip_bytes = ipv4_header_bytes(
        tcp_len,
        TIME_TO_LIVE,
        IP_PROTOCOL_TCP,
        segment.source,
        segment.destination,
        sum,
    );
    let tcp_bytes = tcp_header_bytes(segment, tcp_checksum(segment, payload));
    let frame = frame_bytes(segment, payload);
    assert(ip_bytes.len() == 20 && tcp_bytes.len() == 20);
    assert(frame =~= ip_bytes + (tcp_bytes + payload));
    lemma_written_ipv4_header_parses_back(
        tcp_len,
        TIME_TO_LIVE,
        IP_PROTOCOL_TCP,
        segment.source,
        segment.destination,
        sum,
        tcp_bytes + payload,
    );
    assert(tcp_part(frame) =~= tcp_bytes + payload);
    lemma_written_header_parses_back(segment, tcp_checksum(segment, payload));
    assert(tcp_header_view(tcp_bytes + payload) == tcp_header_view(tcp_bytes)) by {
        assert forall|i: int| 0 <= i < 20 implies (tcp_bytes + payload)[i] == tcp_bytes[i] by {}
    }
    assert(frame.subrange(40, 40 + payload.len() as int) =~= payload);
}

/// Lays the two headers and the payload end to end in one buffer.
pub fn assemble(ip_header: Vec<u8>, tcp_header: Vec<u8>, payload: &[u8]) -> (frame: Vec<u8>)
    ensures
        frame@ == ip_header@ + tcp_header@ + payload@,
{
    let mut frame = ip_header;
    let mut tcp_header = tcp_header;
    let mut body: Vec<u8> = slice_to_vec(payload);
    frame.append(&mut tcp_header);
    frame.append(&mut body);
    frame
}

/// Serialises `segment` and `payload` into one contiguous datagram.
///
/// A payload too long for the 16-bit length fields is a defect of the
/// caller, not a condition to recover from, so it is excluded here.
pub fn encode_segment(segment: &Segment, payload: &[u8]) -> (frame: Vec<u8>)
    requires
        payload@.len() <= MAX_PAYLOAD_LEN,
    ensures
        frame@ == frame_bytes(*segment, payload@),
        frame@.len() == IPV4_HEADER_LEN + TCP_HEADER_LEN + payload@.len(),
{
    let tcp_len: u16 = (TCP_HEADER_LEN + payload.len()) as u16;
    let checksum: u16 = match checksum_tcp(segment, payload) {
        Some(sum) => sum,
        None => unreached(),
    };
    let ip_header: Vec<u8> = match write_ipv4_header(
        tcp_len,
        TIME_TO_LIVE,
        IP_PROTOCOL_TCP,
        segment.source,
        segment.destination,
    ) {
        Some(bytes) => bytes,
        None => unreached(),
    };
    let tcp_header: Vec<u8> = match write_tcp_header(segment, checksum) {
        Some(bytes) => bytes,
        None => unreached(),
    };
    assemble(ip_header, tcp_header, payload)
}

/// Serialises a control segment, which carries no payload.
pub fn encode_control(segment: &Segment) -> (frame: Vec<u8>)
    ensures
        frame@ == frame_bytes(*segment, Seq::<u8>::empty()),
        frame@.len() == IPV4_HEADER_LEN + TCP_HEADER_LEN,
{
    let nothing: Vec<u8> = Vec::new();
    encode_segment(segment, nothing.as_slice())
}

/// `frame` is the datagram of `reply`: both absent, or the frame holds the
/// bytes of the control segment, two headers of twenty bytes each.
pub open spec fn carries(frame: Option<Vec<u8>>, reply: Option<Segment>) -> bool {
    match (frame, reply) {
        (Some(bytes), Some(segment)) => {
            &&& bytes@ == frame_bytes(segment, Seq::<u8>::empty())
            &&& bytes@.len() == IPV4_HEADER_LEN + TCP_HEADER_LEN
        },
        (None, None) => true,
        _ => false,
    }
}

/// Serialises the reply of the engine, if there is one.
pub fn encode_reply(reply: Option<Segment>) -> (frame: Option<Vec<u8>>)
    ensures
        carries(frame, reply),
{
    match reply {
        Some(segment) => Some(encode_control(&segment)),
        None => None,
    }
}

} // verus!

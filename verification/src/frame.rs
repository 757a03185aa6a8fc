//! From a frame read off the tunnel interface to the headers of a TCP
//! segment.
//!
//! A frame starts with four bytes of tunnel header: two of flags, two that
//! name the protocol of what follows. After them comes the IPv4 datagram.

use vstd::prelude::*;
use vstd::slice::slice_subrange;
use crate::codec::decode_ipv4_header;
use crate::codec::decode_tcp_header;
use crate::codec::ipv4_header_view;
use crate::codec::tcp_header_view;
use crate::segment::Ipv4HeaderView;
use crate::segment::TcpHeaderView;
use crate::segment::IP_PROTOCOL_TCP;

verus! {

/// Length of the tunnel header.
pub const TUN_HEADER_LEN: usize = 4;

/// Why a frame is not handed to the engine.
#[derive(Clone, Copy, Debug, PartialEq, Eq, Structural)]
pub enum DecodeError {
    /// Shorter than the tunnel header.
    Truncated,
    /// The tunnel header names another protocol than IPv4.
    NotIpv4,
    /// The IPv4 header does not parse.
    MalformedIpv4,
    /// The datagram carries another protocol than TCP.
    NotTcp,
    /// The TCP header does not parse.
    MalformedTcp,
}

/// The headers of a TCP segment found in a datagram, and where its payload
/// starts.
#[derive(Clone, Copy, Debug, PartialEq, Eq, Structural)]
pub struct Decoded {
    pub ip: Ipv4HeaderView,
    pub tcp: TcpHeaderView,
    /// Offset of the TCP payload from the start of the datagram.
    pub payload_offset: usize,
}

/// The datagram inside a frame: what follows the tunnel header, if that
/// header is there and names IPv4 (`0x0800`).
pub open spec fn datagram_of(frame: Seq<u8>) -> Result<Seq<u8>, DecodeError> {
    if frame.len() < TUN_HEADER_LEN {
        Err(DecodeError::Truncated)
    } else if frame[2] != 0x08 || frame[3] != 0x00 {
        Err(DecodeError::NotIpv4)
    } else {
        Ok(frame.subrange(TUN_HEADER_LEN as int, frame.len() as int))
    }
}

/// What two parsed headers amount to. The IPv4 header must have parsed and
/// name TCP; the TCP header must have parsed; the payload starts behind
/// both.
pub open spec fn classified(ip: Option<Ipv4HeaderView>, tcp: Option<TcpHeaderView>) -> Result<
    Decoded,
    DecodeError,
> {
    match ip {
        None => Err(DecodeError::MalformedIpv4),
        Some(ip) => if ip.protocol != IP_PROTOCOL_TCP {
            Err(DecodeError::NotTcp)
        } else {
            match tcp {
                None => Err(DecodeError::MalformedTcp),
                Some(tcp) => Ok(
                    Decoded { ip, tcp, payload_offset: (ip.header_len + tcp.header_len) as usize },
                ),
            }
        },
    }
}

/// The TCP header of a datagram is parsed from what follows its IPv4
/// header.
pub open spec fn tcp_part(datagram: Seq<u8>) -> Seq<u8> {
    match ipv4_header_view(datagram) {
        Some(ip) => datagram.subrange(ip.header_len as int, datagram.len() as int),
        None => datagram,
    }
}

/// The segment in a datagram.
pub open spec fn segment_of(datagram: Seq<u8>) -> Result<Decoded, DecodeError> {
    classified(ipv4_header_view(datagram), tcp_header_view(tcp_part(datagram)))
}

/// The segment in a frame: the one in its datagram.
pub open spec fn decoded(frame: Seq<u8>) -> Result<Decoded, DecodeError> {
    match datagram_of(frame) {
        Ok(d) => segment_of(d),
        Err(e) => Err(e),
    }
}

/// Where the TCP payload of a frame starts, counted from the start of the
/// frame.
pub open spec fn payload_start(segment: Decoded) -> int {
    TUN_HEADER_LEN + segment.payload_offset
}

/// Strips the tunnel header off a frame.
pub fn datagram(frame: &[u8]) -> (r: Result<&[u8], DecodeError>)
    ensures
        match r {
            Ok(d) => datagram_of(frame@) == Ok::<Seq<u8>, DecodeError>(d@),
            Err(e) => datagram_of(frame@) == Err::<Seq<u8>, DecodeError>(e),
        },
{
    if frame.len() < TUN_HEADER_LEN {
        return Err(DecodeError::Truncated);
    }
    if frame[2] != 0x08 || frame[3] != 0x00 {
        return Err(DecodeError::NotIpv4);
    }
    Ok(slice_subrange(frame, TUN_HEADER_LEN, frame.len()))
}

/// Decides what two parsed headers amount to.
pub fn classify(ip: Option<Ipv4HeaderView>, tcp: Option<TcpHeaderView>) -> (r: Result<
    Decoded,
    DecodeError,
>)
    requires
        ip matches Some(i) ==> (tcp matches Some(t) ==> i.header_len + t.header_len <= usize::MAX),
    ensures
        r == classified(ip, tcp),
{
    let ip = match ip {
        Some(ip) => ip,
        None => {
            return Err(DecodeError::MalformedIpv4);
        },
    };
    if ip.protocol != IP_PROTOCOL_TCP {
        return Err(DecodeError::NotTcp);
    }
    match tcp {
        Some(tcp) => Ok(Decoded { ip, tcp, payload_offset: ip.header_len + tcp.header_len }),
        None => Err(DecodeError::MalformedTcp),
    }
}

/// Finds the TCP segment in a datagram. The payload of a segment that was
/// found lies within the datagram.
pub fn decode_datagram(datagram: &[u8]) -> (r: Result<Decoded, DecodeError>)
    ensures
        r == segment_of(datagram@),
        r matches Ok(d) ==> d.payload_offset <= datagram@.len(),
{
    let ip = decode_ipv4_header(datagram);
    let tcp = match ip {
        Some(header) => if header.protocol == IP_PROTOCOL_TCP {
            decode_tcp_header(slice_subrange(datagram, header.header_len, datagram.len()))
        } else {
            None
        },
        None => None,
    };
    classify(ip, tcp)
}

/// Finds the TCP segment in a frame read off the tunnel interface, and its
/// payload: all of the frame behind the two headers.
pub fn decode_frame(frame: &[u8]) -> (r: Result<(Decoded, &[u8]), DecodeError>)
    ensures
        match r {
            Ok((segment, payload)) => {
                &&& decoded(frame@) == Ok::<Decoded, DecodeError>(segment)
                &&& payload_start(segment) <= frame@.len()
                &&& payload@ == frame@.subrange(payload_start(segment), frame@.len() as int)
            },
            Err(e) => decoded(frame@) == Err::<Decoded, DecodeError>(e),
        },
{
    let inner = match datagram(frame) {
        Ok(d) => d,
        Err(e) => {
            return Err(e);
        },
    };
    let segment = match decode_datagram(inner) {
        Ok(s) => s,
        Err(e) => {
            return Err(e);
        },
    };
    let payload = slice_subrange(inner, segment.payload_offset, inner.len());
    assert(payload@ == frame@.subrange(payload_start(segment), frame@.len() as int));
    Ok((segment, payload))
}

} // verus!

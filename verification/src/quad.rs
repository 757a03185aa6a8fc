//! The four-tuple that names a connection.

use vstd::prelude::*;
use crate::segment::Ipv4HeaderView;
use crate::segment::TcpHeaderView;

verus! {

/// Identifier of a connection: the local address and port, and the remote
/// address and port. Two segments with the same quad belong to the same
/// connection.
#[derive(Clone, Copy, Debug, PartialEq, Eq, Structural)]
pub struct Quad {
    pub local_addr: u32,
    pub local_port: u16,
    pub remote_addr: u32,
    pub remote_port: u16,
}

impl Quad {
    /// The quad an inbound segment addresses: its destination is the local
    /// side, its source the remote side.
    pub open spec fn of_inbound(ip: Ipv4HeaderView, tcp: TcpHeaderView) -> Quad {
        Quad {
            local_addr: ip.destination,
            local_port: tcp.destination_port,
            remote_addr: ip.source,
            remote_port: tcp.source_port,
        }
    }

    /// The four fields laid side by side in one 96-bit number: local
    /// address, local port, remote address, remote port, from the most
    /// significant end.
    pub open spec fn packed(self) -> u128 {
        (((self.local_addr * 0x1_0000 + self.local_port) * 0x1_0000_0000 + self.remote_addr)
            * 0x1_0000 + self.remote_port) as u128
    }

    /// The quad an inbound segment addresses.
    pub fn inbound(ip: &Ipv4HeaderView, tcp: &TcpHeaderView) -> (q: Quad)
        ensures
            q == Quad::of_inbound(*ip, *tcp),
    {
        Quad {
            local_addr: ip.destination,
            local_port: tcp.destination_port,
            remote_addr: ip.source,
            remote_port: tcp.source_port,
        }
    }

    /// The key under which the connection table files this quad.
    pub fn key(&self) -> (k: u128)
        ensures
            k == self.packed(),
    {
        let local: u128 = self.local_addr as u128 * 0x1_0000 + self.local_port as u128;
        let with_remote: u128 = local * 0x1_0000_0000 + self.remote_addr as u128;
        with_remote * 0x1_0000 + self.remote_port as u128
    }

    /// Distinct quads have distinct keys.
    pub proof fn lemma_packed_is_injective(a: Quad, b: Quad)
        ensures
            a.packed() == b.packed() <==> a == b,
    {
        let a1 = a.local_addr * 0x1_0000 + a.local_port;
        let b1 = b.local_addr * 0x1_0000 + b.local_port;
        let a2 = a1 * 0x1_0000_0000 + a.remote_addr;
        let b2 = b1 * 0x1_0000_0000 + b.remote_addr;
        let a3 = a2 * 0x1_0000 + a.remote_port;
        let b3 = b2 * 0x1_0000 + b.remote_port;
        assert(0 <= a1 < 0x1_0000_0000_0000 && 0 <= b1 < 0x1_0000_0000_0000);
        assert(0 <= a2 < 0x1_0000_0000_0000_0000_0000 && 0 <= b2 < 0x1_0000_0000_0000_0000_0000);
        assert(a.packed() == a3 && b.packed() == b3);
        if a3 == b3 {
            assert(a2 == b2 && a.remote_port == b.remote_port);
            assert(a1 == b1 && a.remote_addr == b.remote_addr);
            assert(a.local_addr == b.local_addr && a.local_port == b.local_port);
        }
    }
}

} // verus!

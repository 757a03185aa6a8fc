//! The connection table: from the quad of an inbound segment to the
//! connection it belongs to.
//!
//! The table owns every live connection. A segment for a known quad goes to
//! that connection; a bare SYN for an unknown quad opens one; a connection
//! that reaches CLOSED leaves the table in the same call.

use std::collections::HashMap;
use vstd::prelude::*;
use crate::connection::Connection;
use crate::laws::lemma_identity_is_fixed;
use crate::frame::decode_frame;
use crate::frame::decoded;
use crate::frame::payload_start;
use crate::frame::DecodeError;
use crate::frame::Decoded;
use crate::quad::Quad;
use crate::segment::Ipv4HeaderView;
use crate::segment::Segment;
use crate::segment::TcpHeaderView;
use crate::seq::advance;
use crate::seq::seq_plus;
use crate::state::State;
use crate::transmit::carries;
use crate::transmit::encode_reply;

verus! {

broadcast use vstd::std_specs::hash::group_hash_axioms;

/// Why the table has no reply to a segment.
#[derive(Clone, Copy, Debug, PartialEq, Eq, Structural)]
pub enum EngineError {
    /// The peer reset the connection, which has left the table.
    Reset,
}

/// What became of one frame that held a TCP segment.
#[derive(Debug)]
pub struct Handled {
    /// The headers of the segment.
    pub segment: Decoded,
    /// Length of its payload in bytes.
    pub payload_len: usize,
    /// The quad it addresses.
    pub quad: Quad,
    /// Whether the quad had a connection when the segment arrived.
    pub known: bool,
    /// The datagram to transmit in return, if any, or the reset of the
    /// connection.
    pub outcome: Result<Option<Vec<u8>>, EngineError>,
}

/// The live connections, by quad.
pub struct ConnectionTable {
    connections: HashMap<u128, Connection>,
}

/// The table that a map from keys stands for: a quad is in it when its key
/// is.
pub closed spec fn by_quad(m: Map<u128, Connection>) -> Map<Quad, Connection> {
    Map::new(|q: Quad| m.contains_key(q.packed()), |q: Quad| m[q.packed()])
}

proof fn lemma_by_quad_insert(m: Map<u128, Connection>, quad: Quad, c: Connection)
    ensures
        by_quad(m.insert(quad.packed(), c)) == by_quad(m).insert(quad, c),
{
    assert forall|q: Quad| q.packed() == quad.packed() implies q == quad by {
        Quad::lemma_packed_is_injective(q, quad);
    }
    assert(by_quad(m.insert(quad.packed(), c)) =~= by_quad(m).insert(quad, c));
}

proof fn lemma_by_quad_remove(m: Map<u128, Connection>, quad: Quad)
    ensures
        by_quad(m.remove(quad.packed())) == by_quad(m).remove(quad),
{
    assert forall|q: Quad| q.packed() == quad.packed() implies q == quad by {
        Quad::lemma_packed_is_injective(q, quad);
    }
    assert(by_quad(m.remove(quad.packed())) =~= by_quad(m).remove(quad));
}

/// The reset that answers a segment addressed to no connection. A segment
/// with SYN or RST gets none. One with ACK is answered from its own
/// acknowledgment number; any other with sequence number zero,
/// acknowledging all it occupies.
pub open spec fn refusal(ip: Ipv4HeaderView, tcp: TcpHeaderView, payload_len: nat) -> Option<
    Segment,
> {
    if tcp.syn || tcp.rst {
        None
    } else {
        Some(
            Segment {
                source: ip.destination,
                destination: ip.source,
                source_port: tcp.destination_port,
                destination_port: tcp.source_port,
                sequence_number: if tcp.ack { tcp.acknowledgment_number } else { 0 },
                acknowledgment_number: if tcp.ack {
                    0
                } else {
                    seq_plus(tcp.sequence_number, tcp.seg_len(payload_len) as int)
                },
                window_size: 0,
                syn: false,
                ack: !tcp.ack,
                fin: false,
                rst: true,
            },
        )
    }
}

/// The table after one segment for `quad`. A known connection takes its
/// step and leaves if that closes it; a bare SYN for an unknown quad opens
/// a connection; anything else leaves the table as it is.
pub open spec fn handled(
    table: Map<Quad, Connection>,
    quad: Quad,
    ip: Ipv4HeaderView,
    tcp: TcpHeaderView,
    payload_len: nat,
    iss: u32,
) -> Map<Quad, Connection> {
    if table.contains_key(quad) {
        let next = table[quad].segment_step(tcp, payload_len).next;
        if next.state == State::Closed {
            table.remove(quad)
        } else {
            table.insert(quad, next)
        }
    } else if tcp.is_bare_syn() {
        table.insert(quad, Connection::accepted(ip, tcp, iss))
    } else {
        table
    }
}

/// The segment sent in return for one segment for `quad`: the reply of the
/// connection, the SYN+ACK of a new one, or the refusal.
pub open spec fn handle_reply(
    table: Map<Quad, Connection>,
    quad: Quad,
    ip: Ipv4HeaderView,
    tcp: TcpHeaderView,
    payload_len: nat,
    iss: u32,
) -> Option<Segment> {
    if table.contains_key(quad) {
        table[quad].segment_step(tcp, payload_len).reply
    } else if tcp.is_bare_syn() {
        Some(Connection::accepted(ip, tcp, iss).syn_ack_segment())
    } else {
        refusal(ip, tcp, payload_len)
    }
}

/// The table after the TIME-WAIT timer of `quad` fired: a connection in
/// TIME-WAIT leaves, everything else stays.
pub open spec fn expired(table: Map<Quad, Connection>, quad: Quad) -> Map<Quad, Connection> {
    if table.contains_key(quad) && table[quad].state == State::TimeWait {
        table.remove(quad)
    } else {
        table
    }
}

/// The table after a local close of `quad`.
pub open spec fn closed(table: Map<Quad, Connection>, quad: Quad) -> Map<Quad, Connection> {
    if table.contains_key(quad) {
        table.insert(quad, table[quad].close_step().next)
    } else {
        table
    }
}

/// A segment that resets the connection it addresses takes that connection
/// out of the table, whatever its sequence number.
pub proof fn lemma_reset_leaves_the_table(
    table: Map<Quad, Connection>,
    quad: Quad,
    ip: Ipv4HeaderView,
    tcp: TcpHeaderView,
    payload_len: nat,
    iss: u32,
)
    requires
        table.contains_key(quad),
        table[quad].state != State::Closed,
        table[quad].state != State::Listen,
        tcp.rst,
    ensures
        handled(table, quad, ip, tcp, payload_len, iss) == table.remove(quad),
        !handled(table, quad, ip, tcp, payload_len, iss).contains_key(quad),
{
}

/// A table without closed connections has none after a segment, after a
/// local close, and after the timer.
pub proof fn lemma_closed_connections_leave(
    table: Map<Quad, Connection>,
    quad: Quad,
    ip: Ipv4HeaderView,
    tcp: TcpHeaderView,
    payload_len: nat,
    iss: u32,
)
    requires
        forall|q: Quad| #[trigger] table.contains_key(q) ==> table[q].state != State::Closed,
    ensures
        forall|q: Quad| #[trigger]
            handled(table, quad, ip, tcp, payload_len, iss).contains_key(q) ==> handled(
                table,
                quad,
                ip,
                tcp,
                payload_len,
                iss,
            )[q].state != State::Closed,
        forall|q: Quad| #[trigger]
            closed(table, quad).contains_key(q) ==> closed(table, quad)[q].state != State::Closed,
        forall|q: Quad| #[trigger]
            expired(table, quad).contains_key(q) ==> expired(table, quad)[q].state
                != State::Closed,
{
}

/// In a table that files every connection under its own quad, a segment
/// handled under the quad it addresses leaves every connection under its
/// own quad, and so do a local close and the timer.
pub proof fn lemma_connections_stay_under_their_quad(
    table: Map<Quad, Connection>,
    quad: Quad,
    ip: Ipv4HeaderView,
    tcp: TcpHeaderView,
    payload_len: nat,
    iss: u32,
)
    requires
        forall|q: Quad| #[trigger] table.contains_key(q) ==> table[q].quad == q,
        table.contains_key(quad) || quad == Quad::of_inbound(ip, tcp),
    ensures
        forall|q: Quad| #[trigger]
            handled(table, quad, ip, tcp, payload_len, iss).contains_key(q) ==> handled(
                table,
                quad,
                ip,
                tcp,
                payload_len,
                iss,
            )[q].quad == q,
        forall|q: Quad| #[trigger]
            closed(table, quad).contains_key(q) ==> closed(table, quad)[q].quad == q,
        forall|q: Quad| #[trigger]
            expired(table, quad).contains_key(q) ==> expired(table, quad)[q].quad == q,
{
    if table.contains_key(quad) {
        lemma_identity_is_fixed(table[quad], tcp, payload_len);
    }
}

/// A segment touches no connection but the one of its quad.
pub proof fn lemma_other_connections_stay(
    table: Map<Quad, Connection>,
    quad: Quad,
    other: Quad,
    ip: Ipv4HeaderView,
    tcp: TcpHeaderView,
    payload_len: nat,
    iss: u32,
)
    requires
        other != quad,
    ensures
        handled(table, quad, ip, tcp, payload_len, iss).contains_key(other) == table.contains_key(
            other,
        ),
        table.contains_key(other) ==> handled(table, quad, ip, tcp, payload_len, iss)[other]
            == table[other],
{
}

/// Builds the refusal of a segment addressed to no connection.
pub fn refuse(ip: &Ipv4HeaderView, tcp: &TcpHeaderView, payload_len: usize) -> (r: Option<Segment>)
    ensures
        r == refusal(*ip, *tcp, payload_len as nat),
{
    if tcp.syn || tcp.rst {
        return None;
    }
    let mut acknowledged: u32 = 0;
    if !tcp.ack {
        let wrapped: u32 = (payload_len as u64 % 0x1_0000_0000) as u32;
        acknowledged = advance(tcp.sequence_number, wrapped);
        if tcp.fin {
            acknowledged = advance(acknowledged, 1);
        }
    }
    Some(
        Segment {
            source: ip.destination,
            destination: ip.source,
            source_port: tcp.destination_port,
            destination_port: tcp.source_port,
            sequence_number: if tcp.ack { tcp.acknowledgment_number } else { 0 },
            acknowledgment_number: acknowledged,
            window_size: 0,
            syn: false,
            ack: !tcp.ack,
            fin: false,
            rst: true,
        },
    )
}

impl View for ConnectionTable {
    type V = Map<Quad, Connection>;

    closed spec fn view(&self) -> Map<Quad, Connection> {
        by_quad(self.connections@)
    }
}

impl ConnectionTable {
    /// The invariant of the table: every connection in it is filed under
    /// its own quad, is not closed, and is well-formed.
    pub open spec fn wf(&self) -> bool {
        forall|q: Quad| #[trigger]
            self@.contains_key(q) ==> {
                &&& self@[q].quad == q
                &&& self@[q].state != State::Closed
                &&& self@[q].wf()
            }
    }

    /// An empty table.
    pub fn new() -> (table: ConnectionTable)
        ensures
            table@ == Map::<Quad, Connection>::empty(),
            table.wf(),
    {
        let table = ConnectionTable { connections: HashMap::new() };
        assert(table@ =~= Map::<Quad, Connection>::empty());
        table
    }

    /// The connection of `quad`, if the table has one.
    pub fn get(&self, quad: &Quad) -> (r: Option<Connection>)
        ensures
            r is Some <==> self@.contains_key(*quad),
            r matches Some(c) ==> c == self@[*quad],
    {
        let key = quad.key();
        match self.connections.get(&key) {
            Some(connection) => Some(*connection),
            None => None,
        }
    }

    /// Puts `connection` under `quad`, or takes the entry of `quad` out if
    /// the connection is closed.
    fn settle(&mut self, quad: &Quad, connection: Connection)
        ensures
            final(self)@ == if connection.state == State::Closed {
                old(self)@.remove(*quad)
            } else {
                old(self)@.insert(*quad, connection)
            },
    {
        let key = quad.key();
        proof {
            lemma_by_quad_insert(self.connections@, *quad, connection);
            lemma_by_quad_remove(self.connections@, *quad);
        }
        match connection.state {
            State::Closed => {
                self.connections.remove(&key);
            },
            _ => {
                self.connections.insert(key, connection);
            },
        }
    }

    /// Hands one inbound segment to the connection of `quad`, and returns
    /// the datagram to transmit in return, if any.
    ///
    /// A segment for an unknown quad opens a connection if it is a bare
    /// SYN, with `iss` as the initial send sequence number. `Err(Reset)`
    /// comes exactly when the segment resets a known connection.
    ///
    /// The new connection takes its addresses and ports from the headers,
    /// so the table keeps its invariant where `quad` is the quad that the
    /// headers address.
    pub fn handle(
        &mut self,
        quad: Quad,
        ip: &Ipv4HeaderView,
        tcp: &TcpHeaderView,
        payload: &[u8],
        iss: u32,
    ) -> (r: Result<Option<Vec<u8>>, EngineError>)
        ensures
            final(self)@ == handled(old(self)@, quad, *ip, *tcp, payload@.len(), iss),
            r is Err <==> old(self)@.contains_key(quad) && old(self)@[quad].resets(*tcp),
            r matches Err(e) ==> e == EngineError::Reset,
            r matches Ok(frame) ==> carries(
                frame,
                handle_reply(old(self)@, quad, *ip, *tcp, payload@.len(), iss),
            ),
            old(self).wf() && (old(self)@.contains_key(quad) || quad == Quad::of_inbound(
                *ip,
                *tcp,
            )) ==> final(self).wf(),
    {
        match self.get(&quad) {
            Some(found) => {
                let mut connection = found;
                proof {
                    lemma_identity_is_fixed(connection, *tcp, payload@.len());
                }
                let outcome = connection.on_packet(tcp, payload);
                self.settle(&quad, connection);
                match outcome {
                    Ok(frame) => Ok(frame),
                    Err(_) => Err(EngineError::Reset),
                }
            },
            None => match Connection::accept(ip, tcp, payload, iss) {
                Some((connection, frame)) => {
                    self.settle(&quad, connection);
                    Ok(Some(frame))
                },
                None => Ok(encode_reply(refuse(ip, tcp, payload.len()))),
            },
        }
    }

    /// Hands one frame read off the tunnel interface to the engine: finds
    /// the TCP segment in it and handles it under the quad it addresses. A
    /// frame that holds no segment changes nothing.
    pub fn on_frame(&mut self, frame: &[u8], iss: u32) -> (r: Result<Handled, DecodeError>)
        ensures
            match decoded(frame@) {
                Err(e) => {
                    &&& final(self)@ == old(self)@
                    &&& r matches Err(refused)
                    &&& refused == e
                },
                Ok(s) => {
                    let quad = Quad::of_inbound(s.ip, s.tcp);
                    let payload_len = (frame@.len() - payload_start(s)) as nat;
                    &&& final(self)@ == handled(old(self)@, quad, s.ip, s.tcp, payload_len, iss)
                    &&& r matches Ok(h)
                    &&& h.segment == s
                    &&& h.payload_len == payload_len
                    &&& h.quad == quad
                    &&& h.known == old(self)@.contains_key(quad)
                    &&& h.outcome is Err <==> old(self)@.contains_key(quad) && old(
                        self,
                    )@[quad].resets(s.tcp)
                    &&& h.outcome matches Err(e) ==> e == EngineError::Reset
                    &&& h.outcome matches Ok(out) ==> carries(
                        out,
                        handle_reply(old(self)@, quad, s.ip, s.tcp, payload_len, iss),
                    )
                },
            },
            old(self).wf() ==> final(self).wf(),
    {
        match decode_frame(frame) {
            Ok((segment, payload)) => {
                let quad = Quad::inbound(&segment.ip, &segment.tcp);
                let known = self.get(&quad).is_some();
                let outcome = self.handle(quad, &segment.ip, &segment.tcp, payload, iss);
                Ok(Handled { segment, payload_len: payload.len(), quad, known, outcome })
            },
            Err(e) => Err(e),
        }
    }

    /// Opens a connection to the remote side of `quad`, with `iss` as the
    /// initial send sequence number, and returns the SYN to transmit. A
    /// quad that already has a connection keeps it, and nothing is sent.
    pub fn connect(&mut self, quad: Quad, iss: u32) -> (frame: Option<Vec<u8>>)
        ensures
            final(self)@ == if old(self)@.contains_key(quad) {
                old(self)@
            } else {
                old(self)@.insert(quad, Connection::connecting(quad, iss))
            },
            carries(
                frame,
                if old(self)@.contains_key(quad) {
                    None
                } else {
                    Some(Connection::connecting(quad, iss).syn_segment())
                },
            ),
            old(self).wf() ==> final(self).wf(),
    {
        match self.get(&quad) {
            Some(_) => None,
            None => {
                let (connection, frame) = Connection::connect(quad, iss);
                self.settle(&quad, connection);
                Some(frame)
            },
        }
    }

    /// Closes the local side of the connection of `quad` and returns the
    /// FIN to transmit, if the connection sends one.
    pub fn close(&mut self, quad: Quad) -> (frame: Option<Vec<u8>>)
        ensures
            final(self)@ == closed(old(self)@, quad),
            carries(
                frame,
                if old(self)@.contains_key(quad) {
                    old(self)@[quad].close_step().reply
                } else {
                    None
                },
            ),
            old(self).wf() ==> final(self).wf(),
    {
        match self.get(&quad) {
            Some(found) => {
                let mut connection = found;
                let frame = connection.close();
                let key = quad.key();
                proof {
                    lemma_by_quad_insert(self.connections@, quad, connection);
                }
                self.connections.insert(key, connection);
                frame
            },
            None => None,
        }
    }

    /// The TIME-WAIT timer of `quad` fired: its connection leaves the table
    /// if it is in TIME-WAIT. For any other connection, and for a quad the
    /// table does not know, nothing happens.
    pub fn on_time_wait_expired(&mut self, quad: Quad)
        ensures
            final(self)@ == expired(old(self)@, quad),
            old(self).wf() ==> final(self).wf(),
    {
        if let Some(found) = self.get(&quad) {
            if let State::TimeWait = found.state {
                let mut connection = found;
                connection.on_time_wait_expired();
                self.settle(&quad, connection);
            }
        }
    }
}

} // verus!

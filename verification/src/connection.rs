//! One TCP connection: its state tag, its two sequence spaces, and the
//! function that moves it forward by one inbound segment.
//!
//! What a segment does to a connection is defined once, as the spec function
//! [`Connection::segment_step`]. The executable methods are proved to follow
//! it, and the laws in [`crate::laws`] are proved about it.

use vstd::prelude::*;
use crate::laws::lemma_segment_step_keeps_wf;
use crate::quad::Quad;
use crate::segment::Ipv4HeaderView;
use crate::segment::IPV4_HEADER_LEN;
use crate::segment::Segment;
use crate::segment::TcpHeaderView;
use crate::segment::TCP_HEADER_LEN;
use crate::seq::advance;
use crate::seq::distance;
use crate::seq::is_between_wrapped;
use crate::seq::lemma_distance_adds;
use crate::seq::lemma_window_by_between;
use crate::seq::seq_before;
use crate::seq::seq_distance;
use crate::seq::seq_plus;
use crate::seq::wrapping_lt;
use crate::state::Event;
use crate::state::State;
use crate::transmit::carries;
use crate::transmit::encode_control;
use crate::transmit::encode_reply;
use crate::transmit::frame_bytes;

verus! {

/// The window recorded for the peer until its first window update arrives,
/// and the window an actively opened connection advertises.
pub const INITIAL_WINDOW: u16 = 10;

/// Sequence numbers of what we send.
#[derive(Clone, Copy, Debug, PartialEq, Eq, Structural)]
pub struct SendSequenceSpace {
    /// Oldest sequence number not yet acknowledged.
    pub una: u32,
    /// Next sequence number to send.
    pub nxt: u32,
    /// The peer's receive window, as last learned.
    pub wnd: u16,
    /// Urgent flag.
    pub up: bool,
    /// Sequence number of the segment that last updated `wnd`.
    pub wl1: u32,
    /// Acknowledgment number of the segment that last updated `wnd`.
    pub wl2: u32,
    /// Initial send sequence number.
    pub iss: u32,
}

/// Sequence numbers of what we receive.
#[derive(Clone, Copy, Debug, PartialEq, Eq, Structural)]
pub struct RecvSequenceSpace {
    /// Next sequence number expected from the peer.
    pub nxt: u32,
    /// The receive window we advertise.
    pub wnd: u16,
    /// Urgent flag.
    pub up: bool,
    /// Initial receive sequence number.
    pub irs: u32,
}

/// Why a connection stopped taking segments.
#[derive(Clone, Copy, Debug, PartialEq, Eq, Structural)]
pub enum ConnectionError {
    /// The peer sent RST. The connection is closed and must leave the table.
    Reset,
}

/// One connection.
#[derive(Clone, Copy, Debug, PartialEq, Eq, Structural)]
pub struct Connection {
    pub state: State,
    pub send: SendSequenceSpace,
    pub recv: RecvSequenceSpace,
    /// Addresses and ports, fixed for the life of the connection.
    pub quad: Quad,
}

/// A connection after one segment, and the segment to send in return.
pub struct Step {
    pub next: Connection,
    pub reply: Option<Segment>,
}

impl Connection {
    /// The invariant of a connection: exactly the SYN or the FIN that the
    /// state says is unacknowledged lies between `send.una` and `send.nxt`.
    /// A closed or listening connection keeps whatever it had, at most one.
    pub open spec fn wf(self) -> bool {
        match self.state {
            State::Closed | State::Listen => seq_distance(self.send.una, self.send.nxt) <= 1,
            s => seq_distance(self.send.una, self.send.nxt) == s.outstanding(),
        }
    }

    /// A segment from this connection to its peer with the given sequence
    /// number and flags. It acknowledges `recv.nxt` and advertises
    /// `recv.wnd`.
    pub open spec fn segment(self, sequence_number: u32, syn: bool, ack: bool, fin: bool) -> Segment {
        Segment {
            source: self.quad.local_addr,
            destination: self.quad.remote_addr,
            source_port: self.quad.local_port,
            destination_port: self.quad.remote_port,
            sequence_number,
            acknowledgment_number: if ack { self.recv.nxt } else { 0 },
            window_size: self.recv.wnd,
            syn,
            ack,
            fin,
            rst: false,
        }
    }

    /// The bare acknowledgment: sequence number `send.nxt`, acknowledging
    /// `recv.nxt`.
    pub open spec fn ack_segment(self) -> Segment {
        self.segment(self.send.nxt, false, true, false)
    }

    /// The SYN+ACK of the handshake: sequence number `send.iss`,
    /// acknowledging `recv.nxt`.
    pub open spec fn syn_ack_segment(self) -> Segment {
        self.segment(self.send.iss, true, true, false)
    }

    /// The SYN of an active open: sequence number `send.iss`.
    pub open spec fn syn_segment(self) -> Segment {
        self.segment(self.send.iss, true, false, false)
    }

    /// The FIN of a close: sequence number `send.nxt`, acknowledging
    /// `recv.nxt`.
    pub open spec fn fin_segment(self) -> Segment {
        self.segment(self.send.nxt, false, true, true)
    }

    /// The connection a bare SYN opens, with `iss` as its initial send
    /// sequence number.
    pub open spec fn accepted(ip: Ipv4HeaderView, tcp: TcpHeaderView, iss: u32) -> Connection {
        Connection {
            state: State::SynRcvd,
            send: SendSequenceSpace {
                una: iss,
                nxt: seq_plus(iss, 1),
                wnd: INITIAL_WINDOW,
                up: false,
                wl1: 0,
                wl2: 0,
                iss,
            },
            recv: RecvSequenceSpace {
                nxt: seq_plus(tcp.sequence_number, 1),
                wnd: tcp.window_size,
                up: false,
                irs: tcp.sequence_number,
            },
            quad: Quad::of_inbound(ip, tcp),
        }
    }

    /// The connection an active open creates, before the peer has answered.
    pub open spec fn connecting(quad: Quad, iss: u32) -> Connection {
        Connection {
            state: State::SynSent,
            send: SendSequenceSpace {
                una: iss,
                nxt: seq_plus(iss, 1),
                wnd: INITIAL_WINDOW,
                up: false,
                wl1: 0,
                wl2: 0,
                iss,
            },
            recv: RecvSequenceSpace { nxt: 0, wnd: INITIAL_WINDOW, up: false, irs: 0 },
            quad,
        }
    }

    /// The acceptability test: the first sequence number of the segment,
    /// and the last one it occupies, lie in the receive window
    /// `[recv.nxt, recv.nxt + recv.wnd)`. Where the window is empty, a
    /// segment that occupies no sequence space is still acceptable exactly
    /// at `recv.nxt`, so that acknowledgments keep arriving.
    pub open spec fn acceptable(self, tcp: TcpHeaderView, payload_len: nat) -> bool {
        let offset = seq_distance(self.recv.nxt, tcp.sequence_number);
        if tcp.seg_len(payload_len) == 0 && self.recv.wnd == 0 {
            offset == 0
        } else {
            offset < self.recv.wnd && offset + tcp.seg_len(payload_len) <= self.recv.wnd
        }
    }

    /// The segment acknowledges something new: `send.una < ack <= send.nxt`.
    pub open spec fn acknowledges(self, tcp: TcpHeaderView) -> bool {
        tcp.ack && 0 < seq_distance(self.send.una, tcp.acknowledgment_number) <= seq_distance(
            self.send.una,
            self.send.nxt,
        )
    }

    /// The segment's window replaces `send.wnd`: its acknowledgment is not
    /// ahead of what was sent nor behind what was acknowledged, and the
    /// segment is not older than the one that set the window last. The
    /// acknowledgment that ends the handshake always sets it.
    pub open spec fn updates_window(self, tcp: TcpHeaderView) -> bool {
        &&& tcp.ack
        &&& seq_distance(self.send.una, tcp.acknowledgment_number) <= seq_distance(
            self.send.una,
            self.send.nxt,
        )
        &&& {
            ||| self.state == State::SynRcvd
            ||| seq_before(self.send.wl1, tcp.sequence_number)
            ||| (self.send.wl1 == tcp.sequence_number && !seq_before(
                tcp.acknowledgment_number,
                self.send.wl2,
            ))
        }
    }

    /// The segment is the peer's SYN once more, sent because our SYN+ACK
    /// did not reach it.
    pub open spec fn is_syn_retransmission(self, tcp: TcpHeaderView) -> bool {
        self.state == State::SynRcvd && tcp.is_bare_syn() && tcp.sequence_number == self.recv.irs
    }

    /// The segment ends the connection: it carries RST and the connection
    /// is neither closed nor listening.
    pub open spec fn resets(self, tcp: TcpHeaderView) -> bool {
        tcp.rst && self.state != State::Closed && self.state != State::Listen
    }

    /// The connection after the acknowledgment field of `tcp` is applied:
    /// `send.una` moves up to it, the window is updated, and a SYN or FIN
    /// that is now acknowledged moves the state.
    pub open spec fn after_ack(self, tcp: TcpHeaderView) -> Connection {
        let covers = self.acknowledges(tcp);
        let completes = covers && (self.state == State::SynRcvd || tcp.acknowledgment_number
            == self.send.nxt);
        Connection {
            state: if completes { self.state.after(Event::Acked) } else { self.state },
            send: SendSequenceSpace {
                una: if covers { tcp.acknowledgment_number } else { self.send.una },
                wnd: if self.updates_window(tcp) { tcp.window_size } else { self.send.wnd },
                wl1: if self.updates_window(tcp) { tcp.sequence_number } else { self.send.wl1 },
                wl2: if self.updates_window(tcp) { tcp.acknowledgment_number } else { self.send.wl2 },
                ..self.send
            },
            ..self
        }
    }

    /// The step that payload and FIN of an acceptable segment make, once
    /// its acknowledgment is applied. Only a segment that starts exactly at
    /// `recv.nxt` is taken; one that starts later in the window is answered
    /// with the acknowledgment of what is still missing. After the peer's
    /// FIN nothing more is taken.
    pub open spec fn text_step(self, tcp: TcpHeaderView, payload_len: nat) -> Step {
        let len = tcp.seg_len(payload_len);
        if len == 0 || !self.state.receives() {
            Step { next: self, reply: None }
        } else if tcp.sequence_number != self.recv.nxt {
            Step { next: self, reply: Some(self.ack_segment()) }
        } else {
            let next = Connection {
                state: if tcp.fin { self.state.after(Event::Fin) } else { self.state },
                recv: RecvSequenceSpace { nxt: seq_plus(self.recv.nxt, len as int), ..self.recv },
                ..self
            };
            Step { next, reply: Some(next.ack_segment()) }
        }
    }

    /// The step of a connection in SYN-SENT. A segment whose acknowledgment
    /// does not cover our SYN, or that carries no SYN, is ignored. A SYN
    /// that acknowledges ours establishes the connection and is answered
    /// with ACK; a SYN alone moves to SYN-RCVD and is answered with SYN+ACK.
    pub open spec fn syn_sent_step(self, tcp: TcpHeaderView) -> Step {
        if (tcp.ack && !self.acknowledges(tcp)) || !tcp.syn {
            Step { next: self, reply: None }
        } else {
            let recv = RecvSequenceSpace {
                nxt: seq_plus(tcp.sequence_number, 1),
                irs: tcp.sequence_number,
                ..self.recv
            };
            if tcp.ack {
                let next = Connection {
                    state: self.state.after(Event::SynAck),
                    send: SendSequenceSpace {
                        una: tcp.acknowledgment_number,
                        wnd: tcp.window_size,
                        wl1: tcp.sequence_number,
                        wl2: tcp.acknowledgment_number,
                        ..self.send
                    },
                    recv,
                    ..self
                };
                Step { next, reply: Some(next.ack_segment()) }
            } else {
                let next = Connection { state: self.state.after(Event::Syn), recv, ..self };
                Step { next, reply: Some(next.syn_ack_segment()) }
            }
        }
    }

    /// What one inbound segment does to the connection, and what is sent in
    /// return.
    ///
    /// - A closed or listening connection takes nothing.
    /// - RST closes the connection, whatever its sequence number.
    /// - SYN-SENT follows [`Self::syn_sent_step`].
    /// - In SYN-RCVD the peer's SYN once more is answered with our SYN+ACK
    ///   once more.
    /// - A segment that fails the acceptability test
    ///   ([`Self::acceptable`]) changes nothing. If it occupies sequence
    ///   space it is answered with an acknowledgment of `recv.nxt`.
    /// - An acceptable segment with SYN is answered with an acknowledgment
    ///   and changes nothing.
    /// - An acceptable segment without ACK is ignored, and so is every
    ///   acceptable segment in TIME-WAIT, and in SYN-RCVD one whose
    ///   acknowledgment does not cover our SYN.
    /// - Otherwise the acknowledgment is applied ([`Self::after_ack`]) and
    ///   then payload and FIN ([`Self::text_step`]).
    pub open spec fn segment_step(self, tcp: TcpHeaderView, payload_len: nat) -> Step {
        if self.state == State::Closed || self.state == State::Listen {
            Step { next: self, reply: None }
        } else if tcp.rst {
            Step { next: Connection { state: self.state.after(Event::Reset), ..self }, reply: None }
        } else if self.state == State::SynSent {
            self.syn_sent_step(tcp)
        } else if self.is_syn_retransmission(tcp) {
            Step { next: self, reply: Some(self.syn_ack_segment()) }
        } else if !self.acceptable(tcp, payload_len) {
            Step {
                next: self,
                reply: if tcp.seg_len(payload_len) > 0 {
                    Some(self.ack_segment())
                } else {
                    None
                },
            }
        } else if tcp.syn {
            Step { next: self, reply: Some(self.ack_segment()) }
        } else if !tcp.ack || self.state == State::TimeWait || (self.state == State::SynRcvd
            && !self.acknowledges(tcp)) {
            Step { next: self, reply: None }
        } else {
            self.after_ack(tcp).text_step(tcp, payload_len)
        }
    }

    /// What `on_segment` returns: the reset signal where the segment resets
    /// the connection, else the reply of [`Self::segment_step`].
    pub open spec fn segment_result(self, tcp: TcpHeaderView, payload_len: nat) -> Result<
        Option<Segment>,
        ConnectionError,
    > {
        if self.resets(tcp) {
            Err(ConnectionError::Reset)
        } else {
            Ok(self.segment_step(tcp, payload_len).reply)
        }
    }

    /// What a local close does: in ESTABLISHED and CLOSE-WAIT a FIN is sent
    /// and takes one sequence number; elsewhere nothing happens.
    pub open spec fn close_step(self) -> Step {
        if self.state == State::Established || self.state == State::CloseWait {
            Step {
                next: Connection {
                    state: self.state.after_close(),
                    send: SendSequenceSpace { nxt: seq_plus(self.send.nxt, 1), ..self.send },
                    ..self
                },
                reply: Some(self.fin_segment()),
            }
        } else {
            Step { next: self, reply: None }
        }
    }

    /// Builds a segment from this connection to its peer.
    fn make_segment(&self, sequence_number: u32, syn: bool, ack: bool, fin: bool) -> (s: Segment)
        ensures
            s == self.segment(sequence_number, syn, ack, fin),
    {
        Segment {
            source: self.quad.local_addr,
            destination: self.quad.remote_addr,
            source_port: self.quad.local_port,
            destination_port: self.quad.remote_port,
            sequence_number,
            acknowledgment_number: if ack { self.recv.nxt } else { 0 },
            window_size: self.recv.wnd,
            syn,
            ack,
            fin,
            rst: false,
        }
    }

    /// Runs the acceptability test: the first and the last sequence number
    /// of the segment must lie between the number before `recv.nxt` and the
    /// first number behind the window. In an empty window only a segment
    /// without payload, SYN or FIN passes, and only at `recv.nxt`.
    pub fn accepts(&self, tcp: &TcpHeaderView, payload_len: usize) -> (r: bool)
        ensures
            r == self.acceptable(*tcp, payload_len as nat),
    {
        let window: u32 = self.recv.wnd as u32;
        let first: u32 = tcp.sequence_number;
        let occupies = payload_len > 0 || tcp.syn || tcp.fin;
        if window == 0 && !occupies {
            return first == self.recv.nxt;
        }
        let left: u32 = advance(self.recv.nxt, 0xffff_ffff);
        let right: u32 = advance(self.recv.nxt, window);
        let first_inside = is_between_wrapped(left, first, right);
        assert(first_inside == (seq_distance(self.recv.nxt, first) < window)) by {
            lemma_window_by_between(self.recv.nxt, window, first);
        }
        if !first_inside || payload_len > window as usize {
            return false;
        }
        let mut len: u32 = payload_len as u32;
        if tcp.syn {
            len = len + 1;
        }
        if tcp.fin {
            len = len + 1;
        }
        if len == 0 {
            return true;
        }
        let last: u32 = advance(first, len - 1);
        let last_inside = is_between_wrapped(left, last, right);
        assert(last_inside == (seq_distance(self.recv.nxt, first) + len <= window)) by {
            lemma_distance_adds(self.recv.nxt, first, len - 1);
            lemma_window_by_between(self.recv.nxt, window, last);
        }
        last_inside
    }

    /// Whether the segment acknowledges something new.
    fn acks_new(&self, tcp: &TcpHeaderView) -> (r: bool)
        ensures
            r == self.acknowledges(*tcp),
    {
        let acked: u32 = distance(self.send.una, tcp.acknowledgment_number);
        tcp.ack && 0 < acked && acked <= distance(self.send.una, self.send.nxt)
    }

    /// Whether the segment's window replaces `send.wnd`.
    fn takes_window(&self, tcp: &TcpHeaderView) -> (r: bool)
        ensures
            r == self.updates_window(*tcp),
    {
        if !tcp.ack {
            return false;
        }
        let acked: u32 = distance(self.send.una, tcp.acknowledgment_number);
        if acked > distance(self.send.una, self.send.nxt) {
            return false;
        }
        if let State::SynRcvd = self.state {
            return true;
        }
        wrapping_lt(self.send.wl1, tcp.sequence_number) || (self.send.wl1 == tcp.sequence_number
            && !wrapping_lt(tcp.acknowledgment_number, self.send.wl2))
    }

    /// Applies the acknowledgment field of `tcp`.
    fn apply_ack(&mut self, tcp: &TcpHeaderView)
        ensures
            *final(self) == old(self).after_ack(*tcp),
    {
        let covers = self.acks_new(tcp);
        let window = self.takes_window(tcp);
        let handshake = match self.state {
            State::SynRcvd => true,
            _ => false,
        };
        if covers {
            if handshake || tcp.acknowledgment_number == self.send.nxt {
                self.state.on_packet(Event::Acked);
            }
            self.send.una = tcp.acknowledgment_number;
        }
        if window {
            self.send.wnd = tcp.window_size;
            self.send.wl1 = tcp.sequence_number;
            self.send.wl2 = tcp.acknowledgment_number;
        }
    }

    /// Takes payload and FIN of an acceptable segment.
    fn take_text(&mut self, tcp: &TcpHeaderView, payload_len: usize) -> (reply: Option<Segment>)
        requires
            old(self).acceptable(*tcp, payload_len as nat),
        ensures
            *final(self) == old(self).text_step(*tcp, payload_len as nat).next,
            reply == old(self).text_step(*tcp, payload_len as nat).reply,
    {
        assert(payload_len <= 0xffff);
        let mut len: u32 = payload_len as u32;
        if tcp.syn {
            len = len + 1;
        }
        if tcp.fin {
            len = len + 1;
        }
        if len == 0 || !self.state.can_receive() {
            return None;
        }
        if tcp.sequence_number != self.recv.nxt {
            return Some(self.make_segment(self.send.nxt, false, true, false));
        }
        self.recv.nxt = advance(self.recv.nxt, len);
        if tcp.fin {
            self.state.on_packet(Event::Fin);
        }
        Some(self.make_segment(self.send.nxt, false, true, false))
    }

    /// Takes one segment in SYN-SENT.
    fn on_segment_syn_sent(&mut self, tcp: &TcpHeaderView) -> (reply: Option<Segment>)
        ensures
            *final(self) == old(self).syn_sent_step(*tcp).next,
            reply == old(self).syn_sent_step(*tcp).reply,
    {
        if tcp.ack && !self.acks_new(tcp) {
            return None;
        }
        if !tcp.syn {
            return None;
        }
        self.recv.irs = tcp.sequence_number;
        self.recv.nxt = advance(tcp.sequence_number, 1);
        if tcp.ack {
            self.send.una = tcp.acknowledgment_number;
            self.send.wnd = tcp.window_size;
            self.send.wl1 = tcp.sequence_number;
            self.send.wl2 = tcp.acknowledgment_number;
            self.state.on_packet(Event::SynAck);
            Some(self.make_segment(self.send.nxt, false, true, false))
        } else {
            self.state.on_packet(Event::Syn);
            Some(self.make_segment(self.send.iss, true, true, false))
        }
    }

    /// Moves the connection forward by one inbound segment with
    /// `payload_len` bytes of payload, and returns the segment to send in
    /// return, if any.
    ///
    /// `Err(Reset)` comes exactly when the segment carries RST and the
    /// connection was neither closed nor listening; the connection is then
    /// closed.
    pub fn on_segment(&mut self, tcp: &TcpHeaderView, payload_len: usize) -> (r: Result<
        Option<Segment>,
        ConnectionError,
    >)
        ensures
            *final(self) == old(self).segment_step(*tcp, payload_len as nat).next,
            r == old(self).segment_result(*tcp, payload_len as nat),
            old(self).wf() ==> final(self).wf(),
    {
        proof {
            if self.wf() {
                lemma_segment_step_keeps_wf(*self, *tcp, payload_len as nat);
            }
        }
        match self.state {
            State::Closed | State::Listen => {
                return Ok(None);
            },
            _ => {},
        }
        if tcp.rst {
            self.state.on_packet(Event::Reset);
            return Err(ConnectionError::Reset);
        }
        if let State::SynSent = self.state {
            let reply = self.on_segment_syn_sent(tcp);
            return Ok(reply);
        }
        let handshake = match self.state {
            State::SynRcvd => true,
            _ => false,
        };
        if handshake && tcp.syn && !tcp.ack && tcp.sequence_number == self.recv.irs {
            return Ok(Some(self.make_segment(self.send.iss, true, true, false)));
        }
        if !self.accepts(tcp, payload_len) {
            if payload_len > 0 || tcp.syn || tcp.fin {
                return Ok(Some(self.make_segment(self.send.nxt, false, true, false)));
            }
            return Ok(None);
        }
        if tcp.syn {
            return Ok(Some(self.make_segment(self.send.nxt, false, true, false)));
        }
        if !tcp.ack {
            return Ok(None);
        }
        if let State::TimeWait = self.state {
            return Ok(None);
        }
        if handshake && !self.acks_new(tcp) {
            return Ok(None);
        }
        self.apply_ack(tcp);
        let reply = self.take_text(tcp, payload_len);
        Ok(reply)
    }

    /// Moves the connection forward by one inbound segment and returns the
    /// datagram to transmit in return, if any.
    ///
    /// `Err(Reset)` comes exactly when the segment carries RST and the
    /// connection was neither closed nor listening; the connection is then
    /// closed and must leave the table.
    pub fn on_packet(&mut self, tcp: &TcpHeaderView, payload: &[u8]) -> (r: Result<
        Option<Vec<u8>>,
        ConnectionError,
    >)
        ensures
            *final(self) == old(self).segment_step(*tcp, payload@.len()).next,
            r is Err <==> old(self).resets(*tcp),
            r matches Err(e) ==> e == ConnectionError::Reset,
            r matches Ok(frame) ==> carries(
                frame,
                old(self).segment_step(*tcp, payload@.len()).reply,
            ),
            old(self).wf() ==> final(self).wf(),
    {
        match self.on_segment(tcp, payload.len()) {
            Ok(reply) => Ok(encode_reply(reply)),
            Err(e) => Err(e),
        }
    }

    /// Answers a connection request. A segment with SYN set and ACK clear
    /// opens a connection in SYN-RCVD with `iss` as its initial send
    /// sequence number, and the SYN+ACK to transmit comes with it. Every
    /// other segment is dropped. Payload that rides on the SYN is not
    /// taken.
    pub fn accept(ip: &Ipv4HeaderView, tcp: &TcpHeaderView, payload: &[u8], iss: u32) -> (r: Option<
        (Connection, Vec<u8>),
    >)
        ensures
            r is Some <==> tcp.is_bare_syn(),
            r matches Some((connection, frame)) ==> {
                &&& connection == Connection::accepted(*ip, *tcp, iss)
                &&& frame@ == frame_bytes(connection.syn_ack_segment(), Seq::<u8>::empty())
                &&& frame@.len() == IPV4_HEADER_LEN + TCP_HEADER_LEN
                &&& connection.wf()
            },
    {
        if !tcp.syn || tcp.ack {
            return None;
        }
        let connection = Connection {
            state: State::SynRcvd,
            send: SendSequenceSpace {
                una: iss,
                nxt: advance(iss, 1),
                wnd: INITIAL_WINDOW,
                up: false,
                wl1: 0,
                wl2: 0,
                iss,
            },
            recv: RecvSequenceSpace {
                nxt: advance(tcp.sequence_number, 1),
                wnd: tcp.window_size,
                up: false,
                irs: tcp.sequence_number,
            },
            quad: Quad::inbound(ip, tcp),
        };
        let syn_ack = connection.make_segment(iss, true, true, false);
        Some((connection, encode_control(&syn_ack)))
    }

    /// Opens a connection actively: the connection in SYN-SENT with `iss`
    /// as its initial send sequence number, and the SYN to transmit.
    pub fn connect(quad: Quad, iss: u32) -> (r: (Connection, Vec<u8>))
        ensures
            r.0 == Connection::connecting(quad, iss),
            r.1@ == frame_bytes(r.0.syn_segment(), Seq::<u8>::empty()),
            r.1@.len() == IPV4_HEADER_LEN + TCP_HEADER_LEN,
            r.0.wf(),
    {
        let connection = Connection {
            state: State::SynSent,
            send: SendSequenceSpace {
                una: iss,
                nxt: advance(iss, 1),
                wnd: INITIAL_WINDOW,
                up: false,
                wl1: 0,
                wl2: 0,
                iss,
            },
            recv: RecvSequenceSpace { nxt: 0, wnd: INITIAL_WINDOW, up: false, irs: 0 },
            quad,
        };
        let syn = connection.make_segment(iss, true, false, false);
        (connection, encode_control(&syn))
    }

    /// Closes the local side. In ESTABLISHED and CLOSE-WAIT the FIN to
    /// transmit is returned and the state moves on; elsewhere nothing
    /// happens.
    pub fn close(&mut self) -> (frame: Option<Vec<u8>>)
        ensures
            *final(self) == old(self).close_step().next,
            carries(frame, old(self).close_step().reply),
            old(self).wf() ==> final(self).wf(),
    {
        match self.state {
            State::Established | State::CloseWait => {
                let fin = self.make_segment(self.send.nxt, false, true, true);
                self.send.nxt = advance(self.send.nxt, 1);
                self.state.on_close();
                Some(encode_control(&fin))
            },
            _ => None,
        }
    }

    /// The TIME-WAIT timer fired: a connection in TIME-WAIT closes, any
    /// other stays as it is.
    pub fn on_time_wait_expired(&mut self)
        ensures
            *final(self) == (Connection { state: old(self).state.after_timeout(), ..*old(self) }),
            old(self).wf() ==> final(self).wf(),
    {
        self.state.on_timeout();
    }
}

} // verus!

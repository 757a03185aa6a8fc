//! What holds of every connection, proved about the step functions of
//! [`crate::connection`].

use vstd::prelude::*;
use crate::connection::Connection;
use crate::connection::ConnectionError;
use crate::segment::Ipv4HeaderView;
use crate::segment::Segment;
use crate::segment::TcpHeaderView;
use crate::seq::seq_before;
use crate::seq::seq_distance;
use crate::seq::seq_plus;
use crate::state::State;

verus! {

/// In a well-formed connection `send.una` is not after `send.nxt`.
pub proof fn lemma_send_space_is_ordered(c: Connection)
    requires
        c.wf(),
    ensures
        !seq_before(c.send.nxt, c.send.una),
        seq_distance(c.send.una, c.send.nxt) <= 1,
{
}

/// In a well-formed connection an acknowledgment of something new
/// acknowledges everything sent.
pub proof fn lemma_new_ack_covers_all(c: Connection, tcp: TcpHeaderView)
    requires
        c.wf(),
        c.acknowledges(tcp),
    ensures
        tcp.acknowledgment_number == c.send.nxt,
        c.state.outstanding() == 1 || c.state == State::Closed || c.state == State::Listen,
{
}

/// Applying an acknowledgment keeps a synchronized connection well-formed.
pub proof fn lemma_after_ack_keeps_wf(c: Connection, tcp: TcpHeaderView)
    requires
        c.wf(),
        c.state != State::SynSent,
    ensures
        c.after_ack(tcp).wf(),
{
    if c.acknowledges(tcp) {
        lemma_new_ack_covers_all(c, tcp);
    }
}

/// Taking payload and FIN keeps a connection well-formed.
pub proof fn lemma_text_step_keeps_wf(c: Connection, tcp: TcpHeaderView, payload_len: nat)
    requires
        c.wf(),
    ensures
        c.text_step(tcp, payload_len).next.wf(),
{
}

/// The step in SYN-SENT keeps a connection well-formed.
pub proof fn lemma_syn_sent_step_keeps_wf(c: Connection, tcp: TcpHeaderView)
    requires
        c.wf(),
        c.state == State::SynSent,
    ensures
        c.syn_sent_step(tcp).next.wf(),
{
    if c.acknowledges(tcp) {
        lemma_new_ack_covers_all(c, tcp);
    }
}

/// No segment takes a connection out of its invariant.
pub proof fn lemma_segment_step_keeps_wf(c: Connection, tcp: TcpHeaderView, payload_len: nat)
    requires
        c.wf(),
    ensures
        c.segment_step(tcp, payload_len).next.wf(),
{
    if c.state == State::Closed || c.state == State::Listen {
    } else if tcp.rst {
    } else if c.state == State::SynSent {
        lemma_syn_sent_step_keeps_wf(c, tcp);
    } else {
        lemma_after_ack_keeps_wf(c, tcp);
        lemma_text_step_keeps_wf(c.after_ack(tcp), tcp, payload_len);
    }
}

/// A local close keeps a connection well-formed.
pub proof fn lemma_close_step_keeps_wf(c: Connection)
    requires
        c.wf(),
    ensures
        c.close_step().next.wf(),
{
}

/// Nothing changes the initial send sequence number, the addresses or the
/// ports of a connection.
pub proof fn lemma_identity_is_fixed(c: Connection, tcp: TcpHeaderView, payload_len: nat)
    ensures
        c.segment_step(tcp, payload_len).next.send.iss == c.send.iss,
        c.segment_step(tcp, payload_len).next.quad == c.quad,
        c.close_step().next.send.iss == c.send.iss,
        c.close_step().next.recv.irs == c.recv.irs,
        c.close_step().next.quad == c.quad,
{
}

/// A segment never moves `send.nxt`, and moves `send.una` forward only, and
/// never past `send.nxt`.
pub proof fn lemma_send_space_only_advances(c: Connection, tcp: TcpHeaderView, payload_len: nat)
    ensures
        ({
            let next = c.segment_step(tcp, payload_len).next;
            &&& next.send.nxt == c.send.nxt
            &&& seq_distance(c.send.una, next.send.una) <= seq_distance(c.send.una, c.send.nxt)
        }),
{
}

/// Once the peer's SYN is in, a segment never changes the initial receive
/// sequence number, and `recv.nxt` either stays or moves forward by exactly
/// the sequence numbers of a segment that starts at `recv.nxt` and fits the
/// window.
pub proof fn lemma_receive_space_only_advances(c: Connection, tcp: TcpHeaderView, payload_len: nat)
    requires
        c.state != State::SynSent,
    ensures
        ({
            let next = c.segment_step(tcp, payload_len).next;
            &&& next.recv.irs == c.recv.irs
            &&& next.recv.wnd == c.recv.wnd
            &&& {
                ||| next.recv.nxt == c.recv.nxt
                ||| {
                    &&& c.acceptable(tcp, payload_len)
                    &&& tcp.sequence_number == c.recv.nxt
                    &&& 0 < tcp.seg_len(payload_len) <= c.recv.wnd
                    &&& next.recv.nxt == seq_plus(c.recv.nxt, tcp.seg_len(payload_len) as int)
                    &&& seq_distance(c.recv.nxt, next.recv.nxt) == tcp.seg_len(payload_len)
                }
            }
        }),
{
}

/// Every segment sent in return for an inbound one acknowledges `recv.nxt`
/// as it stands after the step. Its sequence number is `send.nxt`, but for
/// a SYN, which carries the initial send sequence number.
pub proof fn lemma_replies_carry_current_numbers(c: Connection, tcp: TcpHeaderView, payload_len: nat)
    ensures
        ({
            let step = c.segment_step(tcp, payload_len);
            step.reply matches Some(reply) ==> {
                &&& reply.ack && !reply.rst && !reply.fin
                &&& reply.acknowledgment_number == step.next.recv.nxt
                &&& reply.window_size == step.next.recv.wnd
                &&& if reply.syn {
                    reply.sequence_number == step.next.send.iss
                } else {
                    reply.sequence_number == step.next.send.nxt
                }
            }
        }),
{
}

/// The FIN of a local close carries `send.nxt` as it stood before,
/// acknowledges `recv.nxt`, and takes one sequence number.
pub proof fn lemma_fin_takes_one_sequence_number(c: Connection)
    ensures
        ({
            let step = c.close_step();
            step.reply matches Some(fin) ==> {
                &&& fin.fin && fin.ack && !fin.syn && !fin.rst
                &&& fin.sequence_number == c.send.nxt
                &&& fin.acknowledgment_number == c.recv.nxt
                &&& step.next.send.nxt == seq_plus(c.send.nxt, 1)
                &&& step.next.send.una == c.send.una
            }
        }),
{
}

/// Delivering a segment a second time, after its first delivery moved
/// `recv.nxt`, changes nothing and is answered with a segment that
/// acknowledges the same `recv.nxt` once more.
pub proof fn lemma_redelivery_is_idempotent(c: Connection, tcp: TcpHeaderView, payload_len: nat)
    requires
        c.segment_step(tcp, payload_len).next.recv.nxt != c.recv.nxt,
    ensures
        ({
            let first = c.segment_step(tcp, payload_len).next;
            let again = first.segment_step(tcp, payload_len);
            &&& again.next == first
            &&& first.segment_result(tcp, payload_len) == Ok::<Option<Segment>, ConnectionError>(
                again.reply,
            )
            &&& again.reply matches Some(reply)
            &&& reply.ack
            &&& reply.acknowledgment_number == first.recv.nxt
            &&& first.state != State::SynRcvd ==> reply == first.ack_segment()
        }),
{
}

/// A segment whose sequence number lies outside the receive window
/// `[recv.nxt, recv.nxt + recv.wnd)` changes nothing, where the segment
/// occupies sequence space or the window is not empty. Excepted are a
/// segment that carries RST, and a connection still in SYN-SENT, which has
/// no receive window yet.
pub proof fn lemma_out_of_window_is_rejected(c: Connection, tcp: TcpHeaderView, payload_len: nat)
    requires
        seq_distance(c.recv.nxt, tcp.sequence_number) >= c.recv.wnd,
        tcp.seg_len(payload_len) > 0 || c.recv.wnd > 0,
        !tcp.rst,
        c.state != State::SynSent,
    ensures
        c.segment_step(tcp, payload_len).next == c,
        c.segment_step(tcp, payload_len).next.recv.nxt == c.recv.nxt,
        c.segment_step(tcp, payload_len).next.state == c.state,
{
}

/// RST closes every connection that is neither closed nor listening,
/// whatever the sequence number of the segment, and is reported as a reset.
pub proof fn lemma_reset_closes(c: Connection, tcp: TcpHeaderView, payload_len: nat)
    requires
        tcp.rst,
        c.state != State::Closed,
        c.state != State::Listen,
    ensures
        c.segment_step(tcp, payload_len).next.state == State::Closed,
        c.segment_step(tcp, payload_len).reply is None,
        c.segment_result(tcp, payload_len) == Err::<Option<Segment>, ConnectionError>(
            ConnectionError::Reset,
        ),
{
}

/// An acknowledgment of everything sent that arrives at `recv.nxt` without
/// payload, SYN, FIN or RST is taken whatever the receive window is, an
/// empty one included: it ends the handshake in SYN-RCVD, moves FIN-WAIT-1
/// to FIN-WAIT-2, CLOSING to TIME-WAIT and LAST-ACK to CLOSED, and is not
/// answered.
pub proof fn lemma_plain_ack_is_taken_in_any_window(c: Connection, tcp: TcpHeaderView)
    requires
        c.wf(),
        c.state.outstanding() == 1,
        c.state != State::SynSent,
        is_plain_ack_of(tcp, c),
    ensures
        ({
            let step = c.segment_step(tcp, 0);
            &&& step.reply is None
            &&& step.next.send.una == c.send.nxt
            &&& step.next.recv == c.recv
            &&& step.next.state == match c.state {
                State::SynRcvd => State::Established,
                State::FinWait1 => State::FinWait2,
                State::Closing => State::TimeWait,
                _ => State::Closed,
            }
        }),
{
}

/// No segment without RST takes a connection out of TIME-WAIT. Only the
/// timer does, and it closes the connection.
pub proof fn lemma_time_wait_ends_by_timer_only(c: Connection, tcp: TcpHeaderView, payload_len: nat)
    requires
        c.state == State::TimeWait,
        !tcp.rst,
    ensures
        c.segment_step(tcp, payload_len).next == c,
        c.state.after_timeout() == State::Closed,
{
}

/// The handshake of a passive open. A bare SYN with sequence number `S` is
/// answered with one SYN+ACK that acknowledges `S + 1` from sequence number
/// `iss`, and leaves the connection in SYN-RCVD. The acknowledgment of
/// `iss + 1` that follows at `S + 1`, whatever window the SYN named, or
/// anywhere within that window, establishes the connection and is not
/// answered.
pub proof fn lemma_handshake(
    ip: Ipv4HeaderView,
    syn: TcpHeaderView,
    iss: u32,
    ack: TcpHeaderView,
)
    requires
        syn.is_bare_syn(),
        ack.ack && !ack.syn && !ack.fin && !ack.rst,
        ack.sequence_number == seq_plus(syn.sequence_number, 1) || seq_distance(
            seq_plus(syn.sequence_number, 1),
            ack.sequence_number,
        ) < syn.window_size,
        ack.acknowledgment_number == seq_plus(iss, 1),
    ensures
        ({
            let opened = Connection::accepted(ip, syn, iss);
            let reply = opened.syn_ack_segment();
            let step = opened.segment_step(ack, 0);
            &&& opened.state == State::SynRcvd
            &&& reply.syn && reply.ack && !reply.fin && !reply.rst
            &&& reply.sequence_number == iss
            &&& reply.acknowledgment_number == seq_plus(syn.sequence_number, 1)
            &&& step.next.state == State::Established
            &&& step.next.send.una == step.next.send.nxt
            &&& step.reply is None
        }),
{
}

/// The peer acknowledges everything sent, in order, and sends nothing
/// itself.
pub open spec fn is_plain_ack_of(tcp: TcpHeaderView, c: Connection) -> bool {
    &&& tcp.ack && !tcp.syn && !tcp.fin && !tcp.rst
    &&& tcp.sequence_number == c.recv.nxt
    &&& tcp.acknowledgment_number == c.send.nxt
}

/// The peer sends its FIN, in order, acknowledging `acknowledged`.
pub open spec fn is_fin_of(tcp: TcpHeaderView, c: Connection, acknowledged: u32) -> bool {
    &&& tcp.ack && tcp.fin && !tcp.syn && !tcp.rst
    &&& tcp.sequence_number == c.recv.nxt
    &&& tcp.acknowledgment_number == acknowledged
}

/// The four-way close. From ESTABLISHED a local close sends FIN and moves
/// to FIN-WAIT-1; the peer's acknowledgment of that FIN moves to
/// FIN-WAIT-2; the peer's FIN is acknowledged and moves to TIME-WAIT; the
/// timer closes.
pub proof fn lemma_four_way_close(c: Connection, ack: TcpHeaderView, fin: TcpHeaderView)
    requires
        c.wf(),
        c.state == State::Established,
        c.recv.wnd > 0,
        is_plain_ack_of(ack, c.close_step().next),
        is_fin_of(fin, c.close_step().next, c.close_step().next.send.nxt),
    ensures
        ({
            let closing = c.close_step();
            let acked = closing.next.segment_step(ack, 0);
            let done = acked.next.segment_step(fin, 0);
            &&& closing.next.state == State::FinWait1
            &&& closing.reply == Some(c.fin_segment())
            &&& acked.next.state == State::FinWait2
            &&& acked.reply is None
            &&& done.next.state == State::TimeWait
            &&& done.reply == Some(done.next.ack_segment())
            &&& done.next.recv.nxt == seq_plus(c.recv.nxt, 1)
            &&& done.next.state.after_timeout() == State::Closed
        }),
{
    lemma_close_step_keeps_wf(c);
}

/// The simultaneous close. From ESTABLISHED a local close moves to
/// FIN-WAIT-1; the peer's FIN, sent before ours reached it and so not
/// acknowledging ours, is acknowledged and moves to CLOSING, never to
/// FIN-WAIT-2; the peer's acknowledgment of our FIN moves to TIME-WAIT.
pub proof fn lemma_simultaneous_close(c: Connection, fin: TcpHeaderView, ack: TcpHeaderView)
    requires
        c.wf(),
        c.state == State::Established,
        c.recv.wnd > 0,
        is_fin_of(fin, c, c.send.nxt),
        is_plain_ack_of(ack, c.close_step().next.segment_step(fin, 0).next),
    ensures
        ({
            let closing = c.close_step();
            let crossed = closing.next.segment_step(fin, 0);
            let done = crossed.next.segment_step(ack, 0);
            &&& closing.next.state == State::FinWait1
            &&& crossed.next.state == State::Closing
            &&& crossed.reply == Some(crossed.next.ack_segment())
            &&& done.next.state == State::TimeWait
            &&& done.reply is None
        }),
{
    lemma_close_step_keeps_wf(c);
}

} // verus!

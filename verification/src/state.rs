//! The state tag of a connection and its transition table.
//!
//! Everything a segment, the local user or the timer can mean to the state
//! tag is an [`Event`]. The table of RFC 793 is written once, in
//! [`State::after`], and the executable methods follow it.

use vstd::prelude::*;

verus! {

/// Where a connection stands in its life.
#[derive(Clone, Copy, Debug, PartialEq, Eq, Structural)]
pub enum State {
    /// No connection: before the first segment, and after the last.
    Closed,
    /// Waiting for a connection request.
    Listen,
    /// Our SYN is sent, the peer has not answered.
    SynSent,
    /// The peer's SYN is received and answered, our SYN is not yet
    /// acknowledged.
    SynRcvd,
    /// Open in both directions.
    Established,
    /// We have sent FIN; it is not acknowledged, and the peer has not sent
    /// its own.
    FinWait1,
    /// Our FIN is acknowledged; the peer has not sent its own.
    FinWait2,
    /// The peer has sent FIN; we have not.
    CloseWait,
    /// Both sides have sent FIN; ours is not acknowledged.
    Closing,
    /// The peer sent FIN first, then we did; ours is not acknowledged.
    LastAck,
    /// Both directions are closed; waiting for old segments to die out.
    TimeWait,
}

/// What an inbound segment means to the state tag.
#[derive(Clone, Copy, Debug, PartialEq, Eq, Structural)]
pub enum Event {
    /// The peer reset the connection.
    Reset,
    /// The peer's SYN arrived without an acknowledgment of ours.
    Syn,
    /// The peer's SYN arrived and acknowledges ours.
    SynAck,
    /// The peer acknowledged the SYN or FIN we were waiting on.
    Acked,
    /// The peer's FIN arrived in order.
    Fin,
}

impl State {
    /// The state after `event`. Where the table of RFC 793 has no arrow,
    /// the state stays.
    pub open spec fn after(self, event: Event) -> State {
        match (self, event) {
            (State::Closed, _) => State::Closed,
            (State::Listen, _) => State::Listen,
            (_, Event::Reset) => State::Closed,
            (State::SynSent, Event::Syn) => State::SynRcvd,
            (State::SynSent, Event::SynAck) => State::Established,
            (State::SynRcvd, Event::Acked) => State::Established,
            (State::FinWait1, Event::Acked) => State::FinWait2,
            (State::Closing, Event::Acked) => State::TimeWait,
            (State::LastAck, Event::Acked) => State::Closed,
            (State::Established, Event::Fin) => State::CloseWait,
            (State::FinWait1, Event::Fin) => State::Closing,
            (State::FinWait2, Event::Fin) => State::TimeWait,
            (s, _) => s,
        }
    }

    /// The state after the local user asks to close.
    pub open spec fn after_close(self) -> State {
        match self {
            State::Established => State::FinWait1,
            State::CloseWait => State::LastAck,
            s => s,
        }
    }

    /// The state after the TIME-WAIT timer fires.
    pub open spec fn after_timeout(self) -> State {
        match self {
            State::TimeWait => State::Closed,
            s => s,
        }
    }

    /// The peer may still send: it has not sent FIN, and the handshake is
    /// done.
    pub open spec fn receives(self) -> bool {
        self == State::Established || self == State::FinWait1 || self == State::FinWait2
    }

    /// Sequence numbers sent and not yet acknowledged: the SYN during the
    /// handshake, the FIN during the close.
    pub open spec fn outstanding(self) -> int {
        match self {
            State::SynSent | State::SynRcvd | State::FinWait1 | State::Closing | State::LastAck => 1,
            _ => 0,
        }
    }

    /// Takes the transition that `event` asks for.
    pub fn on_packet(&mut self, event: Event)
        ensures
            *final(self) == old(self).after(event),
    {
        let from = *self;
        let next = match event {
            Event::Reset => match from {
                State::Listen => State::Listen,
                _ => State::Closed,
            },
            Event::Syn => match from {
                State::SynSent => State::SynRcvd,
                s => s,
            },
            Event::SynAck => match from {
                State::SynSent => State::Established,
                s => s,
            },
            Event::Acked => match from {
                State::SynRcvd => State::Established,
                State::FinWait1 => State::FinWait2,
                State::Closing => State::TimeWait,
                State::LastAck => State::Closed,
                s => s,
            },
            Event::Fin => match from {
                State::Established => State::CloseWait,
                State::FinWait1 => State::Closing,
                State::FinWait2 => State::TimeWait,
                s => s,
            },
        };
        *self = next;
    }

    /// Takes the transition of a local close.
    pub fn on_close(&mut self)
        ensures
            *final(self) == old(self).after_close(),
    {
        let next = match *self {
            State::Established => State::FinWait1,
            State::CloseWait => State::LastAck,
            s => s,
        };
        *self = next;
    }

    /// Takes the transition of the TIME-WAIT timer.
    pub fn on_timeout(&mut self)
        ensures
            *final(self) == old(self).after_timeout(),
    {
        if let State::TimeWait = *self {
            *self = State::Closed;
        }
    }

    /// Whether payload and FIN from the peer are still taken.
    pub fn can_receive(&self) -> (r: bool)
        ensures
            r == self.receives(),
    {
        match self {
            State::Established | State::FinWait1 | State::FinWait2 => true,
            _ => false,
        }
    }
}

impl Default for State {
    /// A fresh endpoint listens.
    fn default() -> (s: State)
        ensures
            s == State::Listen,
    {
        State::Listen
    }
}

} // verus!

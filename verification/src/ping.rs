//! Sender-side bookkeeping of the round-trip ping.
//!
//! The sender pings the receiver's control port every two seconds. This
//! module numbers the pings, counts those that are still unanswered, and
//! takes the echoed send time out of each pong.

use vstd::prelude::*;
use crate::control::{control_bytes, parse_control, ControlMessage};

verus! {

/// Unanswered pings in a row from which the receiver is reported as not
/// responding.
pub const MISSED_PINGS_BEFORE_WARNING: u32 = 3;

/// Round-trip time in nanoseconds between the send time of a ping and the
/// arrival of its pong, on the sender's monotonic clock; zero if the clock
/// readings are out of order.
pub fn round_trip_ns(send_ts_ns: u64, recv_ts_ns: u64) -> (rtt: u64)
    ensures
        rtt == if recv_ts_ns >= send_ts_ns {
            (recv_ts_ns - send_ts_ns) as u64
        } else {
            0
        },
{
    recv_ts_ns.saturating_sub(send_ts_ns)
}

/// The send time that a datagram from `from_receiver`'s source echoes, if
/// it is a pong from the receiver.
pub open spec fn echoed_send_time(from_receiver: bool, b: Seq<u8>) -> Option<u64> {
    if !from_receiver {
        None
    } else {
        match parse_control(b) {
            Ok(ControlMessage::Pong { sender_send_ts_ns, .. }) => Some(sender_send_ts_ns),
            _ => None,
        }
    }
}

/// Numbers the sender's pings and tracks the replies to them.
pub struct PingMonitor {
    last_id: u64,
    unanswered: u32,
}

impl PingMonitor {
    /// No ping sent yet.
    pub fn new() -> (m: Self)
        ensures
            m.id() == 0,
            m.pending() == 0,
    {
        PingMonitor { last_id: 0, unanswered: 0 }
    }

    /// The id of the last ping sent (0 before the first).
    pub closed spec fn id(&self) -> u64 {
        self.last_id
    }

    /// The pings sent since the last pong from the receiver.
    pub closed spec fn pending(&self) -> u32 {
        self.unanswered
    }

    /// The id of the last ping sent (0 before the first).
    pub fn last_ping_id(&self) -> (id: u64)
        ensures
            id == self.id(),
    {
        self.last_id
    }

    /// The pings sent since the last pong from the receiver.
    pub fn unanswered_pings(&self) -> (n: u32)
        ensures
            n == self.pending(),
    {
        self.unanswered
    }

    /// Time for the next ping, `now_ns` nanoseconds after the stream start.
    /// Returns its bytes, numbered one past the last ping, and whether the
    /// receiver is to be reported as not responding: the pings already sent
    /// since the last pong, three or more, all went unanswered.
    pub fn next_ping(&mut self, now_ns: u64) -> (out: (Vec<u8>, bool))
        requires
            old(self).id() < u64::MAX,
            old(self).pending() < u32::MAX,
        ensures
            final(self).id() == old(self).id() + 1,
            final(self).pending() == old(self).pending() + 1,
            out.0@ == control_bytes(
                ControlMessage::Ping { id: final(self).id(), sender_send_ts_ns: now_ns },
            ),
            out.1 == (old(self).pending() >= MISSED_PINGS_BEFORE_WARNING),
    {
        let warn = self.unanswered >= MISSED_PINGS_BEFORE_WARNING;
        self.last_id = self.last_id + 1;
        self.unanswered = self.unanswered + 1;
        let ping = ControlMessage::Ping { id: self.last_id, sender_send_ts_ns: now_ns };
        (ping.serialize(), warn)
    }

    /// A datagram arrived. A pong from the receiver answers the pings sent
    /// so far, and gives the send time it echoes, from which the caller
    /// takes a round-trip sample; anything else (another source, another
    /// message, bytes that do not parse) is ignored.
    pub fn on_datagram(&mut self, from_receiver: bool, datagram: &[u8]) -> (echoed: Option<u64>)
        ensures
            echoed == echoed_send_time(from_receiver, datagram@),
            final(self).id() == old(self).id(),
            final(self).pending() == if echoed is Some {
                0
            } else {
                old(self).pending()
            },
    {
        if !from_receiver {
            return None;
        }
        match ControlMessage::deserialize(datagram) {
            Ok(ControlMessage::Pong { sender_send_ts_ns, .. }) => {
                self.unanswered = 0;
                Some(sender_send_ts_ns)
            },
            _ => None,
        }
    }
}

} // verus!

//! Control messages on the dedicated control port: ping, pong, volume and
//! telemetry, framed by two magic bytes and a type byte.
//!
//! Floating-point fields travel as their IEEE-754 bit patterns; here they are
//! held as those `u32` bit patterns, exactly the four bytes on the wire.

use vstd::prelude::*;
use crate::bytes;
use crate::protocol::ProtocolError;

verus! {

/// Magic bytes that open every control packet: ASCII `'L'`, `'A'`.
pub const CONTROL_MAGIC: [u8; 2] = [0x4C, 0x41];

/// Types of control messages sent over the dedicated control UDP port.
#[derive(Debug, Clone, PartialEq, Eq, Structural)]
pub enum ControlMessage {
    /// Ping sent by the sender to measure round-trip time.
    Ping { id: u64, sender_send_ts_ns: u64 },
    /// Pong sent back at once by the receiver.
    Pong { id: u64, sender_send_ts_ns: u64, receiver_recv_ts_ns: u64 },
    /// Request to set the receiver playback gain (an `f32`, by its bits).
    SetVolume { volume_bits: u32 },
    /// Telemetry stats response; the three `_bits` fields are `f32` bit
    /// patterns.
    StatsResponse {
        packets_received: u64,
        packets_lost: u64,
        loss_rate_pct_bits: u32,
        jitter_buffer_depth_ms_bits: u32,
        volume_bits: u32,
        codec: u8,
    },
}

/// The first three bytes of a control packet of type `t`.
pub open spec fn control_prefix(t: u8) -> Seq<u8> {
    seq![0x4Cu8, 0x41u8, t]
}

/// The bytes that stand for `m` on the wire.
pub open spec fn control_bytes(m: ControlMessage) -> Seq<u8> {
    match m {
        ControlMessage::Ping { id, sender_send_ts_ns } => control_prefix(0x01) + bytes::be_u64_bytes(
            id,
        ) + bytes::be_u64_bytes(sender_send_ts_ns),
        ControlMessage::Pong { id, sender_send_ts_ns, receiver_recv_ts_ns } => control_prefix(0x02)
            + bytes::be_u64_bytes(id) + bytes::be_u64_bytes(sender_send_ts_ns) + bytes::be_u64_bytes(
            receiver_recv_ts_ns,
        ),
        ControlMessage::SetVolume { volume_bits } => control_prefix(0x03) + bytes::be_u32_bytes(
            volume_bits,
        ),
        ControlMessage::StatsResponse {
            packets_received,
            packets_lost,
            loss_rate_pct_bits,
            jitter_buffer_depth_ms_bits,
            volume_bits,
            codec,
        } => control_prefix(0x05) + bytes::be_u64_bytes(packets_received) + bytes::be_u64_bytes(
            packets_lost,
        ) + bytes::be_u32_bytes(loss_rate_pct_bits) + bytes::be_u32_bytes(jitter_buffer_depth_ms_bits)
            + bytes::be_u32_bytes(volume_bits) + seq![codec],
    }
}

/// The big-endian `u64` at byte `at` of `b`.
pub open spec fn u64_at(b: Seq<u8>, at: int) -> u64 {
    bytes::be_u64_value(b.subrange(at, at + 8))
}

/// The big-endian `u32` at byte `at` of `b`.
pub open spec fn u32_at(b: Seq<u8>, at: int) -> u32 {
    bytes::be_u32_value(b.subrange(at, at + 4))
}

/// What `ControlMessage::deserialize` gives for the datagram `b`.
pub open spec fn parse_control(b: Seq<u8>) -> Result<ControlMessage, ProtocolError> {
    if b.len() < 3 {
        Err(ProtocolError::ControlPacketTooShort)
    } else if b[0] != 0x4C || b[1] != 0x41 {
        Err(ProtocolError::InvalidControlMagic)
    } else {
        let n = b.len() - 3;
        let t = b[2];
        if t == 0x01 {
            if n < 16 {
                Err(ProtocolError::ControlPacketTooShort)
            } else {
                Ok(ControlMessage::Ping { id: u64_at(b, 3), sender_send_ts_ns: u64_at(b, 11) })
            }
        } else if t == 0x02 {
            if n < 24 {
                Err(ProtocolError::ControlPacketTooShort)
            } else {
                Ok(
                    ControlMessage::Pong {
                        id: u64_at(b, 3),
                        sender_send_ts_ns: u64_at(b, 11),
                        receiver_recv_ts_ns: u64_at(b, 19),
                    },
                )
            }
        } else if t == 0x03 {
            if n < 4 {
                Err(ProtocolError::ControlPacketTooShort)
            } else {
                Ok(ControlMessage::SetVolume { volume_bits: u32_at(b, 3) })
            }
        } else if t == 0x05 {
            if n < 29 {
                Err(ProtocolError::ControlPacketTooShort)
            } else {
                Ok(
                    ControlMessage::StatsResponse {
                        packets_received: u64_at(b, 3),
                        packets_lost: u64_at(b, 11),
                        loss_rate_pct_bits: u32_at(b, 19),
                        jitter_buffer_depth_ms_bits: u32_at(b, 23),
                        volume_bits: u32_at(b, 27),
                        codec: b[31],
                    },
                )
            }
        } else {
            Err(ProtocolError::UnknownControlType(t))
        }
    }
}

impl ControlMessage {
    /// Serializes the control message into bytes.
    pub fn serialize(&self) -> (out: Vec<u8>)
        ensures
            out@ == control_bytes(*self),
    {
        let mut buf: Vec<u8> = Vec::with_capacity(32);
        buf.extend_from_slice(&CONTROL_MAGIC);
        match self {
            ControlMessage::Ping { id, sender_send_ts_ns } => {
                buf.push(0x01);
                let mut b = [0u8; 16];
                bytes::write_u64_at(&mut b, 0, *id);
                bytes::write_u64_at(&mut b, 8, *sender_send_ts_ns);
                buf.extend_from_slice(&b);
            },
            ControlMessage::Pong { id, sender_send_ts_ns, receiver_recv_ts_ns } => {
                buf.push(0x02);
                let mut b = [0u8; 24];
                bytes::write_u64_at(&mut b, 0, *id);
                bytes::write_u64_at(&mut b, 8, *sender_send_ts_ns);
                bytes::write_u64_at(&mut b, 16, *receiver_recv_ts_ns);
                buf.extend_from_slice(&b);
            },
            ControlMessage::SetVolume { volume_bits } => {
                buf.push(0x03);
                let mut b = [0u8; 4];
                bytes::write_u32_at(&mut b, 0, *volume_bits);
                buf.extend_from_slice(&b);
            },
            ControlMessage::StatsResponse {
                packets_received,
                packets_lost,
                loss_rate_pct_bits,
                jitter_buffer_depth_ms_bits,
                volume_bits,
                codec,
            } => {
                buf.push(0x05);
                let mut b = [0u8; 29];
                bytes::write_u64_at(&mut b, 0, *packets_received);
                bytes::write_u64_at(&mut b, 8, *packets_lost);
                bytes::write_u32_at(&mut b, 16, *loss_rate_pct_bits);
                bytes::write_u32_at(&mut b, 20, *jitter_buffer_depth_ms_bits);
                bytes::write_u32_at(&mut b, 24, *volume_bits);
                b[28] = *codec;
                buf.extend_from_slice(&b);
            },
        }
        assert(buf@ =~= control_bytes(*self));
        buf
    }

    /// Deserializes a control message from bytes; bytes after the message
    /// are ignored.
    pub fn deserialize(buf: &[u8]) -> (res: Result<Self, ProtocolError>)
        ensures
            res == parse_control(buf@),
    {
        if buf.len() < 3 {
            return Err(ProtocolError::ControlPacketTooShort);
        }
        if buf[0] != CONTROL_MAGIC[0] || buf[1] != CONTROL_MAGIC[1] {
            return Err(ProtocolError::InvalidControlMagic);
        }
        let msg_type = buf[2];
        let payload_len = buf.len() - 3;
        match msg_type {
            0x01 => {
                if payload_len < 16 {
                    return Err(ProtocolError::ControlPacketTooShort);
                }
                let id = bytes::read_u64_at(buf, 3);
                let sender_send_ts_ns = bytes::read_u64_at(buf, 11);
                Ok(ControlMessage::Ping { id, sender_send_ts_ns })
            },
            0x02 => {
                if payload_len < 24 {
                    return Err(ProtocolError::ControlPacketTooShort);
                }
                let id = bytes::read_u64_at(buf, 3);
                let sender_send_ts_ns = bytes::read_u64_at(buf, 11);
                let receiver_recv_ts_ns = bytes::read_u64_at(buf, 19);
                Ok(ControlMessage::Pong { id, sender_send_ts_ns, receiver_recv_ts_ns })
            },
            0x03 => {
                if payload_len < 4 {
                    return Err(ProtocolError::ControlPacketTooShort);
                }
                let volume_bits = bytes::read_u32_at(buf, 3);
                Ok(ControlMessage::SetVolume { volume_bits })
            },
            0x05 => {
                if payload_len < 29 {
                    return Err(ProtocolError::ControlPacketTooShort);
                }
                let packets_received = bytes::read_u64_at(buf, 3);
                let packets_lost = bytes::read_u64_at(buf, 11);
                let loss_rate_pct_bits = bytes::read_u32_at(buf, 19);
                let jitter_buffer_depth_ms_bits = bytes::read_u32_at(buf, 23);
                let volume_bits = bytes::read_u32_at(buf, 27);
                let codec = buf[31];
                Ok(
                    ControlMessage::StatsResponse {
                        packets_received,
                        packets_lost,
                        loss_rate_pct_bits,
                        jitter_buffer_depth_ms_bits,
                        volume_bits,
                        codec,
                    },
                )
            },
            other => Err(ProtocolError::UnknownControlType(other)),
        }
    }
}

/// The wire size of each message: 19 bytes for `Ping`, 27 for `Pong`, 7 for
/// `SetVolume` and 32 for `StatsResponse`.
pub proof fn lemma_control_size(m: ControlMessage)
    ensures
        control_bytes(m).len() == match m {
            ControlMessage::Ping { .. } => 19int,
            ControlMessage::Pong { .. } => 27int,
            ControlMessage::SetVolume { .. } => 7int,
            ControlMessage::StatsResponse { .. } => 32int,
        },
{
}

/// The wire layout of each message, byte by byte: the magic `'L' 'A'`, the
/// type byte, then each field big-endian at a fixed offset in the order the
/// message declares them (a pong: its id at bytes 3..11, the sender's send
/// time at 11..19, the receiver's time at 19..27).
pub proof fn lemma_control_wire_layout(m: ControlMessage)
    ensures
        ({
            let b = control_bytes(m);
            &&& b[0] == 0x4Cu8
            &&& b[1] == 0x41u8
            &&& match m {
                ControlMessage::Ping { id, sender_send_ts_ns } => {
                    &&& b.len() == 19
                    &&& b[2] == 0x01u8
                    &&& b.subrange(3, 11) == bytes::be_u64_bytes(id)
                    &&& b.subrange(11, 19) == bytes::be_u64_bytes(sender_send_ts_ns)
                },
                ControlMessage::Pong { id, sender_send_ts_ns, receiver_recv_ts_ns } => {
                    &&& b.len() == 27
                    &&& b[2] == 0x02u8
                    &&& b.subrange(3, 11) == bytes::be_u64_bytes(id)
                    &&& b.subrange(11, 19) == bytes::be_u64_bytes(sender_send_ts_ns)
                    &&& b.subrange(19, 27) == bytes::be_u64_bytes(receiver_recv_ts_ns)
                },
                ControlMessage::SetVolume { volume_bits } => {
                    &&& b.len() == 7
                    &&& b[2] == 0x03u8
                    &&& b.subrange(3, 7) == bytes::be_u32_bytes(volume_bits)
                },
                ControlMessage::StatsResponse {
                    packets_received,
                    packets_lost,
                    loss_rate_pct_bits,
                    jitter_buffer_depth_ms_bits,
                    volume_bits,
                    codec,
                } => {
                    &&& b.len() == 32
                    &&& b[2] == 0x05u8
                    &&& b.subrange(3, 11) == bytes::be_u64_bytes(packets_received)
                    &&& b.subrange(11, 19) == bytes::be_u64_bytes(packets_lost)
                    &&& b.subrange(19, 23) == bytes::be_u32_bytes(loss_rate_pct_bits)
                    &&& b.subrange(23, 27) == bytes::be_u32_bytes(jitter_buffer_depth_ms_bits)
                    &&& b.subrange(27, 31) == bytes::be_u32_bytes(volume_bits)
                    &&& b[31] == codec
                },
            }
        }),
{
    let b = control_bytes(m);
    match m {
        ControlMessage::Ping { id, sender_send_ts_ns } => {
            assert(b.subrange(3, 11) =~= bytes::be_u64_bytes(id));
            assert(b.subrange(11, 19) =~= bytes::be_u64_bytes(sender_send_ts_ns));
        },
        ControlMessage::Pong { id, sender_send_ts_ns, receiver_recv_ts_ns } => {
            assert(b.subrange(3, 11) =~= bytes::be_u64_bytes(id));
            assert(b.subrange(11, 19) =~= bytes::be_u64_bytes(sender_send_ts_ns));
            assert(b.subrange(19, 27) =~= bytes::be_u64_bytes(receiver_recv_ts_ns));
        },
        ControlMessage::SetVolume { volume_bits } => {
            assert(b.subrange(3, 7) =~= bytes::be_u32_bytes(volume_bits));
        },
        ControlMessage::StatsResponse {
            packets_received,
            packets_lost,
            loss_rate_pct_bits,
            jitter_buffer_depth_ms_bits,
            volume_bits,
            codec,
        } => {
            assert(b.subrange(3, 11) =~= bytes::be_u64_bytes(packets_received));
            assert(b.subrange(11, 19) =~= bytes::be_u64_bytes(packets_lost));
            assert(b.subrange(19, 23) =~= bytes::be_u32_bytes(loss_rate_pct_bits));
            assert(b.subrange(23, 27) =~= bytes::be_u32_bytes(jitter_buffer_depth_ms_bits));
            assert(b.subrange(27, 31) =~= bytes::be_u32_bytes(volume_bits));
        },
    }
}

/// Reading back what `serialize` wrote gives the same message, whatever
/// bytes follow it in the datagram.
pub proof fn lemma_control_roundtrip(m: ControlMessage, rest: Seq<u8>)
    ensures
        parse_control(control_bytes(m) + rest) == Ok::<ControlMessage, ProtocolError>(m),
{
    let b = control_bytes(m) + rest;
    match m {
        ControlMessage::Ping { id, sender_send_ts_ns } => {
            bytes::lemma_be_u64_value_of_bytes(id);
            bytes::lemma_be_u64_value_of_bytes(sender_send_ts_ns);
            assert(b.subrange(3, 11) =~= bytes::be_u64_bytes(id));
            assert(b.subrange(11, 19) =~= bytes::be_u64_bytes(sender_send_ts_ns));
        },
        ControlMessage::Pong { id, sender_send_ts_ns, receiver_recv_ts_ns } => {
            bytes::lemma_be_u64_value_of_bytes(id);
            bytes::lemma_be_u64_value_of_bytes(sender_send_ts_ns);
            bytes::lemma_be_u64_value_of_bytes(receiver_recv_ts_ns);
            assert(b.subrange(3, 11) =~= bytes::be_u64_bytes(id));
            assert(b.subrange(11, 19) =~= bytes::be_u64_bytes(sender_send_ts_ns));
            assert(b.subrange(19, 27) =~= bytes::be_u64_bytes(receiver_recv_ts_ns));
        },
        ControlMessage::SetVolume { volume_bits } => {
            bytes::lemma_be_u32_value_of_bytes(volume_bits);
            assert(b.subrange(3, 7) =~= bytes::be_u32_bytes(volume_bits));
        },
        ControlMessage::StatsResponse {
            packets_received,
            packets_lost,
            loss_rate_pct_bits,
            jitter_buffer_depth_ms_bits,
            volume_bits,
            codec,
        } => {
            bytes::lemma_be_u64_value_of_bytes(packets_received);
            bytes::lemma_be_u64_value_of_bytes(packets_lost);
            bytes::lemma_be_u32_value_of_bytes(loss_rate_pct_bits);
            bytes::lemma_be_u32_value_of_bytes(jitter_buffer_depth_ms_bits);
            bytes::lemma_be_u32_value_of_bytes(volume_bits);
            assert(b.subrange(3, 11) =~= bytes::be_u64_bytes(packets_received));
            assert(b.subrange(11, 19) =~= bytes::be_u64_bytes(packets_lost));
            assert(b.subrange(19, 23) =~= bytes::be_u32_bytes(loss_rate_pct_bits));
            assert(b.subrange(23, 27) =~= bytes::be_u32_bytes(jitter_buffer_depth_ms_bits));
            assert(b.subrange(27, 31) =~= bytes::be_u32_bytes(volume_bits));
            assert(b[31] == codec);
        },
    }
}

/// A control message that parses is written back as exactly the bytes it
/// was read from (the ones before any trailing bytes): each message has
/// one encoding.
pub proof fn lemma_control_unique_encoding(b: Seq<u8>)
    ensures
        parse_control(b) matches Ok(m) ==> control_bytes(m) == b.subrange(
            0,
            control_bytes(m).len() as int,
        ),
{
    if let Ok(m) = parse_control(b) {
        match m {
            ControlMessage::Ping { .. } => {
                bytes::lemma_be_u64_bytes_of_value(b.subrange(3, 11));
                bytes::lemma_be_u64_bytes_of_value(b.subrange(11, 19));
            },
            ControlMessage::Pong { .. } => {
                bytes::lemma_be_u64_bytes_of_value(b.subrange(3, 11));
                bytes::lemma_be_u64_bytes_of_value(b.subrange(11, 19));
                bytes::lemma_be_u64_bytes_of_value(b.subrange(19, 27));
            },
            ControlMessage::SetVolume { .. } => {
                bytes::lemma_be_u32_bytes_of_value(b.subrange(3, 7));
            },
            ControlMessage::StatsResponse { .. } => {
                bytes::lemma_be_u64_bytes_of_value(b.subrange(3, 11));
                bytes::lemma_be_u64_bytes_of_value(b.subrange(11, 19));
                bytes::lemma_be_u32_bytes_of_value(b.subrange(19, 23));
                bytes::lemma_be_u32_bytes_of_value(b.subrange(23, 27));
                bytes::lemma_be_u32_bytes_of_value(b.subrange(27, 31));
            },
        }
        assert(control_bytes(m) =~= b.subrange(0, control_bytes(m).len() as int));
    }
}

/// What the receiver's control responder does with one datagram.
#[derive(Debug, PartialEq, Eq)]
pub enum ControlAction {
    /// Send these bytes back to the datagram's source.
    Reply(Vec<u8>),
    /// Set the playback gain to the `f32` with these bits; the caller clamps
    /// it to `0.0..=1.5`.
    SetVolume(u32),
    /// A well-formed message the responder does not act on.
    Unhandled(ControlMessage),
    /// A datagram with the control magic that does not parse.
    Malformed(ProtocolError),
    /// A datagram shorter than three bytes or without the control magic,
    /// dropped silently.
    Dropped,
}

/// What the responder does with the datagram `b` received `now_ns`
/// nanoseconds after its stream start.
pub open spec fn control_response(b: Seq<u8>, now_ns: u64) -> ControlActionView {
    if b.len() < 3 || b[0] != 0x4C || b[1] != 0x41 {
        ControlActionView::Dropped
    } else {
        match parse_control(b) {
            Ok(ControlMessage::Ping { id, sender_send_ts_ns }) => ControlActionView::Reply(
                control_bytes(
                    ControlMessage::Pong { id, sender_send_ts_ns, receiver_recv_ts_ns: now_ns },
                ),
            ),
            Ok(ControlMessage::SetVolume { volume_bits }) => ControlActionView::SetVolume(
                volume_bits,
            ),
            Ok(m) => ControlActionView::Unhandled(m),
            Err(e) => ControlActionView::Malformed(e),
        }
    }
}

/// A control action as a mathematical value.
pub enum ControlActionView {
    Reply(Seq<u8>),
    SetVolume(u32),
    Unhandled(ControlMessage),
    Malformed(ProtocolError),
    Dropped,
}

impl View for ControlAction {
    type V = ControlActionView;

    open spec fn view(&self) -> ControlActionView {
        match self {
            ControlAction::Reply(v) => ControlActionView::Reply(v@),
            ControlAction::SetVolume(b) => ControlActionView::SetVolume(*b),
            ControlAction::Unhandled(m) => ControlActionView::Unhandled(*m),
            ControlAction::Malformed(e) => ControlActionView::Malformed(*e),
            ControlAction::Dropped => ControlActionView::Dropped,
        }
    }
}

/// The receiver's answer to one control datagram: a ping is answered at
/// once with a pong that echoes its id and send time and carries `now_ns`;
/// a volume request hands its gain to the caller; anything else is left.
pub fn handle_control_datagram(datagram: &[u8], now_ns: u64) -> (action: ControlAction)
    ensures
        action@ == control_response(datagram@, now_ns),
{
    if datagram.len() < 3 || datagram[0] != CONTROL_MAGIC[0] || datagram[1] != CONTROL_MAGIC[1] {
        return ControlAction::Dropped;
    }
    match ControlMessage::deserialize(datagram) {
        Ok(ControlMessage::Ping { id, sender_send_ts_ns }) => {
            let pong = ControlMessage::Pong { id, sender_send_ts_ns, receiver_recv_ts_ns: now_ns };
            ControlAction::Reply(pong.serialize())
        },
        Ok(ControlMessage::SetVolume { volume_bits }) => ControlAction::SetVolume(volume_bits),
        Ok(other) => ControlAction::Unhandled(other),
        Err(e) => ControlAction::Malformed(e),
    }
}

/// A ping's reply, read by the sender, gives back the id and the send time
/// that the ping carried, and the receiver's clock reading.
pub proof fn lemma_pong_echoes_ping(id: u64, sender_send_ts_ns: u64, now_ns: u64, rest: Seq<u8>)
    ensures
        ({
            let ping = control_bytes(ControlMessage::Ping { id, sender_send_ts_ns });
            match control_response(ping + rest, now_ns) {
                ControlActionView::Reply(reply) => parse_control(reply) == Ok::<
                    ControlMessage,
                    ProtocolError,
                >(ControlMessage::Pong { id, sender_send_ts_ns, receiver_recv_ts_ns: now_ns }),
                _ => false,
            }
        }),
{
    let ping_msg = ControlMessage::Ping { id, sender_send_ts_ns };
    let pong_msg = ControlMessage::Pong { id, sender_send_ts_ns, receiver_recv_ts_ns: now_ns };
    lemma_control_roundtrip(ping_msg, rest);
    lemma_control_roundtrip(pong_msg, Seq::empty());
    assert(control_bytes(pong_msg) + Seq::<u8>::empty() =~= control_bytes(pong_msg));
    assert((control_bytes(ping_msg) + rest)[0] == 0x4C);
}

/// The responder replies to pings only, and changes the volume only on a
/// volume request.
pub proof fn lemma_responder_acts_on_requests_only(b: Seq<u8>, now_ns: u64)
    ensures
        control_response(b, now_ns) is Reply ==> parse_control(b) matches Ok(
            ControlMessage::Ping { .. },
        ),
        control_response(b, now_ns) is SetVolume ==> parse_control(b) matches Ok(
            ControlMessage::SetVolume { .. },
        ),
{
}

} // verus!

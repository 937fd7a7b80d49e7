//! The audio datagram: a fixed 15-byte big-endian header and its payload.

use vstd::prelude::*;
use crate::bytes;

verus! {

/// Length of the fixed UDP audio packet header in bytes.
///
/// Layout: sequence number (`u32`, 4 bytes), sender timestamp in
/// nanoseconds (`u64`, 8 bytes), payload length (`u16`, 2 bytes) and the
/// codec flag (`u8`, 1 byte), all big-endian.
pub const AUDIO_HEADER_LEN: usize = 15;

/// Default audio port.
pub const DEFAULT_AUDIO_PORT: u16 = 40000;

/// Default control and ping port.
pub const DEFAULT_CONTROL_PORT: u16 = 40001;

/// Sample rate of every audio stream, in Hz.
pub const SAMPLE_RATE: u32 = 48000;

/// Number of interleaved channels (stereo).
pub const CHANNELS: u16 = 2;

/// Supported audio codec modes.
#[derive(Debug, Clone, Copy, PartialEq, Eq, Structural)]
pub enum CodecMode {
    /// Raw uncompressed interleaved 16-bit signed PCM, little-endian (flag 0).
    Pcm,
    /// Opus compressed audio (flag 1).
    Opus,
}

/// The flag byte that stands for `c` on the wire.
pub open spec fn codec_flag(c: CodecMode) -> u8 {
    match c {
        CodecMode::Pcm => 0,
        CodecMode::Opus => 1,
    }
}

/// The codec that the flag byte `v` names, if any.
pub open spec fn codec_of_flag(v: u8) -> Option<CodecMode> {
    if v == 0 {
        Some(CodecMode::Pcm)
    } else if v == 1 {
        Some(CodecMode::Opus)
    } else {
        None
    }
}

impl CodecMode {
    /// The codec whose flag byte is `value`: 0 is PCM, 1 is Opus, anything
    /// else is unknown.
    pub fn from_u8(value: u8) -> (res: Option<Self>)
        ensures
            res == codec_of_flag(value),
    {
        match value {
            0 => Some(CodecMode::Pcm),
            1 => Some(CodecMode::Opus),
            _ => None,
        }
    }

    /// The flag byte of this codec.
    pub fn flag(&self) -> (v: u8)
        ensures
            v == codec_flag(*self),
    {
        match self {
            CodecMode::Pcm => 0,
            CodecMode::Opus => 1,
        }
    }

    /// Human-readable name, as shown in logs.
    pub fn label(&self) -> (s: &'static str)
        ensures
            *self == CodecMode::Pcm ==> s@ == "PCM (Raw 16-bit)"@,
            *self == CodecMode::Opus ==> s@ == "Opus"@,
    {
        match self {
            CodecMode::Pcm => "PCM (Raw 16-bit)",
            CodecMode::Opus => "Opus",
        }
    }
}

/// Every flag byte that `from_u8` accepts names the codec it came from, and
/// every codec's flag is accepted.
pub proof fn lemma_codec_flag_roundtrip(c: CodecMode, v: u8)
    ensures
        codec_of_flag(codec_flag(c)) == Some(c),
        codec_of_flag(v) matches Some(d) ==> codec_flag(d) == v,
{
}

/// Errors that can occur during packet parsing.
#[derive(Debug, PartialEq, Eq, Structural)]
pub enum ProtocolError {
    /// The datagram is shorter than the header.
    PacketTooShort { expected: usize, actual: usize },
    /// The header announces more payload than the datagram carries.
    PayloadLengthMismatch { expected: usize, actual: usize },
    /// The codec flag is neither 0 nor 1.
    UnknownCodec(u8),
    /// A control packet does not start with the magic bytes.
    InvalidControlMagic,
    /// A control packet carries an unknown message type.
    UnknownControlType(u8),
    /// A control packet is shorter than its message type needs.
    ControlPacketTooShort,
}

/// Fixed-size header attached to every UDP audio packet.
#[derive(Debug, Clone, Copy, PartialEq, Eq, Structural)]
pub struct AudioHeader {
    /// Monotonically increasing sequence number to detect drops and reordering.
    pub seq: u32,
    /// Sender's monotonic clock in nanoseconds since stream start.
    pub timestamp_ns: u64,
    /// Length of the encoded audio payload following this header in bytes.
    pub payload_len: u16,
    /// Codec of the payload.
    pub codec: CodecMode,
}

/// The 15 bytes that stand for `h` on the wire.
pub open spec fn header_bytes(h: AudioHeader) -> Seq<u8> {
    bytes::be_u32_bytes(h.seq) + bytes::be_u64_bytes(h.timestamp_ns) + bytes::be_u16_bytes(h.payload_len) + seq![
        codec_flag(h.codec),
    ]
}

/// What `AudioHeader::deserialize` gives for the datagram `b`.
pub open spec fn parse_header(b: Seq<u8>) -> Result<AudioHeader, ProtocolError> {
    if b.len() < AUDIO_HEADER_LEN {
        Err(ProtocolError::PacketTooShort { expected: AUDIO_HEADER_LEN, actual: b.len() as usize })
    } else {
        match codec_of_flag(b[14]) {
            None => Err(ProtocolError::UnknownCodec(b[14])),
            Some(codec) => Ok(
                AudioHeader {
                    seq: bytes::be_u32_value(b.subrange(0, 4)),
                    timestamp_ns: bytes::be_u64_value(b.subrange(4, 12)),
                    payload_len: bytes::be_u16_value(b.subrange(12, 14)),
                    codec,
                },
            ),
        }
    }
}

impl AudioHeader {
    /// Writes the 15-byte header into the front of `buf`; the bytes after
    /// the header are left as they were.
    pub fn serialize_into(&self, buf: &mut [u8])
        requires
            old(buf)@.len() >= AUDIO_HEADER_LEN,
        ensures
            final(buf)@ == header_bytes(*self) + old(buf)@.subrange(
                AUDIO_HEADER_LEN as int,
                old(buf)@.len() as int,
            ),
    {
        let ghost b0 = buf@;
        bytes::write_u32_at(buf, 0, self.seq);
        bytes::write_u64_at(buf, 4, self.timestamp_ns);
        bytes::write_u16_at(buf, 12, self.payload_len);
        buf[14] = self.codec.flag();
        assert(buf@ =~= header_bytes(*self) + b0.subrange(AUDIO_HEADER_LEN as int, b0.len() as int));
    }

    /// Reads a header from the front of `buf`.
    pub fn deserialize(buf: &[u8]) -> (res: Result<Self, ProtocolError>)
        ensures
            res == parse_header(buf@),
    {
        if buf.len() < AUDIO_HEADER_LEN {
            return Err(ProtocolError::PacketTooShort { expected: AUDIO_HEADER_LEN, actual: buf.len() });
        }
        let seq = bytes::read_u32_at(buf, 0);
        let timestamp_ns = bytes::read_u64_at(buf, 4);
        let payload_len = bytes::read_u16_at(buf, 12);
        let codec_flag = buf[14];
        let codec = match CodecMode::from_u8(codec_flag) {
            Some(c) => c,
            None => return Err(ProtocolError::UnknownCodec(codec_flag)),
        };
        Ok(AudioHeader { seq, timestamp_ns, payload_len, codec })
    }
}

/// Reading back what `serialize_into` wrote gives the same header, whatever
/// follows it.
pub proof fn lemma_header_roundtrip(h: AudioHeader, rest: Seq<u8>)
    ensures
        header_bytes(h).len() == AUDIO_HEADER_LEN,
        parse_header(header_bytes(h) + rest) == Ok::<AudioHeader, ProtocolError>(h),
{
    let b = header_bytes(h) + rest;
    bytes::lemma_be_u32_value_of_bytes(h.seq);
    bytes::lemma_be_u64_value_of_bytes(h.timestamp_ns);
    bytes::lemma_be_u16_value_of_bytes(h.payload_len);
    assert(b.subrange(0, 4) =~= bytes::be_u32_bytes(h.seq));
    assert(b.subrange(4, 12) =~= bytes::be_u64_bytes(h.timestamp_ns));
    assert(b.subrange(12, 14) =~= bytes::be_u16_bytes(h.payload_len));
    assert(b[14] == codec_flag(h.codec));
}

/// A header that parses is written back as the very bytes it was read from:
/// each header has one encoding.
pub proof fn lemma_header_unique_encoding(b: Seq<u8>)
    ensures
        parse_header(b) matches Ok(h) ==> header_bytes(h) == b.subrange(0, AUDIO_HEADER_LEN as int),
{
    if let Ok(h) = parse_header(b) {
        bytes::lemma_be_u32_bytes_of_value(b.subrange(0, 4));
        bytes::lemma_be_u64_bytes_of_value(b.subrange(4, 12));
        bytes::lemma_be_u16_bytes_of_value(b.subrange(12, 14));
        assert(header_bytes(h) =~= b.subrange(0, AUDIO_HEADER_LEN as int));
    }
}

/// A parsed audio packet: the header and the payload it announces.
#[derive(Debug, Clone, PartialEq, Eq)]
pub struct AudioPacket<'a> {
    pub header: AudioHeader,
    pub payload: &'a [u8],
}

/// What `AudioPacket::parse` gives for the datagram `b`: the header and the
/// payload bytes, or the error.
pub open spec fn parse_packet(b: Seq<u8>) -> Result<(AudioHeader, Seq<u8>), ProtocolError> {
    match parse_header(b) {
        Err(e) => Err(e),
        Ok(h) => {
            let end = AUDIO_HEADER_LEN + h.payload_len;
            if b.len() < end {
                Err(
                    ProtocolError::PayloadLengthMismatch {
                        expected: h.payload_len as usize,
                        actual: (b.len() - AUDIO_HEADER_LEN) as usize,
                    },
                )
            } else {
                Ok((h, b.subrange(AUDIO_HEADER_LEN as int, end)))
            }
        },
    }
}

impl<'a> AudioPacket<'a> {
    /// Parses an audio packet from a received UDP datagram; bytes after the
    /// announced payload are ignored.
    pub fn parse(buf: &'a [u8]) -> (res: Result<Self, ProtocolError>)
        ensures
            match res {
                Ok(p) => parse_packet(buf@) == Ok::<(AudioHeader, Seq<u8>), ProtocolError>(
                    (p.header, p.payload@),
                ),
                Err(e) => parse_packet(buf@) == Err::<(AudioHeader, Seq<u8>), ProtocolError>(e),
            },
    {
        let header = match AudioHeader::deserialize(buf) {
            Ok(h) => h,
            Err(e) => return Err(e),
        };
        let expected_total = AUDIO_HEADER_LEN + header.payload_len as usize;
        if buf.len() < expected_total {
            return Err(
                ProtocolError::PayloadLengthMismatch {
                    expected: header.payload_len as usize,
                    actual: buf.len().saturating_sub(AUDIO_HEADER_LEN),
                },
            );
        }
        let payload = &buf[AUDIO_HEADER_LEN..expected_total];
        Ok(AudioPacket { header, payload })
    }
}

/// The datagram that a sender emits for a payload of at most 65535 bytes:
/// the header, whose length field is the payload's exact length, then the
/// payload.
pub open spec fn packet_bytes(seq: u32, timestamp_ns: u64, codec: CodecMode, payload: Seq<u8>) -> Seq<
    u8,
> {
    header_bytes(AudioHeader { seq, timestamp_ns, payload_len: payload.len() as u16, codec })
        + payload
}

/// The wire layout of an audio datagram, byte by byte: the sequence number
/// at bytes 0..4, the sender timestamp at 4..12, the payload length at
/// 12..14 (all big-endian), the codec flag at 14 (0 for PCM, 1 for Opus),
/// then the payload from byte 15 on.
pub proof fn lemma_packet_wire_layout(
    seq: u32,
    timestamp_ns: u64,
    codec: CodecMode,
    payload: Seq<u8>,
)
    requires
        payload.len() <= u16::MAX,
    ensures
        ({
            let b = packet_bytes(seq, timestamp_ns, codec, payload);
            &&& b.len() == 15 + payload.len()
            &&& b.subrange(0, 4) == bytes::be_u32_bytes(seq)
            &&& b.subrange(4, 12) == bytes::be_u64_bytes(timestamp_ns)
            &&& b.subrange(12, 14) == bytes::be_u16_bytes(payload.len() as u16)
            &&& b[14] == (if codec == CodecMode::Pcm {
                0u8
            } else {
                1u8
            })
            &&& b.subrange(15, b.len() as int) == payload
        }),
{
    let b = packet_bytes(seq, timestamp_ns, codec, payload);
    assert(b.subrange(0, 4) =~= bytes::be_u32_bytes(seq));
    assert(b.subrange(4, 12) =~= bytes::be_u64_bytes(timestamp_ns));
    assert(b.subrange(12, 14) =~= bytes::be_u16_bytes(payload.len() as u16));
    assert(b.subrange(15, b.len() as int) =~= payload);
}

/// Clears `out_buf` and fills it with the datagram for `payload`: the
/// header (sequence number, sender timestamp, payload length, codec)
/// followed by the payload. A payload longer than the 16-bit length field
/// can say is not framed: the caller keeps it out.
pub fn write_packet(
    codec: CodecMode,
    payload: &[u8],
    seq: u32,
    stream_elapsed_ns: u64,
    out_buf: &mut Vec<u8>,
)
    requires
        payload@.len() <= u16::MAX,
    ensures
        final(out_buf)@ == packet_bytes(seq, stream_elapsed_ns, codec, payload@),
        final(out_buf)@.len() == AUDIO_HEADER_LEN + payload@.len(),
{
    out_buf.clear();
    let mut header_buf = [0u8; 15];
    let header = AudioHeader {
        seq,
        timestamp_ns: stream_elapsed_ns,
        payload_len: payload.len() as u16,
        codec,
    };
    header.serialize_into(&mut header_buf);
    out_buf.extend_from_slice(&header_buf);
    out_buf.extend_from_slice(payload);
    assert(out_buf@ =~= packet_bytes(seq, stream_elapsed_ns, codec, payload@));
}

/// A datagram that a sender writes parses back to the same header fields
/// and the same payload, whatever follows it; its length field is the
/// payload's exact length.
pub proof fn lemma_packet_roundtrip(
    seq: u32,
    timestamp_ns: u64,
    codec: CodecMode,
    payload: Seq<u8>,
    rest: Seq<u8>,
)
    requires
        payload.len() <= u16::MAX,
    ensures
        parse_packet(packet_bytes(seq, timestamp_ns, codec, payload) + rest) == Ok::<
            (AudioHeader, Seq<u8>),
            ProtocolError,
        >(
            (
                AudioHeader { seq, timestamp_ns, payload_len: payload.len() as u16, codec },
                payload,
            ),
        ),
{
    let h = AudioHeader { seq, timestamp_ns, payload_len: payload.len() as u16, codec };
    let b = packet_bytes(seq, timestamp_ns, codec, payload) + rest;
    assert(b =~= header_bytes(h) + (payload + rest));
    lemma_header_roundtrip(h, payload + rest);
    assert(b.subrange(AUDIO_HEADER_LEN as int, AUDIO_HEADER_LEN + payload.len()) =~= payload);
}

/// A packet that parses carries exactly the payload length its header
/// announces, taken from right after the header.
pub proof fn lemma_packet_payload_length(b: Seq<u8>)
    ensures
        parse_packet(b) matches Ok((h, payload)) ==> {
            &&& payload.len() == h.payload_len
            &&& payload == b.subrange(
                AUDIO_HEADER_LEN as int,
                AUDIO_HEADER_LEN + h.payload_len,
            )
            &&& parse_header(b) == Ok::<AudioHeader, ProtocolError>(h)
        },
{
}

} // verus!

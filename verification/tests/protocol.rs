use lan_audio::control::{ControlMessage, CONTROL_MAGIC};
use lan_audio::protocol::{AudioHeader, AudioPacket, CodecMode, ProtocolError, AUDIO_HEADER_LEN};

#[test]
fn test_audio_header_roundtrip() {
    let header = AudioHeader {
        seq: 42,
        timestamp_ns: 1234567890,
        payload_len: 960,
        codec: CodecMode::Pcm,
    };

    let mut buf = [0u8; AUDIO_HEADER_LEN];
    header.serialize_into(&mut buf);

    let parsed = AudioHeader::deserialize(&buf).unwrap();
    assert_eq!(header, parsed);
}

#[test]
fn test_audio_packet_parse() {
    let payload_data = vec![0x12, 0x34, 0x56, 0x78];
    let header = AudioHeader {
        seq: 100,
        timestamp_ns: 5000,
        payload_len: payload_data.len() as u16,
        codec: CodecMode::Opus,
    };

    let mut packet_buf = vec![0u8; AUDIO_HEADER_LEN + payload_data.len()];
    header.serialize_into(&mut packet_buf[0..AUDIO_HEADER_LEN]);
    packet_buf[AUDIO_HEADER_LEN..].copy_from_slice(&payload_data);

    let packet = AudioPacket::parse(&packet_buf).unwrap();
    assert_eq!(packet.header, header);
    assert_eq!(packet.payload, payload_data.as_slice());
}

#[test]
fn test_control_ping_pong_roundtrip() {
    let ping = ControlMessage::Ping {
        id: 7,
        sender_send_ts_ns: 100_000_000,
    };
    let bytes = ping.serialize();
    let parsed = ControlMessage::deserialize(&bytes).unwrap();
    assert_eq!(ping, parsed);

    let pong = ControlMessage::Pong {
        id: 7,
        sender_send_ts_ns: 100_000_000,
        receiver_recv_ts_ns: 101_500_000,
    };
    let bytes = pong.serialize();
    let parsed = ControlMessage::deserialize(&bytes).unwrap();
    assert_eq!(pong, parsed);
}

#[test]
fn test_control_volume_roundtrip() {
    let vol = ControlMessage::SetVolume { volume_bits: 0.85f32.to_bits() };
    let bytes = vol.serialize();
    let parsed = ControlMessage::deserialize(&bytes).unwrap();
    if let ControlMessage::SetVolume { volume_bits } = parsed {
        let volume = f32::from_bits(volume_bits);
        assert!((volume - 0.85).abs() < 1e-6);
    } else {
        panic!("Expected SetVolume message");
    }
}

#[test]
fn header_bytes_are_big_endian() {
    let header = AudioHeader {
        seq: 0x0102_0304,
        timestamp_ns: 0x1112_1314_1516_1718,
        payload_len: 0x2122,
        codec: CodecMode::Opus,
    };
    let mut buf = [0xEEu8; 17];
    header.serialize_into(&mut buf);
    assert_eq!(
        buf,
        [
            0x01, 0x02, 0x03, 0x04, 0x11, 0x12, 0x13, 0x14, 0x15, 0x16, 0x17, 0x18, 0x21, 0x22,
            0x01, 0xEE, 0xEE
        ]
    );
}

#[test]
fn header_too_short_is_refused() {
    let buf = [0u8; 14];
    assert_eq!(
        AudioHeader::deserialize(&buf),
        Err(ProtocolError::PacketTooShort { expected: 15, actual: 14 })
    );
}

#[test]
fn header_unknown_codec_is_refused() {
    let mut buf = [0u8; 15];
    buf[14] = 7;
    assert_eq!(AudioHeader::deserialize(&buf), Err(ProtocolError::UnknownCodec(7)));
}

#[test]
fn packet_shorter_than_announced_is_refused() {
    let header = AudioHeader { seq: 1, timestamp_ns: 2, payload_len: 10, codec: CodecMode::Pcm };
    let mut buf = vec![0u8; AUDIO_HEADER_LEN + 4];
    header.serialize_into(&mut buf);
    assert_eq!(
        AudioPacket::parse(&buf),
        Err(ProtocolError::PayloadLengthMismatch { expected: 10, actual: 4 })
    );
}

#[test]
fn packet_ignores_trailing_bytes() {
    let header = AudioHeader { seq: 9, timestamp_ns: 3, payload_len: 2, codec: CodecMode::Pcm };
    let mut buf = vec![0u8; AUDIO_HEADER_LEN];
    header.serialize_into(&mut buf);
    buf.extend_from_slice(&[5, 6, 7, 8]);
    let packet = AudioPacket::parse(&buf).unwrap();
    assert_eq!(packet.payload, &[5u8, 6][..]);
}

#[test]
fn codec_flags() {
    assert_eq!(CodecMode::from_u8(0), Some(CodecMode::Pcm));
    assert_eq!(CodecMode::from_u8(1), Some(CodecMode::Opus));
    assert_eq!(CodecMode::from_u8(2), None);
    assert_eq!(CodecMode::Opus.flag(), 1);
    assert_eq!(CodecMode::Pcm.label(), "PCM (Raw 16-bit)");
    assert_eq!(CodecMode::Opus.label(), "Opus");
}

#[test]
fn write_packet_frames_payload() {
    let mut out = vec![9u8; 3];
    lan_audio::protocol::write_packet(CodecMode::Opus, &[0xAA, 0xBB], 5, 6, &mut out);
    assert_eq!(out.len(), 17);
    assert_eq!(&out[0..4], &[0, 0, 0, 5]);
    assert_eq!(&out[4..12], &[0, 0, 0, 0, 0, 0, 0, 6]);
    assert_eq!(&out[12..15], &[0, 2, 1]);
    assert_eq!(&out[15..], &[0xAA, 0xBB]);
    let packet = AudioPacket::parse(&out).unwrap();
    assert_eq!(packet.header.seq, 5);
    assert_eq!(packet.payload, &[0xAAu8, 0xBB][..]);
}

#[test]
fn control_message_sizes_and_bytes() {
    let ping = ControlMessage::Ping { id: 1, sender_send_ts_ns: 2 }.serialize();
    assert_eq!(ping.len(), 19);
    assert_eq!(&ping[0..3], &[CONTROL_MAGIC[0], CONTROL_MAGIC[1], 0x01]);
    assert_eq!(&ping[3..11], &[0, 0, 0, 0, 0, 0, 0, 1]);
    let pong = ControlMessage::Pong { id: 1, sender_send_ts_ns: 2, receiver_recv_ts_ns: 3 }.serialize();
    assert_eq!(pong.len(), 27);
    let vol = ControlMessage::SetVolume { volume_bits: 0x3F80_0000 }.serialize();
    assert_eq!(vol, vec![0x4C, 0x41, 0x03, 0x3F, 0x80, 0x00, 0x00]);
    let stats = ControlMessage::StatsResponse {
        packets_received: 10,
        packets_lost: 1,
        loss_rate_pct_bits: 2,
        jitter_buffer_depth_ms_bits: 3,
        volume_bits: 4,
        codec: 1,
    };
    let bytes = stats.serialize();
    assert_eq!(bytes.len(), 32);
    assert_eq!(ControlMessage::deserialize(&bytes), Ok(stats));
}

#[test]
fn control_errors() {
    assert_eq!(ControlMessage::deserialize(&[0x4C, 0x41]), Err(ProtocolError::ControlPacketTooShort));
    assert_eq!(ControlMessage::deserialize(&[0x4C, 0x42, 1]), Err(ProtocolError::InvalidControlMagic));
    assert_eq!(ControlMessage::deserialize(&[0x4C, 0x41, 4]), Err(ProtocolError::UnknownControlType(4)));
    assert_eq!(
        ControlMessage::deserialize(&[0x4C, 0x41, 1, 0, 0, 0]),
        Err(ProtocolError::ControlPacketTooShort)
    );
    assert_eq!(
        ControlMessage::deserialize(&[0x4C, 0x41, 3, 0, 0, 0]),
        Err(ProtocolError::ControlPacketTooShort)
    );
}

#[test]
fn control_ignores_trailing_bytes() {
    let mut bytes = ControlMessage::SetVolume { volume_bits: 5 }.serialize();
    bytes.extend_from_slice(&[1, 2, 3]);
    assert_eq!(ControlMessage::deserialize(&bytes), Ok(ControlMessage::SetVolume { volume_bits: 5 }));
}

#[test]
fn parsed_header_writes_back_the_same_bytes() {
    let bytes: [u8; 18] = [9, 8, 7, 6, 5, 4, 3, 2, 1, 0, 0xFF, 0xFE, 0x01, 0x02, 0x00, 1, 2, 3];
    let header = AudioHeader::deserialize(&bytes).unwrap();
    let mut out = [0u8; 15];
    header.serialize_into(&mut out);
    assert_eq!(&out[..], &bytes[..15]);
}

#[test]
fn parsed_control_message_writes_back_the_same_bytes() {
    let mut bytes = vec![0x4C, 0x41, 0x02];
    bytes.extend((1u8..=24).collect::<Vec<u8>>());
    bytes.extend_from_slice(&[0xAB, 0xCD]);
    let msg = ControlMessage::deserialize(&bytes).unwrap();
    assert_eq!(msg.serialize(), bytes[..27].to_vec());
}

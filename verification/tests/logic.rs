use lan_audio::control::{handle_control_datagram, ControlAction, ControlMessage};
use lan_audio::device::find_device_by_name;
use lan_audio::pcm::{decode_pcm_frame, encode_pcm_frame};
use lan_audio::ping::{round_trip_ns, PingMonitor};
use lan_audio::playout::play_out;
use lan_audio::protocol::{AudioPacket, CodecMode, ProtocolError};

#[test]
fn responder_answers_ping_with_pong() {
    let ping = ControlMessage::Ping { id: 3, sender_send_ts_ns: 44 }.serialize();
    match handle_control_datagram(&ping, 99) {
        ControlAction::Reply(bytes) => assert_eq!(
            ControlMessage::deserialize(&bytes),
            Ok(ControlMessage::Pong { id: 3, sender_send_ts_ns: 44, receiver_recv_ts_ns: 99 })
        ),
        other => panic!("unexpected {:?}", other),
    }
}

#[test]
fn responder_other_cases() {
    let vol = ControlMessage::SetVolume { volume_bits: 0x3F00_0000 }.serialize();
    assert_eq!(handle_control_datagram(&vol, 0), ControlAction::SetVolume(0x3F00_0000));
    assert_eq!(handle_control_datagram(&[0x4C, 0x41], 0), ControlAction::Dropped);
    assert_eq!(handle_control_datagram(&[1, 2, 3, 4], 0), ControlAction::Dropped);
    assert_eq!(
        handle_control_datagram(&[0x4C, 0x41, 9], 0),
        ControlAction::Malformed(ProtocolError::UnknownControlType(9))
    );
    let pong = ControlMessage::Pong { id: 1, sender_send_ts_ns: 2, receiver_recv_ts_ns: 3 };
    assert_eq!(handle_control_datagram(&pong.serialize(), 0), ControlAction::Unhandled(pong));
}

#[test]
fn ping_monitor_warns_after_three_unanswered_pings() {
    let mut m = PingMonitor::new();
    let mut warnings = Vec::new();
    for i in 0..5u64 {
        let (bytes, warn) = m.next_ping(100 + i);
        assert_eq!(
            ControlMessage::deserialize(&bytes),
            Ok(ControlMessage::Ping { id: i + 1, sender_send_ts_ns: 100 + i })
        );
        warnings.push(warn);
    }
    // pings 1..3 go out quietly; the 4th and 5th find 3 and 4 unanswered
    assert_eq!(warnings, vec![false, false, false, true, true]);
    assert_eq!(m.unanswered_pings(), 5);
    assert_eq!(m.last_ping_id(), 5);

    let pong = ControlMessage::Pong { id: 5, sender_send_ts_ns: 1_000_000, receiver_recv_ts_ns: 5 }.serialize();
    assert_eq!(m.on_datagram(false, &pong), None);
    assert_eq!(m.unanswered_pings(), 5);
    let ping = ControlMessage::Ping { id: 1, sender_send_ts_ns: 1 }.serialize();
    assert_eq!(m.on_datagram(true, &ping), None);
    assert_eq!(m.on_datagram(true, &pong), Some(1_000_000));
    assert_eq!(m.unanswered_pings(), 0);
    let (_, warn) = m.next_ping(7);
    assert!(!warn);
    assert_eq!(round_trip_ns(1_000_000, 3_000_000), 2_000_000);
    assert_eq!(round_trip_ns(5, 3), 0);
}

#[test]
fn play_out_fills_and_pads() {
    let mut buf = vec![1, 2, 3, 4, 5];
    let mut out = [0i32; 3];
    assert_eq!(play_out(&mut buf, &mut out, -1), 3);
    assert_eq!(out, [1, 2, 3]);
    assert_eq!(buf, vec![4, 5]);
    let mut out = [0i32; 4];
    assert_eq!(play_out(&mut buf, &mut out, -1), 2);
    assert_eq!(out, [4, 5, -1, -1]);
    assert!(buf.is_empty());
}

#[test]
fn pcm_encode_decode() {
    let samples = [0i16, 1, -1, 32767, -32768, 0x1234];
    let mut out = Vec::new();
    encode_pcm_frame(&samples, 7, 8, &mut out);
    assert_eq!(out.len(), 15 + 12);
    assert_eq!(&out[15..], &[0, 0, 1, 0, 0xFF, 0xFF, 0xFF, 0x7F, 0x00, 0x80, 0x34, 0x12]);
    let packet = AudioPacket::parse(&out).unwrap();
    assert_eq!(packet.header.codec, CodecMode::Pcm);
    assert_eq!(packet.header.payload_len, 12);
    let mut decoded = vec![5i16];
    decode_pcm_frame(Some(packet.payload), &mut decoded);
    assert_eq!(decoded, samples.to_vec());
    decode_pcm_frame(Some(&[1, 0, 7]), &mut decoded);
    assert_eq!(decoded, vec![1]);
    decode_pcm_frame(None, &mut decoded);
    assert_eq!(decoded.len(), 960);
    assert!(decoded.iter().all(|&s| s == 0));
}

#[test]
fn device_by_name() {
    let names = vec!["Built-in Output".to_string(), "MacBook Pro Speakers".to_string(), "External Headphones".to_string()];
    assert_eq!(find_device_by_name(&names, "macbook"), Some(1));
    assert_eq!(find_device_by_name(&names, "OUTPUT"), Some(0));
    assert_eq!(find_device_by_name(&names, "hdmi"), None);
    assert_eq!(find_device_by_name(&names, ""), Some(0));
    assert_eq!(find_device_by_name(&Vec::new(), "x"), None);
}

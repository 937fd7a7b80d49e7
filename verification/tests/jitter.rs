use lan_audio::jitter_buffer::{JitterBuffer, JitterStats};
use lan_audio::protocol::{AudioHeader, AudioPacket, CodecMode, ProtocolError};

fn packet(seq: u32, payload: &[u8]) -> AudioPacket<'_> {
    AudioPacket {
        header: AudioHeader { seq, timestamp_ns: seq as u64 * 10, payload_len: payload.len() as u16, codec: CodecMode::Pcm },
        payload,
    }
}

// 960 bytes of PCM: 5 ms per frame.
const FRAME: [u8; 960] = [0u8; 960];

#[test]
fn target_is_clamped() {
    assert_eq!(JitterBuffer::new(1).target_delay_us(), 5000);
    assert_eq!(JitterBuffer::new(20_000).target_delay_us(), 20_000);
    assert_eq!(JitterBuffer::new(1_000_000).target_delay_us(), 200_000);
}

#[test]
fn nothing_before_primed_then_in_order() {
    let mut jb = JitterBuffer::new(20_000);
    jb.push(packet(10, &FRAME));
    assert!(jb.pop().is_none());
    jb.push(packet(12, &FRAME));
    jb.push(packet(11, &FRAME));
    assert!(jb.pop().is_none());
    jb.push(packet(13, &FRAME));
    // four frames of 5 ms reach the 20 ms target
    let seqs: Vec<u32> = (0..4).map(|_| jb.pop().unwrap().seq).collect();
    assert_eq!(seqs, vec![10, 11, 12, 13]);
    // queue empty: underrun
    assert!(jb.pop().is_none());
    jb.push(packet(14, &FRAME));
    assert!(jb.pop().is_none());
}

#[test]
fn late_packet_is_dropped() {
    let mut jb = JitterBuffer::new(5_000);
    jb.push(packet(100, &FRAME));
    assert_eq!(jb.pop().unwrap().seq, 100);
    jb.push(packet(99, &FRAME));
    let st = jb.stats();
    assert_eq!(st, JitterStats { packets_received: 2, packets_lost: 0, packets_dropped_late: 1, buffered_frames: 0, frame_pcm_bytes: 960 });
}

#[test]
fn gap_counts_loss_and_skips() {
    let mut jb = JitterBuffer::new(5_000);
    jb.push(packet(1, &FRAME));
    assert_eq!(jb.pop().unwrap().seq, 1);
    jb.push(packet(5, &FRAME));
    let f = jb.pop().unwrap();
    assert_eq!(f.seq, 5);
    assert_eq!(f.timestamp_ns, 50);
    assert_eq!(jb.stats().packets_lost, 3);
}

#[test]
fn large_gap_resynchronises_without_loss() {
    let mut jb = JitterBuffer::new(5_000);
    jb.push(packet(1, &FRAME));
    assert_eq!(jb.pop().unwrap().seq, 1);
    jb.push(packet(1000, &FRAME));
    assert_eq!(jb.pop().unwrap().seq, 1000);
    assert_eq!(jb.stats().packets_lost, 0);
    jb.push(packet(1001, &FRAME));
    assert_eq!(jb.pop().unwrap().seq, 1001);
}

#[test]
fn opus_frames_use_default_duration() {
    let mut jb = JitterBuffer::new(20_000);
    let p = AudioPacket {
        header: AudioHeader { seq: 0, timestamp_ns: 0, payload_len: 3, codec: CodecMode::Opus },
        payload: &[1, 2, 3],
    };
    jb.push(p);
    // one frame of the default 10 ms is not enough for 20 ms
    assert!(jb.pop().is_none());
    let p = AudioPacket {
        header: AudioHeader { seq: 1, timestamp_ns: 0, payload_len: 3, codec: CodecMode::Opus },
        payload: &[4, 5, 6],
    };
    jb.push(p);
    let f = jb.pop().unwrap();
    assert_eq!(f.payload, vec![1, 2, 3]);
    assert_eq!(f.codec, CodecMode::Opus);
    assert_eq!(jb.stats().frame_pcm_bytes, 1920);
}

#[test]
fn sequence_wraps_around() {
    let mut jb = JitterBuffer::new(5_000);
    jb.push(packet(u32::MAX, &FRAME));
    assert_eq!(jb.pop().unwrap().seq, u32::MAX);
    jb.push(packet(0, &FRAME));
    assert_eq!(jb.pop().unwrap().seq, 0);
    assert_eq!(jb.stats().packets_dropped_late, 0);
}

#[test]
fn gap_at_wrap_takes_next_number_in_sequence_order() {
    let q = |seq: u32, b: &'static [u8]| AudioPacket {
        header: AudioHeader { seq, timestamp_ns: 0, payload_len: 1, codec: CodecMode::Opus },
        payload: b,
    };
    let mut jb = JitterBuffer::new(20_000);
    jb.push(q(0xFFFF_FFFD, &[1]));
    jb.push(q(0xFFFF_FFFF, &[2]));
    jb.push(q(0, &[3]));
    assert_eq!(jb.pop().unwrap().seq, 0xFFFF_FFFD);
    let f = jb.pop().unwrap();
    assert_eq!(f.seq, 0xFFFF_FFFF);
    assert_eq!(jb.stats().packets_lost, 1);
    assert_eq!(jb.pop().unwrap().seq, 0);
    assert_eq!(jb.stats().packets_lost, 1);
}

#[test]
fn receive_parses_pushes_and_pops() {
    let mut jb = JitterBuffer::new(5_000);
    let mut dgram = Vec::new();
    lan_audio::protocol::write_packet(CodecMode::Pcm, &FRAME, 7, 70, &mut dgram);
    let f = jb.receive(&dgram).unwrap().unwrap();
    assert_eq!(f.seq, 7);
    assert_eq!(f.payload.len(), 960);
    assert_eq!(jb.stats().packets_received, 1);
    // nothing more buffered
    lan_audio::protocol::write_packet(CodecMode::Pcm, &FRAME, 9, 90, &mut dgram);
    let g = jb.receive(&dgram).unwrap().unwrap();
    assert_eq!(g.seq, 9);
    assert_eq!(jb.stats().packets_lost, 1);
}

#[test]
fn receive_before_primed_gives_nothing() {
    let mut jb = JitterBuffer::new(20_000);
    let mut dgram = Vec::new();
    lan_audio::protocol::write_packet(CodecMode::Pcm, &FRAME, 1, 0, &mut dgram);
    assert_eq!(jb.receive(&dgram).unwrap().map(|f| f.seq), None);
    assert_eq!(jb.stats().buffered_frames, 1);
}

#[test]
fn receive_rejects_malformed_datagram_and_keeps_state() {
    let mut jb = JitterBuffer::new(20_000);
    let before = jb.stats();
    let err = jb.receive(&[0, 0, 0, 1]).unwrap_err();
    assert_eq!(err, ProtocolError::PacketTooShort { expected: 15, actual: 4 });
    assert_eq!(jb.stats(), before);
    let mut bad = vec![0u8; 15];
    bad[14] = 7;
    assert_eq!(jb.receive(&bad).unwrap_err(), ProtocolError::UnknownCodec(7));
    assert_eq!(jb.stats(), before);
}

#[test]
fn loss_threshold_is_more_than_two_percent() {
    let st = |received: u64, lost: u64| JitterStats {
        packets_received: received,
        packets_lost: lost,
        packets_dropped_late: 0,
        buffered_frames: 0,
        frame_pcm_bytes: 1920,
    };
    assert!(!st(0, 0).loss_exceeds_threshold());
    assert!(!st(98, 2).loss_exceeds_threshold());
    assert!(st(97, 3).loss_exceeds_threshold());
    assert!(st(0, 1).loss_exceeds_threshold());
    assert!(!st(u64::MAX, u64::MAX / 100).loss_exceeds_threshold());
    assert!(st(u64::MAX, u64::MAX).loss_exceeds_threshold());
}

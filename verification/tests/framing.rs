use lan_audio::framing::SendFramer;

#[test]
fn framer_numbers_from_zero() {
    let mut f = SendFramer::new();
    assert_eq!(f.sequence_number(), 0);
    f.sent();
    assert_eq!(f.sequence_number(), 1);
    f.sent();
    assert_eq!(f.sequence_number(), 2);
}

#[test]
fn next_frame_waits_for_a_whole_frame() {
    let f = SendFramer::new();
    let mut pending = vec![1i16, 2, 3];
    assert_eq!(f.next_frame(&mut pending, 4), None);
    assert_eq!(pending, vec![1, 2, 3]);
    let mut empty: Vec<i16> = Vec::new();
    assert_eq!(f.next_frame(&mut empty, 1), None);
}

#[test]
fn next_frame_takes_from_the_front_in_order() {
    let f = SendFramer::new();
    let mut pending: Vec<i16> = (0..10).collect();
    assert_eq!(f.next_frame(&mut pending, 4), Some(vec![0, 1, 2, 3]));
    assert_eq!(pending, vec![4, 5, 6, 7, 8, 9]);
    assert_eq!(f.next_frame(&mut pending, 4), Some(vec![4, 5, 6, 7]));
    assert_eq!(pending, vec![8, 9]);
    assert_eq!(f.next_frame(&mut pending, 4), None);
    pending.extend_from_slice(&[10, 11]);
    assert_eq!(f.next_frame(&mut pending, 4), Some(vec![8, 9, 10, 11]));
    assert!(pending.is_empty());
}

#[test]
fn frames_concatenate_to_the_consumed_stream() {
    let f = SendFramer::new();
    let stream: Vec<u32> = (0..23).collect();
    let mut pending: Vec<u32> = Vec::new();
    let mut out: Vec<u32> = Vec::new();
    let mut numbers: Vec<u32> = Vec::new();
    let mut framer = SendFramer::new();
    for chunk in stream.chunks(7) {
        pending.extend_from_slice(chunk);
        while let Some(frame) = f.next_frame(&mut pending, 5) {
            assert_eq!(frame.len(), 5);
            out.extend_from_slice(&frame);
            numbers.push(framer.sequence_number());
            framer.sent();
        }
    }
    assert_eq!(out, (0..20).collect::<Vec<u32>>());
    assert_eq!(pending, vec![20, 21, 22]);
    assert_eq!(numbers, vec![0, 1, 2, 3]);
}

//! The sender's capture loop: cutting the captured sample stream into
//! frames of a fixed length and numbering the packets sent.
//!
//! The sender appends each captured chunk to a pending buffer, takes whole
//! frames from its front, and numbers each packet it sends 0, 1, 2, ...,
//! wrapping at 2^32, so that the receiver can detect loss and reorder.

use vstd::prelude::*;

verus! {

/// Frames the captured stream and numbers the packets sent.
pub struct SendFramer {
    next_seq: u32,
}

/// The `i`-th frame of length `frame_len` in `stream`.
pub open spec fn frame_at<T>(stream: Seq<T>, frame_len: nat, i: nat) -> Seq<T> {
    stream.subrange((i * frame_len) as int, (i * frame_len + frame_len) as int)
}

/// The first `n` frames of length `frame_len` in `stream`, in order.
pub open spec fn frames_of<T>(stream: Seq<T>, frame_len: nat, n: nat) -> Seq<Seq<T>> {
    Seq::new(n, |i: int| frame_at(stream, frame_len, i as nat))
}

/// The sequence number after `n` packets sent from `start`.
pub open spec fn seq_after_sends(start: u32, n: nat) -> u32
    decreases n,
{
    if n == 0 {
        start
    } else {
        seq_after_sends(start, (n - 1) as nat).wrapping_add(1)
    }
}

impl SendFramer {
    /// The number the next packet sent carries.
    pub closed spec fn seq(&self) -> u32 {
        self.next_seq
    }

    /// Numbering starts at 0.
    pub fn new() -> (f: Self)
        ensures
            f.seq() == 0,
    {
        SendFramer { next_seq: 0 }
    }

    /// The number the next packet sent carries.
    pub fn sequence_number(&self) -> (n: u32)
        ensures
            n == self.seq(),
    {
        self.next_seq
    }

    /// Takes the next whole frame of `frame_len` samples from the front of
    /// `pending`, or nothing (leaving `pending` alone) while fewer samples
    /// are pending.
    pub fn next_frame<T: Copy>(&self, pending: &mut Vec<T>, frame_len: usize) -> (frame: Option<
        Vec<T>,
    >)
        requires
            frame_len > 0,
        ensures
            match frame {
                Some(f) => {
                    &&& old(pending)@.len() >= frame_len
                    &&& f@ == old(pending)@.take(frame_len as int)
                    &&& final(pending)@ == old(pending)@.skip(frame_len as int)
                },
                None => old(pending)@.len() < frame_len && final(pending)@ == old(pending)@,
            },
    {
        if pending.len() < frame_len {
            return None;
        }
        let mut frame = pending.split_off(frame_len);
        std::mem::swap(pending, &mut frame);
        Some(frame)
    }

    /// A packet went out with the current number; the next one carries the
    /// following number, wrapping at 2^32.
    pub fn sent(&mut self)
        ensures
            final(self).seq() == old(self).seq().wrapping_add(1),
    {
        self.next_seq = self.next_seq.wrapping_add(1);
    }
}

/// Packets are numbered 0, 1, 2, ... modulo 2^32: after `n` packets sent
/// from a new framer, the next number is `n` modulo 2^32, so the `i`-th
/// packet sent carried `i` modulo 2^32.
pub proof fn lemma_packets_numbered_in_order(n: nat)
    ensures
        seq_after_sends(0, n) == (n % 0x1_0000_0000) as u32,
    decreases n,
{
    if n > 0 {
        lemma_packets_numbered_in_order((n - 1) as nat);
    }
}

/// Taking a frame from a pending buffer that holds the stream from frame
/// `i` on gives frame `i` and leaves the stream from frame `i + 1` on.
pub proof fn lemma_next_frame_is_next_in_stream<T>(
    stream: Seq<T>,
    frame_len: nat,
    i: nat,
    pending: Seq<T>,
)
    requires
        frame_len > 0,
        (i + 1) * frame_len <= stream.len(),
        pending == stream.skip((i * frame_len) as int),
    ensures
        pending.len() >= frame_len,
        pending.take(frame_len as int) == frame_at(stream, frame_len, i),
        pending.skip(frame_len as int) == stream.skip(((i + 1) * frame_len) as int),
{
    assert((i + 1) * frame_len == i * frame_len + frame_len) by (nonlinear_arith);
    assert(pending.take(frame_len as int) =~= frame_at(stream, frame_len, i));
    assert(pending.skip(frame_len as int) =~= stream.skip(((i + 1) * frame_len) as int));
}

/// Appending a captured chunk to the pending buffer keeps it the rest of
/// the (longer) stream from the same position.
pub proof fn lemma_append_keeps_position<T>(stream: Seq<T>, at: int, chunk: Seq<T>)
    requires
        0 <= at <= stream.len(),
    ensures
        stream.skip(at) + chunk == (stream + chunk).skip(at),
        stream.take(at) == (stream + chunk).take(at),
{
    assert(stream.skip(at) + chunk =~= (stream + chunk).skip(at));
    assert(stream.take(at) =~= (stream + chunk).take(at));
}

/// The first `n` frames, put back together, are exactly the first
/// `n * frame_len` samples of the stream: no sample is lost, repeated or
/// reordered.
pub proof fn lemma_frames_concatenate<T>(stream: Seq<T>, frame_len: nat, n: nat)
    requires
        n * frame_len <= stream.len(),
    ensures
        frames_of(stream, frame_len, n).flatten() == stream.take((n * frame_len) as int),
    decreases n,
{
    if n == 0 {
        assert(frames_of(stream, frame_len, 0) =~= Seq::<Seq<T>>::empty());
        assert(stream.take(0) =~= Seq::<T>::empty());
    } else {
        let m = (n - 1) as nat;
        assert(n * frame_len == m * frame_len + frame_len) by (nonlinear_arith)
            requires
                m == n - 1,
        ;
        lemma_frames_concatenate(stream, frame_len, m);
        assert(frames_of(stream, frame_len, n) =~= frames_of(stream, frame_len, m).push(
            frame_at(stream, frame_len, m),
        ));
        frames_of(stream, frame_len, m).lemma_flatten_push(frame_at(stream, frame_len, m));
        assert(stream.take((m * frame_len) as int) + frame_at(stream, frame_len, m) =~= stream.take(
            (n * frame_len) as int,
        ));
    }
}

} // verus!

//! Raw PCM frames: interleaved 16-bit signed samples, little-endian.

use vstd::prelude::*;
use crate::protocol::{self, CodecMode};

verus! {

/// Samples of silence handed out for a lost PCM frame: 10 ms, both
/// channels (480 samples per channel).
pub const PCM_CONCEALMENT_SAMPLES: usize = 960;

/// The low byte of `x`'s two's-complement bits.
pub open spec fn sample_lo(x: i16) -> u8 {
    (x as u16) as u8
}

/// The high byte of `x`'s two's-complement bits.
pub open spec fn sample_hi(x: i16) -> u8 {
    ((x as u16) >> 8u16) as u8
}

/// The sample whose little-endian bytes are `lo`, `hi`.
pub open spec fn sample_of(lo: u8, hi: u8) -> i16 {
    ((lo as u16) | ((hi as u16) << 8u16)) as i16
}

/// The little-endian bytes of the samples `s`, in order.
pub open spec fn pcm_bytes(s: Seq<i16>) -> Seq<u8> {
    Seq::new(
        2 * s.len(),
        |j: int|
            if j % 2 == 0 {
                sample_lo(s[j / 2])
            } else {
                sample_hi(s[j / 2])
            },
    )
}

/// The samples stored in `b`, two bytes each; an odd last byte is left out.
pub open spec fn pcm_samples(b: Seq<u8>) -> Seq<i16> {
    Seq::new(b.len() / 2, |i: int| sample_of(b[2 * i], b[2 * i + 1]))
}

/// The largest number of samples whose bytes fit the 16-bit length field.
pub const MAX_PCM_FRAME_SAMPLES: usize = 32767;

/// Clears `out_buf` and fills it with the PCM datagram for `samples`:
/// the header (sequence number, sender timestamp, payload length, PCM
/// codec) and the samples' little-endian bytes. A frame of more than
/// 32767 samples does not fit the length field; the caller keeps it out.
pub fn encode_pcm_frame(samples: &[i16], seq: u32, stream_elapsed_ns: u64, out_buf: &mut Vec<u8>)
    requires
        samples@.len() <= MAX_PCM_FRAME_SAMPLES,
    ensures
        final(out_buf)@ == protocol::packet_bytes(
            seq,
            stream_elapsed_ns,
            CodecMode::Pcm,
            pcm_bytes(samples@),
        ),
{
    let mut payload: Vec<u8> = Vec::with_capacity(samples.len() * 2);
    let n = samples.len();
    let mut i: usize = 0;
    while i < n
        invariant
            n == samples@.len(),
            i <= n,
            n <= MAX_PCM_FRAME_SAMPLES,
            payload@.len() == 2 * i,
            forall|j: int| 0 <= j < 2 * i ==> payload@[j] == pcm_bytes(samples@)[j],
        decreases n - i,
    {
        let bits = samples[i] as u16;
        payload.push(bits as u8);
        payload.push((bits >> 8u16) as u8);
        i = i + 1;
    }
    assert(payload@ =~= pcm_bytes(samples@));
    protocol::write_packet(CodecMode::Pcm, payload.as_slice(), seq, stream_elapsed_ns, out_buf);
}

/// The samples of a PCM payload, or, for a lost frame (`None`), 10 ms of
/// silence; `out_samples` is cleared first.
pub fn decode_pcm_frame(payload: Option<&[u8]>, out_samples: &mut Vec<i16>)
    ensures
        final(out_samples)@ == match payload {
            Some(b) => pcm_samples(b@),
            None => Seq::new(PCM_CONCEALMENT_SAMPLES as nat, |i: int| 0i16),
        },
{
    out_samples.clear();
    match payload {
        Some(bytes) => {
            let n = bytes.len() / 2;
            let mut i: usize = 0;
            while i < n
                invariant
                    n == bytes@.len() / 2,
                    2 * n <= bytes@.len() <= usize::MAX,
                    i <= n,
                    out_samples@.len() == i,
                    forall|j: int| 0 <= j < i ==> out_samples@[j] == pcm_samples(bytes@)[j],
                decreases n - i,
            {
                let lo = bytes[2 * i];
                let hi = bytes[2 * i + 1];
                out_samples.push(((lo as u16) | ((hi as u16) << 8u16)) as i16);
                i = i + 1;
            }
            assert(out_samples@ =~= pcm_samples(bytes@));
        },
        None => {
            let mut i: usize = 0;
            while i < PCM_CONCEALMENT_SAMPLES
                invariant
                    i <= PCM_CONCEALMENT_SAMPLES,
                    out_samples@.len() == i,
                    forall|j: int| 0 <= j < i ==> out_samples@[j] == 0i16,
                decreases PCM_CONCEALMENT_SAMPLES - i,
            {
                out_samples.push(0);
                i = i + 1;
            }
            assert(out_samples@ =~= Seq::new(PCM_CONCEALMENT_SAMPLES as nat, |i: int| 0i16));
        },
    }
}

/// A sample's two bytes give the sample back.
pub proof fn lemma_sample_roundtrip(x: i16)
    ensures
        sample_of(sample_lo(x), sample_hi(x)) == x,
{
    assert(((((x as u16) as u8) as u16) | (((((x as u16) >> 8u16) as u8) as u16) << 8u16)) as i16
        == x) by (bit_vector);
}

/// Decoding the bytes of an encoded frame gives back its samples.
pub proof fn lemma_pcm_roundtrip(s: Seq<i16>)
    ensures
        pcm_samples(pcm_bytes(s)) == s,
{
    let b = pcm_bytes(s);
    assert forall|i: int| 0 <= i < s.len() implies #[trigger] pcm_samples(b)[i] == s[i] by {
        assert((2 * i) % 2 == 0 && (2 * i) / 2 == i);
        assert((2 * i + 1) % 2 == 1 && (2 * i + 1) / 2 == i);
        lemma_sample_roundtrip(s[i]);
    }
    assert(pcm_samples(b) =~= s);
}

} // verus!

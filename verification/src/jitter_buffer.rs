//! Adaptive jitter buffer.
//!
//! Absorbs network transmission jitter, reorders packets arriving out of
//! order, detects packet loss, and hands out frames in sequence order once
//! enough audio is buffered.
//!
//! Durations are kept in integers: the target delay in microseconds, and
//! the length of one frame as the number of PCM bytes it spans (48 kHz,
//! two channels, two bytes per sample: 192 bytes per millisecond).

use vstd::prelude::*;
use std::collections::BTreeMap;
use crate::protocol::{self, AudioHeader, AudioPacket, CodecMode, ProtocolError};

verus! {

broadcast use vstd::std_specs::btree::group_btree_axioms, vstd::laws_cmp::group_laws_cmp;

/// Smallest accepted target delay, in microseconds (5 ms).
pub const MIN_TARGET_DELAY_US: u64 = 5000;

/// Largest accepted target delay, in microseconds (200 ms).
pub const MAX_TARGET_DELAY_US: u64 = 200000;

/// Frame length assumed until a PCM packet tells otherwise: 10 ms of PCM.
pub const DEFAULT_FRAME_PCM_BYTES: usize = 1920;

/// A gap in sequence numbers shorter than this is counted as packet loss;
/// a longer one is taken for a restart of the sender.
pub const MAX_LOSS_GAP: u32 = 20;

/// Holds a single buffered audio frame ready for decoding/playout.
#[derive(Clone, Debug)]
pub struct BufferedFrame {
    pub seq: u32,
    pub timestamp_ns: u64,
    pub codec: CodecMode,
    pub payload: Vec<u8>,
}

/// A buffered frame as a mathematical value.
pub struct FrameView {
    pub seq: u32,
    pub timestamp_ns: u64,
    pub codec: CodecMode,
    pub payload: Seq<u8>,
}

impl View for BufferedFrame {
    type V = FrameView;

    open spec fn view(&self) -> FrameView {
        FrameView {
            seq: self.seq,
            timestamp_ns: self.timestamp_ns,
            codec: self.codec,
            payload: self.payload@,
        }
    }
}

/// Counters exposed by the jitter buffer.
///
/// The buffered duration is `buffered_frames * frame_pcm_bytes / 192`
/// milliseconds, and the loss rate is `packets_lost` out of
/// `packets_received + packets_lost`.
#[derive(Debug, Default, Clone, Copy, PartialEq, Eq, Structural)]
pub struct JitterStats {
    pub packets_received: u64,
    pub packets_lost: u64,
    pub packets_dropped_late: u64,
    pub buffered_frames: u64,
    pub frame_pcm_bytes: u64,
}

/// The state of a jitter buffer as a mathematical value.
pub struct JitterState {
    /// Target delay before playout starts, in microseconds.
    pub target_delay_us: u64,
    /// Buffered frames keyed by sequence number.
    pub queue: Map<u32, FrameView>,
    /// Next sequence number to play, once a first packet has arrived.
    pub expected_seq: Option<u32>,
    /// Whether playout has started (the buffer was primed).
    pub playing: bool,
    /// Packets pushed, late ones included (wrapping counter).
    pub received: u64,
    /// Packets counted as lost from sequence gaps (wrapping counter).
    pub lost: u64,
    /// Packets dropped because they came after their turn (wrapping counter).
    pub dropped_late: u64,
    /// Length of a frame in PCM bytes.
    pub frame_pcm_bytes: usize,
}

/// The target delay that `new` keeps for a requested one: clamped to
/// 5..=200 ms.
pub open spec fn clamp_target(us: u64) -> u64 {
    if us < MIN_TARGET_DELAY_US {
        MIN_TARGET_DELAY_US
    } else if us > MAX_TARGET_DELAY_US {
        MAX_TARGET_DELAY_US
    } else {
        us
    }
}

/// Whether `frames` frames of `frame_pcm_bytes` PCM bytes each make up at
/// least `target_delay_us` microseconds:
/// `frames * frame_pcm_bytes / 192 ms >= target_delay_us / 1000 ms`.
pub open spec fn primed(frames: nat, frame_pcm_bytes: nat, target_delay_us: nat) -> bool {
    frames * frame_pcm_bytes * 125 >= target_delay_us * 24
}

/// Whether a packet numbered `seq` comes after its playout turn: counting
/// forward from the next expected number modulo 2^32, it lies more than
/// 2^31 ahead, that is, fewer than 2^31 numbers behind.
pub open spec fn is_late(expected_seq: Option<u32>, seq: u32) -> bool {
    match expected_seq {
        Some(e) => seq.wrapping_sub(e) > 0x8000_0000u32,
        None => false,
    }
}

/// The frame that a packet with header `h` and payload `payload` becomes.
pub open spec fn frame_of(h: AudioHeader, payload: Seq<u8>) -> FrameView {
    FrameView { seq: h.seq, timestamp_ns: h.timestamp_ns, codec: h.codec, payload }
}

/// The state after pushing the packet `(h, payload)` into `s`.
pub open spec fn push_model(s: JitterState, h: AudioHeader, payload: Seq<u8>) -> JitterState {
    let received = s.received.wrapping_add(1);
    if is_late(s.expected_seq, h.seq) {
        JitterState { received, dropped_late: s.dropped_late.wrapping_add(1), ..s }
    } else {
        let expected_seq = match s.expected_seq {
            Some(e) => Some(e),
            None => Some(h.seq),
        };
        let queue = s.queue.insert(h.seq, frame_of(h, payload));
        let frame_pcm_bytes = if h.codec == CodecMode::Pcm && payload.len() > 0 {
            payload.len() as usize
        } else {
            s.frame_pcm_bytes
        };
        let playing = s.playing || primed(
            queue.len(),
            frame_pcm_bytes as nat,
            s.target_delay_us as nat,
        );
        JitterState { queue, expected_seq, playing, received, frame_pcm_bytes, ..s }
    }
}

/// How far `k` lies after `e` in sequence order, counting modulo 2^32.
pub open spec fn distance(e: u32, k: u32) -> u32 {
    k.wrapping_sub(e)
}

/// Whether `k` is the buffered number that comes first after `e` in
/// sequence order (wrapping at 2^32): no other buffered number lies closer
/// after `e`.
pub open spec fn is_next_key(q: Map<u32, FrameView>, e: u32, k: u32) -> bool {
    &&& q.contains_key(k)
    &&& forall|j: u32| #[trigger] q.contains_key(j) ==> distance(e, k) <= distance(e, j)
}

/// The buffered number that comes first after `e` in sequence order, for a
/// nonempty queue.
pub open spec fn next_key(q: Map<u32, FrameView>, e: u32) -> u32 {
    choose|k: u32| is_next_key(q, e, k)
}

/// The state after a pop from `s`, and the frame handed out.
pub open spec fn pop_model(s: JitterState) -> (JitterState, Option<FrameView>) {
    if !s.playing {
        (s, None)
    } else {
        match s.expected_seq {
            None => (s, None),
            Some(e) => {
                if s.queue.contains_key(e) {
                    (
                        JitterState {
                            queue: s.queue.remove(e),
                            expected_seq: Some(e.wrapping_add(1)),
                            ..s
                        },
                        Some(s.queue[e]),
                    )
                } else if s.queue.len() == 0 {
                    (JitterState { playing: false, ..s }, None)
                } else {
                    let first = next_key(s.queue, e);
                    let gap = distance(e, first);
                    let lost = if gap < MAX_LOSS_GAP {
                        s.lost.wrapping_add(gap as u64)
                    } else {
                        s.lost
                    };
                    (
                        JitterState {
                            queue: s.queue.remove(first),
                            expected_seq: Some(first.wrapping_add(1)),
                            lost,
                            ..s
                        },
                        Some(s.queue[first]),
                    )
                }
            },
        }
    }
}

/// The counters that `stats` reports for `s`.
pub open spec fn stats_model(s: JitterState) -> JitterStats {
    JitterStats {
        packets_received: s.received,
        packets_lost: s.lost,
        packets_dropped_late: s.dropped_late,
        buffered_frames: s.queue.len() as u64,
        frame_pcm_bytes: s.frame_pcm_bytes as u64,
    }
}

/// The invariant of the model: each frame is filed under its own number,
/// nothing is buffered and nothing plays before the first packet sets the
/// expected number, the target lies in 5..=200 ms and a frame spans some
/// bytes.
pub open spec fn state_wf(s: JitterState) -> bool {
    &&& s.queue.dom().finite()
    &&& forall|k: u32| #[trigger] s.queue.contains_key(k) ==> s.queue[k].seq == k
    &&& (s.expected_seq is None ==> s.queue.len() == 0 && !s.playing)
    &&& MIN_TARGET_DELAY_US <= s.target_delay_us <= MAX_TARGET_DELAY_US
    &&& s.frame_pcm_bytes > 0
}

/// Adaptive reordering jitter buffer.
pub struct JitterBuffer {
    target_delay_us: u64,
    queue: BTreeMap<u32, BufferedFrame>,
    expected_seq: Option<u32>,
    is_playing: bool,
    packets_received: u64,
    packets_lost: u64,
    packets_dropped_late: u64,
    frame_pcm_bytes: usize,
}

impl View for JitterBuffer {
    type V = JitterState;

    closed spec fn view(&self) -> JitterState {
        JitterState {
            target_delay_us: self.target_delay_us,
            queue: self.queue@.map_values(|f: BufferedFrame| f@),
            expected_seq: self.expected_seq,
            playing: self.is_playing,
            received: self.packets_received,
            lost: self.packets_lost,
            dropped_late: self.packets_dropped_late,
            frame_pcm_bytes: self.frame_pcm_bytes,
        }
    }
}

impl JitterBuffer {
    /// Well-formedness: the model invariant holds.
    pub open spec fn wf(&self) -> bool {
        state_wf(self@)
    }

    /// An empty buffer, not playing, with the target delay clamped to
    /// 5..=200 ms and frames assumed to last 10 ms.
    pub fn new(target_delay_us: u64) -> (jb: Self)
        ensures
            jb.wf(),
            jb@ == (JitterState {
                target_delay_us: clamp_target(target_delay_us),
                queue: Map::empty(),
                expected_seq: None,
                playing: false,
                received: 0,
                lost: 0,
                dropped_late: 0,
                frame_pcm_bytes: DEFAULT_FRAME_PCM_BYTES,
            }),
    {
        let target = if target_delay_us < MIN_TARGET_DELAY_US {
            MIN_TARGET_DELAY_US
        } else if target_delay_us > MAX_TARGET_DELAY_US {
            MAX_TARGET_DELAY_US
        } else {
            target_delay_us
        };
        let jb = JitterBuffer {
            target_delay_us: target,
            queue: BTreeMap::new(),
            expected_seq: None,
            is_playing: false,
            packets_received: 0,
            packets_lost: 0,
            packets_dropped_late: 0,
            frame_pcm_bytes: DEFAULT_FRAME_PCM_BYTES,
        };
        assert(jb@.queue =~= Map::empty());
        jb
    }

    /// The target delay in microseconds.
    pub fn target_delay_us(&self) -> (us: u64)
        ensures
            us == self@.target_delay_us,
    {
        self.target_delay_us
    }
}

/// Viewing each frame keeps the set of sequence numbers.
proof fn lemma_frames_view_dom(q: Map<u32, BufferedFrame>)
    ensures
        q.map_values(|f: BufferedFrame| f@).dom() == q.dom(),
{
    assert(q.map_values(|f: BufferedFrame| f@).dom() =~= q.dom());
}

/// Whether `frames` frames of `frame_pcm_bytes` bytes reach the target.
fn is_primed(frames: usize, frame_pcm_bytes: usize, target_delay_us: u64) -> (b: bool)
    ensures
        b == primed(frames as nat, frame_pcm_bytes as nat, target_delay_us as nat),
{
    let target = (target_delay_us as u128) * 24;
    match (frames as u128).checked_mul(frame_pcm_bytes as u128) {
        None => {
            assert(frames as nat * frame_pcm_bytes as nat * 125 >= frames as nat
                * frame_pcm_bytes as nat) by (nonlinear_arith);
            true
        },
        Some(bytes) => match bytes.checked_mul(125) {
            None => true,
            Some(scaled) => scaled >= target,
        },
    }
}

impl JitterBuffer {
    /// Pushes an incoming packet into the jitter buffer.
    ///
    /// Every push counts as received. A packet that comes after its turn
    /// (behind the next expected number, see `is_late`) is dropped and
    /// counted as late; any other is buffered under its sequence number,
    /// replacing a frame with the same number. The first packet fixes the
    /// next expected number. A non-empty PCM payload sets the frame length.
    /// Playout starts once the buffered frames reach the target delay.
    pub fn push(&mut self, packet: AudioPacket)
        requires
            old(self).wf(),
        ensures
            final(self).wf(),
            final(self)@ == push_model(old(self)@, packet.header, packet.payload@),
    {
        let ghost s0 = self@;
        let seq = packet.header.seq;
        self.packets_received = self.packets_received.wrapping_add(1);
        match self.expected_seq {
            Some(expected) => {
                let diff = seq.wrapping_sub(expected);
                if diff > 0x8000_0000u32 {
                    self.packets_dropped_late = self.packets_dropped_late.wrapping_add(1);
                    assert(self@.queue =~= s0.queue);
                    return;
                }
            },
            None => {
                self.expected_seq = Some(seq);
            },
        }
        let frame = BufferedFrame {
            seq,
            timestamp_ns: packet.header.timestamp_ns,
            codec: packet.header.codec,
            payload: vstd::slice::slice_to_vec(packet.payload),
        };
        let ghost old_queue = self.queue@;
        self.queue.insert(seq, frame);
        assert(self.queue@.map_values(|f: BufferedFrame| f@) =~= old_queue.map_values(
            |f: BufferedFrame| f@,
        ).insert(seq, frame_of(packet.header, packet.payload@)));
        proof {
            lemma_frames_view_dom(self.queue@);
        }
        if packet.header.codec == CodecMode::Pcm && packet.payload.len() > 0 {
            self.frame_pcm_bytes = packet.payload.len();
        }
        if !self.is_playing {
            if is_primed(self.queue.len(), self.frame_pcm_bytes, self.target_delay_us) {
                self.is_playing = true;
            }
        }
    }
}

impl JitterBuffer {
    /// The buffered number that comes first after `expected` in sequence
    /// order, found by looking at every buffered number.
    fn next_seq(&self, expected: u32) -> (next: Option<u32>)
        ensures
            match next {
                Some(k) => is_next_key(self@.queue, expected, k),
                None => self@.queue.len() == 0,
            },
    {
        proof {
            lemma_frames_view_dom(self.queue@);
        }
        let ghost r = vstd::std_specs::iter::IteratorSpec::remaining(
            &vstd::std_specs::btree::spec_keys_iter(&self.queue),
        );
        let mut best: Option<u32> = None;
        for k in it: self.queue.keys()
            invariant
                it.seq() == r,
                best is None <==> it.index() == 0,
                best matches Some(b) ==> {
                    &&& exists|m: int| 0 <= m < it.index() && *r[m] == b
                    &&& forall|m: int|
                        0 <= m < it.index() ==> distance(expected, b) <= distance(
                            expected,
                            #[trigger] *r[m],
                        )
                },
            ensures
                best is None ==> r.len() == 0,
                best matches Some(b) ==> {
                    &&& exists|m: int| 0 <= m < r.len() && *r[m] == b
                    &&& forall|m: int|
                        0 <= m < r.len() ==> distance(expected, b) <= distance(
                            expected,
                            #[trigger] *r[m],
                        )
                },
        {
            let ghost i = it.index();
            let key = *k;
            match best {
                None => {
                    best = Some(key);
                },
                Some(b) => {
                    if key.wrapping_sub(expected) < b.wrapping_sub(expected) {
                        best = Some(key);
                    }
                },
            }
            proof {
                assert(*r[i] == key);
            }
        }
        proof {
            assert(r.unref().to_set() == self.queue@.dom());
            if let Some(b) = best {
                let m = choose|m: int| 0 <= m < r.len() && *r[m] == b;
                assert(r.unref()[m] == b);
                assert(r.unref().to_set().contains(b));
                assert forall|j: u32| #[trigger] self@.queue.contains_key(j) implies distance(
                    expected,
                    b,
                ) <= distance(expected, j) by {
                    assert(r.unref().to_set().contains(j));
                    let i = choose|i: int| 0 <= i < r.len() && r.unref()[i] == j;
                    assert(*r[i] == j);
                }
            } else {
                assert(r.unref().to_set().len() == 0);
            }
        }
        best
    }
}

/// Only one buffered number comes first after `e`: distinct numbers lie at
/// distinct distances from it.
proof fn lemma_next_key_unique(q: Map<u32, FrameView>, e: u32, k: u32)
    requires
        is_next_key(q, e, k),
    ensures
        next_key(q, e) == k,
{
    let m = next_key(q, e);
    assert(is_next_key(q, e, m));
    assert(distance(e, m) == distance(e, k));
}

impl JitterBuffer {
    /// Pulls the next frame for playback; `None` while the buffer is not
    /// playing or has run dry.
    ///
    /// While playing: the frame with the expected number is handed out if
    /// buffered. Otherwise an empty buffer stops playout until it refills to
    /// the target (underrun), and a nonempty one skips to the number that
    /// comes first after the expected one in sequence order (wrapping at
    /// 2^32), hands that frame out, and counts the skipped numbers as lost
    /// when fewer than 20 were skipped (a longer jump is a resynchronisation).
    pub fn pop(&mut self) -> (res: Option<BufferedFrame>)
        requires
            old(self).wf(),
        ensures
            final(self).wf(),
            final(self)@ == pop_model(old(self)@).0,
            match res {
                Some(f) => pop_model(old(self)@).1 == Some(f@),
                None => pop_model(old(self)@).1 is None,
            },
    {
        let ghost s0 = self@;
        proof {
            lemma_frames_view_dom(self.queue@);
        }
        if !self.is_playing {
            return None;
        }
        let expected = match self.expected_seq {
            Some(s) => s,
            None => return None,
        };
        let ghost q0 = self.queue@;
        if let Some(frame) = self.queue.remove(&expected) {
            self.expected_seq = Some(expected.wrapping_add(1));
            proof {
                lemma_frames_view_dom(self.queue@);
                assert(self.queue@.map_values(|f: BufferedFrame| f@) =~= q0.map_values(
                    |f: BufferedFrame| f@,
                ).remove(expected));
            }
            return Some(frame);
        }
        assert(self.queue@ == q0);
        if self.queue.is_empty() {
            self.is_playing = false;
            return None;
        }
        match self.next_seq(expected) {
            Some(earliest_seq) => {
                proof {
                    lemma_next_key_unique(s0.queue, expected, earliest_seq);
                }
                let gap = earliest_seq.wrapping_sub(expected);
                if gap < MAX_LOSS_GAP {
                    self.packets_lost = self.packets_lost.wrapping_add(gap as u64);
                }
                self.expected_seq = Some(earliest_seq.wrapping_add(1));
                let res = self.queue.remove(&earliest_seq);
                proof {
                    lemma_frames_view_dom(self.queue@);
                    assert(self.queue@.map_values(|f: BufferedFrame| f@) =~= q0.map_values(
                        |f: BufferedFrame| f@,
                    ).remove(earliest_seq));
                }
                res
            },
            None => None,
        }
    }

    /// The counters of the buffer.
    pub fn stats(&self) -> (st: JitterStats)
        requires
            self.wf(),
        ensures
            st == stats_model(self@),
    {
        proof {
            lemma_frames_view_dom(self.queue@);
        }
        JitterStats {
            packets_received: self.packets_received,
            packets_lost: self.packets_lost,
            packets_dropped_late: self.packets_dropped_late,
            buffered_frames: self.queue.len() as u64,
            frame_pcm_bytes: self.frame_pcm_bytes as u64,
        }
    }
}

/// The sequence number `i` places after `e`, modulo 2^32.
pub open spec fn seq_after(e: u32, i: int) -> u32 {
    ((e + i) % 0x1_0000_0000) as u32
}

/// The states and frames of `n` pops in a row from `s`.
pub open spec fn pop_many(s: JitterState, n: nat) -> (JitterState, Seq<Option<FrameView>>)
    decreases n,
{
    if n == 0 {
        (s, Seq::empty())
    } else {
        let (s1, f) = pop_model(s);
        let (s2, fs) = pop_many(s1, (n - 1) as nat);
        (s2, seq![f] + fs)
    }
}

/// Both operations keep the invariant (for a payload that fits in memory).
pub proof fn lemma_operations_keep_wf(s: JitterState, h: AudioHeader, payload: Seq<u8>)
    requires
        state_wf(s),
        payload.len() <= usize::MAX,
    ensures
        state_wf(push_model(s, h, payload)),
        state_wf(pop_model(s).0),
{
}

/// A finite, nonempty queue has a number that comes first after any `e`.
pub proof fn lemma_finite_map_has_next_key(q: Map<u32, FrameView>, e: u32)
    requires
        q.dom().finite(),
        q.len() > 0,
    ensures
        is_next_key(q, e, next_key(q, e)),
{
    let leq = |a: u32, b: u32| distance(e, a) <= distance(e, b);
    let dom = q.dom();
    vstd::set_lib::lemma_set_empty_equivalency_len(dom);
    assert(vstd::relations::total_ordering(leq)) by {
        assert forall|a: u32, b: u32| #[trigger] leq(a, b) && #[trigger] leq(b, a) implies a == b by {
            assert(distance(e, a) == distance(e, b));
        }
    }
    let m = dom.find_unique_minimal(leq);
    dom.find_unique_minimal_ensures(leq);
    dom.lemma_minimal_equivalent_least(leq, m);
    assert forall|j: u32| #[trigger] q.contains_key(j) implies distance(e, m) <= distance(e, j) by {
        assert(dom.contains(j));
        assert(leq(m, j));
    }
    assert(is_next_key(q, e, m));
}

/// A packet that is not late is buffered under its number and reads back
/// as it was pushed; the other buffered frames stay as they were. Every
/// push is counted as received.
pub proof fn lemma_push_then_read_back(s: JitterState, h: AudioHeader, payload: Seq<u8>)
    requires
        !is_late(s.expected_seq, h.seq),
    ensures
        push_model(s, h, payload).queue.contains_key(h.seq),
        push_model(s, h, payload).queue[h.seq] == frame_of(h, payload),
        forall|k: u32|
            k != h.seq ==> (#[trigger] push_model(s, h, payload).queue.contains_key(k)
                <==> s.queue.contains_key(k)) && (s.queue.contains_key(k) ==> push_model(
                s,
                h,
                payload,
            ).queue[k] == s.queue[k]),
        push_model(s, h, payload).received == s.received.wrapping_add(1),
{
}

/// A late packet leaves the queue, the playout position and the playout
/// state alone; it is counted as received and as dropped late.
pub proof fn lemma_late_packet_dropped(s: JitterState, h: AudioHeader, payload: Seq<u8>)
    requires
        is_late(s.expected_seq, h.seq),
    ensures
        push_model(s, h, payload).queue == s.queue,
        push_model(s, h, payload).expected_seq == s.expected_seq,
        push_model(s, h, payload).playing == s.playing,
        push_model(s, h, payload).received == s.received.wrapping_add(1),
        push_model(s, h, payload).dropped_late == s.dropped_late.wrapping_add(1),
        push_model(s, h, payload).lost == s.lost,
{
}

/// Playout starts only when the buffered frames reach the target delay,
/// and once started a push does not stop it.
pub proof fn lemma_push_starts_playout_when_primed(
    s: JitterState,
    h: AudioHeader,
    payload: Seq<u8>,
)
    ensures
        ({
            let t = push_model(s, h, payload);
            &&& t.playing ==> s.playing || primed(
                t.queue.len(),
                t.frame_pcm_bytes as nat,
                t.target_delay_us as nat,
            )
            &&& s.playing ==> t.playing
        }),
{
}

/// Nothing comes out before playout has started, and asking does not change
/// the buffer.
pub proof fn lemma_no_frame_before_playout(s: JitterState)
    requires
        !s.playing,
    ensures
        pop_model(s) == (s, None::<FrameView>),
{
}

/// When the expected frame is buffered, it is the one handed out, it leaves
/// the buffer, and the next expected number is one more (modulo 2^32).
pub proof fn lemma_pop_expected_frame(s: JitterState, e: u32)
    requires
        s.playing,
        s.expected_seq == Some(e),
        s.queue.contains_key(e),
    ensures
        pop_model(s).1 == Some(s.queue[e]),
        pop_model(s).0.queue == s.queue.remove(e),
        pop_model(s).0.expected_seq == Some(e.wrapping_add(1)),
        pop_model(s).0.playing,
        pop_model(s).0.lost == s.lost,
{
}

/// An empty buffer while playing is an underrun: nothing comes out and
/// playout pauses until the buffer refills to the target.
pub proof fn lemma_underrun_pauses_playout(s: JitterState)
    requires
        state_wf(s),
        s.playing,
        s.expected_seq is Some,
        s.queue.len() == 0,
    ensures
        pop_model(s).1 is None,
        !pop_model(s).0.playing,
        pop_model(s).0.queue == s.queue,
{
    vstd::set_lib::lemma_set_empty_equivalency_len(s.queue.dom());
}

/// When the expected frame is missing but others are buffered, the frame
/// that comes first after the expected number in sequence order (wrapping
/// at 2^32) comes out next, the skipped numbers count as lost when fewer
/// than 20, and playout goes on after that frame.
pub proof fn lemma_gap_skips_to_earliest(s: JitterState, e: u32)
    requires
        state_wf(s),
        s.playing,
        s.expected_seq == Some(e),
        !s.queue.contains_key(e),
        s.queue.len() > 0,
    ensures
        ({
            let first = next_key(s.queue, e);
            let gap = distance(e, first);
            &&& is_next_key(s.queue, e, first)
            &&& pop_model(s).1 == Some(s.queue[first])
            &&& pop_model(s).0.queue == s.queue.remove(first)
            &&& pop_model(s).0.expected_seq == Some(first.wrapping_add(1))
            &&& pop_model(s).0.lost == if gap < MAX_LOSS_GAP {
                s.lost.wrapping_add(gap as u64)
            } else {
                s.lost
            }
        }),
{
    lemma_finite_map_has_next_key(s.queue, e);
}

/// A frame that comes out was buffered, comes out as it was buffered, and
/// leaves the buffer, so no frame is made up or handed out twice.
pub proof fn lemma_pop_hands_out_buffered_frame(s: JitterState)
    requires
        state_wf(s),
    ensures
        pop_model(s).1 matches Some(f) ==> {
            &&& s.queue.contains_key(f.seq)
            &&& s.queue[f.seq] == f
            &&& pop_model(s).0.queue == s.queue.remove(f.seq)
        },
        pop_model(s).1 is None ==> pop_model(s).0.queue == s.queue,
{
    if s.playing && s.expected_seq is Some && !s.queue.contains_key(s.expected_seq->0)
        && s.queue.len() > 0 {
        lemma_finite_map_has_next_key(s.queue, s.expected_seq->0);
    }
}

/// Frames buffered for `n` consecutive numbers from the expected one come
/// out in sequence order over `n` pops, whatever order they arrived in.
pub proof fn lemma_frames_come_out_in_order(s: JitterState, e: u32, n: nat)
    requires
        s.playing,
        s.expected_seq == Some(e),
        n <= 0x1_0000_0000,
        forall|i: int| 0 <= i < n ==> #[trigger] s.queue.contains_key(seq_after(e, i)),
    ensures
        pop_many(s, n).1 == Seq::new(n, |i: int| Some(s.queue[seq_after(e, i)])),
    decreases n,
{
    if n > 0 {
        assert(seq_after(e, 0) == e);
        let (s1, f) = pop_model(s);
        let e1 = e.wrapping_add(1);
        assert forall|i: int| 0 <= i < n - 1 implies #[trigger] s1.queue.contains_key(
            seq_after(e1, i),
        ) && s1.queue[seq_after(e1, i)] == s.queue[seq_after(e, i + 1)] by {
            assert(seq_after(e1, i) == seq_after(e, i + 1));
            assert(s.queue.contains_key(seq_after(e, i + 1)));
            assert(seq_after(e, i + 1) != e);
        }
        lemma_frames_come_out_in_order(s1, e1, (n - 1) as nat);
        let (s2, fs) = pop_many(s1, (n - 1) as nat);
        assert(pop_many(s, n).1 =~= Seq::new(n, |i: int| Some(s.queue[seq_after(e, i)])));
    }
}

/// Playout (re)starts on the push that brings the buffered audio up to the
/// target delay: after a packet that is not late, the buffer plays exactly
/// when it already played or its frames, at 192 PCM bytes per millisecond,
/// now span at least the target delay. Whether the next expected frame is
/// among them does not matter.
pub proof fn lemma_playout_starts_once_target_buffered(
    s: JitterState,
    h: AudioHeader,
    payload: Seq<u8>,
)
    requires
        !is_late(s.expected_seq, h.seq),
    ensures
        ({
            let t = push_model(s, h, payload);
            t.playing <==> (s.playing || t.queue.len() * t.frame_pcm_bytes * 1000
                >= t.target_delay_us * 192)
        }),
{
    let t = push_model(s, h, payload);
    let x: int = t.queue.len() * t.frame_pcm_bytes;
    let c: int = t.target_delay_us as int;
    assert(t.queue.len() * t.frame_pcm_bytes * 1000 == x * 1000);
    assert(t.queue.len() * t.frame_pcm_bytes * 125 == x * 125);
    assert((x * 125 >= c * 24) <==> (x * 1000 >= c * 192));
}

/// A pop right after a push that is not late and leaves at least the
/// target delay buffered hands out a frame: the buffered frame numbered
/// next in sequence order, the expected one if it arrived, else the first
/// after the gap.
pub proof fn lemma_primed_push_then_pop_gives_frame(
    s: JitterState,
    h: AudioHeader,
    payload: Seq<u8>,
)
    requires
        state_wf(s),
        payload.len() <= usize::MAX,
        !is_late(s.expected_seq, h.seq),
        ({
            let t = push_model(s, h, payload);
            t.queue.len() * t.frame_pcm_bytes * 1000 >= t.target_delay_us * 192
        }),
    ensures
        ({
            let t = push_model(s, h, payload);
            pop_model(t).1 matches Some(f) && t.queue.contains_key(f.seq) && t.queue[f.seq] == f
        }),
{
    let t = push_model(s, h, payload);
    lemma_playout_starts_once_target_buffered(s, h, payload);
    lemma_operations_keep_wf(s, h, payload);
    assert(t.queue.contains_key(h.seq));
    assert(t.queue.dom().contains(h.seq));
    vstd::set_lib::lemma_set_empty_equivalency_len(t.queue.dom());
    assert(t.queue.len() > 0);
    lemma_pop_hands_out_buffered_frame(t);
    let e = t.expected_seq->0;
    if !t.queue.contains_key(e) {
        lemma_finite_map_has_next_key(t.queue, e);
    }
}

/// Pausing on an underrun keeps the playout position: the next expected
/// number, the counters and the (empty) buffer stay as they were, so a
/// frame that arrives late in the network but before its turn is still
/// played, and later frames are not taken for a new stream.
pub proof fn lemma_underrun_keeps_position(s: JitterState)
    requires
        state_wf(s),
        s.playing,
        s.queue.len() == 0,
    ensures
        pop_model(s).1 is None,
        pop_model(s).0.expected_seq == s.expected_seq,
        pop_model(s).0.queue == s.queue,
        pop_model(s).0.received == s.received,
        pop_model(s).0.lost == s.lost,
        pop_model(s).0.dropped_late == s.dropped_late,
        !pop_model(s).0.playing,
{
    vstd::set_lib::lemma_set_empty_equivalency_len(s.queue.dom());
}

/// Once the first packet has set the playout position, no pop forgets it,
/// and a pop changes neither the received nor the dropped-late count.
pub proof fn lemma_pop_keeps_position_known(s: JitterState)
    ensures
        s.expected_seq is Some ==> pop_model(s).0.expected_seq is Some,
        pop_model(s).0.received == s.received,
        pop_model(s).0.dropped_late == s.dropped_late,
{
}

/// One operation on a jitter buffer: a push of a packet, or a pop.
pub enum JitterOp {
    Push(AudioHeader, Seq<u8>),
    Pop,
}

/// The state after the operation `op` on `s`.
pub open spec fn apply_op(s: JitterState, op: JitterOp) -> JitterState {
    match op {
        JitterOp::Push(h, p) => push_model(s, h, p),
        JitterOp::Pop => pop_model(s).0,
    }
}

/// The state after the operations `ops`, in order, from `s`.
pub open spec fn run_ops(s: JitterState, ops: Seq<JitterOp>) -> JitterState
    decreases ops.len(),
{
    if ops.len() == 0 {
        s
    } else {
        apply_op(run_ops(s, ops.drop_last()), ops.last())
    }
}

/// How many of the operations `ops` are pushes.
pub open spec fn count_pushes(ops: Seq<JitterOp>) -> nat
    decreases ops.len(),
{
    if ops.len() == 0 {
        0
    } else {
        count_pushes(ops.drop_last()) + if ops.last() is Push {
            1nat
        } else {
            0nat
        }
    }
}

/// Adding one to `x` modulo 2^64 is a wrapping increment.
proof fn lemma_wrapping_increment(r: u64, x: int)
    requires
        x >= 0,
        r == x % 0x1_0000_0000_0000_0000,
    ensures
        r.wrapping_add(1) == (x + 1) % 0x1_0000_0000_0000_0000,
{
    vstd::arithmetic::div_mod::lemma_add_mod_noop(x, 1, 0x1_0000_0000_0000_0000);
}

/// The received count that `stats` reports is the number of packets pushed
/// (late ones included, lost ones not), modulo 2^64, whatever pops came in
/// between: from a new buffer, `n` pushes report `n` packets received.
pub proof fn lemma_received_counts_pushes(s: JitterState, ops: Seq<JitterOp>)
    ensures
        stats_model(run_ops(s, ops)).packets_received as int == (s.received + count_pushes(ops))
            % 0x1_0000_0000_0000_0000,
    decreases ops.len(),
{
    if ops.len() == 0 {
        vstd::arithmetic::div_mod::lemma_small_mod(s.received as nat, 0x1_0000_0000_0000_0000);
    } else {
        let prev = ops.drop_last();
        lemma_received_counts_pushes(s, prev);
        let p = run_ops(s, prev);
        let x: int = s.received + count_pushes(prev);
        assert(p.received as int == x % 0x1_0000_0000_0000_0000);
        match ops.last() {
            JitterOp::Push(h, pl) => {
                lemma_wrapping_increment(p.received, x);
            },
            JitterOp::Pop => {},
        }
    }
}

/// A packet is late exactly when its number lies before the next expected
/// one by fewer than 2^31 (counting modulo 2^32): the expected packet and
/// the 2^31 numbers after it are taken, and nothing is late before the
/// first packet.
pub proof fn lemma_late_means_behind_expected(expected_seq: Option<u32>, seq: u32)
    ensures
        expected_seq is None ==> !is_late(expected_seq, seq),
        expected_seq matches Some(e) ==> (is_late(expected_seq, seq) <==> 0 < (e as int - seq as int)
            % 0x1_0000_0000 < 0x8000_0000),
{
}

/// A non-empty PCM packet that is not late sets the frame length to its
/// payload length; an Opus packet, an empty one or a late one leaves it.
pub proof fn lemma_frame_length_from_pcm(s: JitterState, h: AudioHeader, payload: Seq<u8>)
    requires
        payload.len() <= usize::MAX,
    ensures
        ({
            let t = push_model(s, h, payload);
            if !is_late(s.expected_seq, h.seq) && h.codec == CodecMode::Pcm && payload.len() > 0 {
                t.frame_pcm_bytes as int == payload.len() as int
            } else {
                t.frame_pcm_bytes == s.frame_pcm_bytes
            }
        }),
{
}

/// The first packet fixes the playout position at its own number; later
/// pushes leave it.
pub proof fn lemma_first_packet_sets_position(s: JitterState, h: AudioHeader, payload: Seq<u8>)
    ensures
        s.expected_seq is None ==> push_model(s, h, payload).expected_seq == Some(h.seq),
        s.expected_seq is Some ==> push_model(s, h, payload).expected_seq == s.expected_seq,
{
}

/// The target delay kept for a request lies in 5..=200 ms: a request in
/// that range is kept as it is, a shorter one becomes 5 ms and a longer
/// one 200 ms.
pub proof fn lemma_target_clamped(us: u64)
    ensures
        5000 <= clamp_target(us) <= 200000,
        5000 <= us <= 200000 ==> clamp_target(us) == us,
        us < 5000 ==> clamp_target(us) == 5000,
        us > 200000 ==> clamp_target(us) == 200000,
{
}

/// The statistics report the counters as they stand, the number of
/// buffered frames and the current frame length.
pub proof fn lemma_stats_report_counters(s: JitterState)
    requires
        s.queue.len() <= u64::MAX,
    ensures
        stats_model(s).packets_received == s.received,
        stats_model(s).packets_lost == s.lost,
        stats_model(s).packets_dropped_late == s.dropped_late,
        stats_model(s).buffered_frames as int == s.queue.len() as int,
        stats_model(s).frame_pcm_bytes as int == s.frame_pcm_bytes as int,
{
}

impl JitterBuffer {
    /// The receiver's step for one audio datagram: a datagram that parses
    /// is pushed and then one frame is pulled for playout; one that does
    /// not parse leaves the buffer alone and gives the parse error.
    pub fn receive(&mut self, datagram: &[u8]) -> (res: Result<Option<BufferedFrame>, ProtocolError>)
        requires
            old(self).wf(),
        ensures
            final(self).wf(),
            match protocol::parse_packet(datagram@) {
                Err(e) => res == Err::<Option<BufferedFrame>, ProtocolError>(e) && final(self)@
                    == old(self)@,
                Ok((h, payload)) => {
                    let pushed = push_model(old(self)@, h, payload);
                    &&& final(self)@ == pop_model(pushed).0
                    &&& res matches Ok(frame) && match frame {
                        Some(f) => pop_model(pushed).1 == Some(f@),
                        None => pop_model(pushed).1 is None,
                    }
                },
            },
    {
        match AudioPacket::parse(datagram) {
            Ok(packet) => {
                self.push(packet);
                Ok(self.pop())
            },
            Err(e) => Err(e),
        }
    }
}

/// Loss above this percentage of the packets is worth a warning.
pub const LOSS_WARNING_PERCENT: u64 = 2;

/// Whether `lost` out of `received + lost` packets is more than 2%.
pub open spec fn loss_above_threshold(received: u64, lost: u64) -> bool {
    lost * 100 > LOSS_WARNING_PERCENT * (received + lost)
}

/// The loss warning compares the fraction of lost packets with 2/100
/// exactly, with no rounding: with packets counted, it is raised exactly
/// when lost / (received + lost) > 2 / 100; with none at all it is not.
pub proof fn lemma_loss_warning_is_exact_fraction(received: u64, lost: u64)
    ensures
        received as int + lost as int == 0 ==> !loss_above_threshold(received, lost),
        received as int + lost as int > 0 ==> (loss_above_threshold(received, lost) <==> 100
            * (lost as int) > 2 * (received as int + lost as int)),
        loss_above_threshold(received, lost) <==> 50 * (lost as int) > received as int + lost as int,
{
}

impl JitterStats {
    /// Whether the lost packets are more than 2% of all packets (received
    /// and lost).
    pub fn loss_exceeds_threshold(&self) -> (b: bool)
        ensures
            b == loss_above_threshold(self.packets_received, self.packets_lost),
    {
        let lost = self.packets_lost as u128;
        let total = self.packets_received as u128 + lost;
        let percent = LOSS_WARNING_PERCENT as u128;
        assert(percent == 2);
        lost * 100 > percent * total
    }
}

} // verus!

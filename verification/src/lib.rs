//! Wire formats and playout logic of a low-latency LAN audio link.
//!
//! The library holds the parts of the sender and the receiver that compute:
//! the audio packet header and the control message formats, the adaptive
//! jitter buffer, the control responder, the ping bookkeeping, the integer
//! side of PCM sample coding, and the choice of audio device and receiver
//! address.

pub mod bytes;
pub mod protocol;
pub mod control;
pub mod jitter_buffer;
pub mod ping;
pub mod pcm;
pub mod device;
pub mod discovery;
pub mod playout;
pub mod framing;

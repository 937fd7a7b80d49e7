# lan_audio

Verified core of a low-latency LAN audio link: a Windows sender captures
system audio and streams it over UDP to a macOS receiver, which plays it out
through an adaptive jitter buffer.

- `src/` is the library, checked by Verus:
  - `bytes`: big-endian fields, written and read through `byteorder`;
  - `protocol`: the 15-byte audio header, packet parsing and framing;
  - `control`: ping, pong, volume and stats messages, and the receiver's
    control responder;
  - `framing`: cutting the captured stream into frames and numbering the
    packets 0, 1, 2, ... (wrapping);
  - `jitter_buffer`: reordering, loss detection, playout start/pause, the
    receive step for one datagram and the packet-loss warning threshold;
  - `ping`: ping numbering, unanswered-ping counting and round-trip
    samples on the sender;
  - `playout`: filling the device buffer, with silence on underrun;
  - `pcm`: 16-bit little-endian PCM payloads;
  - `device`, `discovery`: choosing an audio device by name and the
    receiver's address.
- `app/` is the program around it (`sender`, `receiver` and `dashboard`
  subcommands): sockets, audio devices, mDNS, the HTTPS dashboard, and the
  floating-point parts (sample conversion, gain, latency smoothing).
- `tests/` exercises the library.

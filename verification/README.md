# discord_stream_rs

Streaming audio and video to Discord voice channels, with the protocol logic
verified by Verus.

- `src/` is the verified library: the voice gateway's state machine and its DAVE
  end-to-end encryption handshake (through the `davey` crate), the main gateway
  controller, binary voice frames, RTP packetization, Annex-B splitting, the
  bitstream reader and writer, the H264 SPS rewriter (with a proof that a
  rewritten SPS reads back with `max_num_reorder_frames = 0`), stream keys, codec
  names, stream selection for the demuxer and encoder settings.
- `app/` is the runtime around it: the voice gateway's WebSocket loop, JSON,
  the WebRTC peer connection, pacing by presentation time, and ffmpeg demuxing and
  decoding. It carries out the protocol decisions that the library returns; the
  one thing it decides itself is the pacing of frames, which works in floating
  point milliseconds.
- `tests/` runs the library on concrete values.

app/ also depends on `rtc`, the core crate that `webrtc` 0.21 is built on: its RTP
packet and codec types are named from there.

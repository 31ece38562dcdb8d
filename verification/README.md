# kizuna

Kizuna's security and streaming core, written in Verus and verified.

## Layout

- `src/` is the verified library:
  - `security/`: device identities, encryption sessions (X25519 agreement, ChaCha20-Poly1305, nonces and replay checks), trust levels and pairing, the policy engine (rate limiting, attack detection, private and local-only modes, auditing) and constant-time helpers.
  - `streaming/`: viewers and broadcasts, recording permissions and the recording catalog, buffering and flow control, congestion control and loss recovery, quality scaling, encoder selection and camera lists built from device reports.
  - `platform/windows/`: installer, notification and registry descriptions.

  Each public function states its result in `ensures`. The laws that relate several calls are public proof functions, named `lemma_*`.
- `tests/` runs the library with the real outside crates linked.
- `app/` is ordinary Rust around the library:
  - the keystore, the SQLite trust database, the audit file and recording files;
  - the system commands that list cameras, and Windows system calls;
  - async services over the verified state;
  - the heuristics written with floating-point fractions (connection classes, bitrate factors, fill levels, CPU thresholds).

## What is not here

Some parts of Kizuna rest on crates that cannot be built in this environment, so they are absent from both the library and `app/`:
- capturing, encoding and decoding video rest on GStreamer (`gstreamer`, `gstreamer-app`, `gstreamer-video`), and Linux camera access rests on `v4l`. Both need system libraries.
- WebRTC streaming rests on `webrtc`, which is too large to bring in.
- QUIC streaming rests on `quinn`, `bytes` and a transport layer that is not part of this tree.

What those services decide stands in the library all the same:
- the configurations, RTP headers and stream multiplexing;
- encoder selection;
- the camera lists built from device reports.

Encoder detection in `app/` reports that GStreamer is not available, so software encoding is selected.

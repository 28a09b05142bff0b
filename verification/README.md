# screen_share

A verified core for a low-latency screen-sharing system: a Linux server
captures the screen with ffmpeg, cuts the encoder output into access units,
protects each frame with Reed-Solomon parity and sends it over UDP; clients
decode, display, and send keyboard and mouse input back over a TCP control
channel, which the server injects through uinput.

`src/` is the library, verified with Verus:

- `rtp.rs`: the 16-byte packet header (big-endian, via byteorder).
- `erasure.rs`: the trusted interface to `reed-solomon-erasure`.
- `fec.rs`, `fec_laws.rs`, `decoder_bounds.rs`, `frame_keys.rs`: frame
  encoding into data and parity packets, the decoder that gathers and
  rebuilds frames, and what they promise together.
- `nal_extractor.rs`, `nal_laws.rs`: Annex-B access-unit extraction for
  H.264 and HEVC, and what it promises over a whole chunked stream.
- `session.rs`: the session handshake and the per-session pipeline.
- `capture.rs`, `browser_capture.rs`, `display.rs`: encoder and decoder
  command lines, frame layouts, the latest-frame slot.
- `command.rs`, `input_events.rs`, `keymap.rs`, `client_input.rs`: control
  messages, what the server injects for them, and the clients' input loop.
- `clipboard.rs`: the desktop session and the clipboard helpers to try.
- `hud.rs`, `panel.rs`, `launcher.rs`: the clients' overlay, the server's
  panel and the connection launcher.
- `browser_session.rs`: signalling and input of the browser variant.
- `cli.rs`, `text.rs`: command lines and text helpers.

`app/` holds the programs around the library: the server (sockets,
processes, uinput devices), the Linux client (`client-linux`: SDL window,
ffmpeg decoder process) and the browser variant (`browser`: axum and
WebRTC). `tests/` runs the library on concrete values.

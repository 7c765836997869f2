# aes67_rs

The core of an AES67 audio-over-IP library (virtual sound card: RTP senders and
receivers synchronised by PTP), verified with Verus.

- `src/` is the verified library: reading session descriptions, choosing receive
  sockets, judging received RTP packets and placing them on the media clock's timeline,
  the receiver's per-channel sample rings, cutting written audio into RTP packets, the
  senders' and receivers' statistics, SAP session ordering, media clock arithmetic,
  network interface lookup and the rendering of `ptp4l` configuration files.
  Calls into `sdp`, `regex`, `rtp-rs`, `rand` and tokio's bounded channel, and a few `std`
  string operations, go through small trusted wrappers whose contracts are stated next to
  them.
- `tests/` runs the library on concrete values.
- `app/` holds what talks to the operating system and the network (sockets, clocks,
  processes, threads, worterbuch), converting to and from the library's plain values.

# hyperlink_protocol

The HyperLink wire protocol and the decisions of its tools, verified with Verus.

- `src/` — the library. Wire framing (`wire`, `version`, `message`), the
  clock-sync, echo and video codecs (`clock`, `echo`, `video`), fingerprints,
  pairing PINs and the trust-on-first-use check (`crypto`, `pairing`), the
  device configuration and its trusted peers (`config`), frame reassembly on
  the host (`reassembly`), decoder-side helpers (`pipeline`), the mDNS record
  (`discovery`), companion events (`companion`), and the measurement harness's
  packets and integer statistics (`bench`, `metrics`). Every function there has
  a contract; round trips, pairing-PIN symmetry, TOFU pinning and revocation,
  frame staleness and reassembly are stated as proof functions.
- `tests/` — unit and scenario tests of the library.
- `app/` — the programs around it: the bench harness, the Linux host daemon,
  the Android JNI bridge, rustls verifiers, configuration files and the
  floating-point statistics.

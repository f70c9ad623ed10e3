# clearcam

The desktop side of ClearCam, which streams an iPhone camera to a computer over
Wi-Fi or USB using the ClearCam Protocol (CCP).

`src/` is the library, verified with Verus:

- `protocol`: the length-prefixed control framing, the 28-byte media frame
  header, capabilities and the control-message bodies.
- `adaptive`: the bitrate tables, mode selection for a measured link, the
  speedtest ramp and the live adaptation state machine.
- `transport`: frame-length rules, stream provenance, USB bus polling and
  listen-event bookkeeping, and the loopback conductor's routing.
- `session`: the handshake state machine, the control-plane reactions,
  keepalive timing, media-socket binding and the UI-facing session states.
- `media`: NV12 plane splitting, frame routing (speedtest filler versus
  video), the speedtest byte counter and the passthrough decoder.
- `desktop`: base64, the QR token and payload, the pairing-key table and the
  plan for a dialed USB device.

`app/` holds what cannot be verified: sockets, tokio tasks, files, serde
shapes of the messages, floating-point throughput and RTT estimates, and the
`idevice` backend. It calls the library for every decision.

`tests/` exercises the library on concrete values.

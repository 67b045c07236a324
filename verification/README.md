# TeamView

TeamView is a screen-sharing and voice system: a QUIC relay (SFU) that
forwards media datagrams between the participants of rooms, a desktop client
that publishes or watches streams, and a load test for the relay.

The core is a library whose behaviour is stated in Verus contracts and proved:

- `src/protocol`: the 81-byte media packet header and its codec, frame
  packetization and reassembly (with a round-trip law), control message
  types, and the control line framing.
- `src/relay`: the relay's control state (rooms, streams, subscriptions,
  voice states, participant listing, remote-input queues, capacity limits,
  stats and feedback, access control) with one exact account of every
  request in `handle::handled`, the laws that hold of every answer in
  `control::laws`, media forwarding plans (voice held back from muted
  publishers and deafened listeners, oversized datagrams dropped), the
  per-viewer, per-stream egress queues with a media-time budget, and
  fan-out.
- `src/client`: the desktop client's view model, capture queues, synthetic
  H.264 and Opus stand-ins, frame reassembly, playback, remote input records
  and statistics.
- `src/load_test.rs`: synthetic fan-out and sample forwarding runs.

`app/` is the program around it: QUIC endpoints (quinn, rustls, rcgen), the
JSON form of control messages (serde), the relay's connection loop, the
client's control and media flows, and the load test's command line. It is
one binary with the subcommands `relay`, `client` and `load-test`.

`tests/` runs the library on concrete values.

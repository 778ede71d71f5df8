# Volcano

A selective forwarding unit for WebRTC: clients publish audio and video to a room, and the server
forwards the packets to everyone else in it.

The library in `src/` decides, and its decisions are proved with Verus. It holds no socket and no
lock: it takes plain values, changes its own state, and says what is to be done next.

- `buffer/` and `packet/`: buffers of received packets, the feedback for lost ones, VP8 headers.
- `track/`: receivers with their layers, the tracks that packets are forwarded on, simulcast, voice
  activity, the router of a client.
- `peer/`, `controllers/` and `rtc/`: negotiation, candidates, data channels, the sides of a client,
  relays, the configuration.
- `session/`, `reference.rs` and `signaling/`: rooms, and what clients and the server tell each other.
- `registry.rs`, `text.rs`, `bits.rs`, `stats.rs`, `turn.rs`: what the others need, and the users of
  the TURN server.

Functions whose names begin with `law_` state what holds across functions. Functions marked
`external_body` call other crates; what is believed of those calls is written above each of them.

The server in `app/` does the rest: it listens, speaks WebRTC, and reads and writes JSON and TOML.

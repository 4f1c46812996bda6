# iroh_godot

A Godot `MultiplayerPeerExtension` over iroh, with its logic verified by Verus.

- `src/` is the verified library: the decisions of the multiplayer peers (packet queues,
  routing of Godot's packets, connection registries, signals, handshakes, framing, the steps
  of a mesh join, what a connection hands on after a read, gossip tickets) as functions with
  contracts, and the laws that hold across them. The network work they decide on (connecting,
  reading, writing, subscribing) is done in `app/`.
  - `lib.rs`: the peer the extension registers with Godot (router events, per-connection
    packets, length-header framing).
  - `shared.rs`: packet queue, peer registry, routing, peer-id codec, random ids.
  - `api.rs`, `extension.rs`, `proto.rs`: the peer driven through an endpoint task, and the
    mesh protocol (join, accept, u16 length-prefixed frames).
  - `multiplayer_peer/`, `protocol/`: the peer on the direct protocol (id handshake, stamped
    packets).
  - `network/`: the peer on the iroh runtime task and its gossip tickets.
  - `iroh_godot_protocol.rs`: the star protocol's decisions.
  - `keys.rs`: endpoint ids as hex and z-base-32 text.
  - `messages.rs`: the flatbuffers wire messages (data packet, join request, join answer):
    their byte layout, a checked reader and a writer, and the round trips.
- `tests/` runs the library on concrete values.
- `app/` is the Godot extension itself: Godot classes, the tokio runtime, iroh endpoints and
  streams, and the flexbuffer encoding of gossip tickets.

# distributed_nodes

A supervisor/worker cluster. Workers connect to a supervisor, say hello with
their id and public key, and are welcomed with the list of the other workers;
the supervisor announces each newcomer to the workers it already has. Every
message is one line of JSON.

## How a worker joins

1. **Handshake.** The worker sends `Hello` (its id, its public key, and its
   signature of its id); the supervisor registers it and answers `Welcome`
   (its own id and public key, the other workers, and its signature of the
   new id followed by each listed worker's id and key).
2. **Peer discovery.** The welcome lists every other registered worker; each
   of those gets a `NewPeer` announcement of the newcomer, signed as the
   welcome. The newcomer records the listed peers; the others record the
   newcomer.
3. **Peer connection.** The newcomer connects to each peer its welcome lists
   and greets it with `PeerHello`; a worker that receives a `PeerHello`
   records the peer as connected and admits it.

- `src/` is the library, verified with Verus: the message types
  (`protocol`), line framing (`wire`), signing payloads and the Ed25519 calls
  (`crypto`), the node registry (`registry`), the supervisor core
  (`supervisor_core`, and the routing-only `registry_core`), the decisions of
  the supervisor's sessions (`supervisor_session`), the worker core
  (`worker_core`) and the decisions of the worker's sessions
  (`worker_session`). The laws of the protocol are proof functions beside the
  code they speak of (`lemma_admission`, `lemma_peer_discovery`,
  `lemma_handshake`, ...).
- `app/` is the program: sockets, tasks, channels, timers and JSON, driving
  the library's step functions. `app supervisor` (the default) or
  `app worker`.
- `tests/` runs the library on concrete values.

# drift

Drift coordinates model training across independent, geographically spread
nodes over encrypted iroh (QUIC) connections. Each node trains on its own shard
at its own pace; the coordinator checks that every node runs the same signed
commit of the training repository, hands out shards, and redistributes the work
of nodes that fail.

The library in `src/` is written in Verus. Its own functions carry contracts
that the verifier proves. The few calls it makes into other code (Ed25519
signing and verification, the LRU cache, TOML parsing, the clock, randomness,
the file system, iroh keys) go through small trusted wrappers in
`src/auth/crypto.rs`, `src/auth/replay.rs`, `src/node/script_discovery.rs`,
`src/platform.rs` and `src/auth/node.rs`: their contracts describe what those
libraries do and are assumed, not proved.

## Layout

- `src/auth/`: node identities (Ed25519), the signed auth message, threshold
  aggregation of signatures, replay protection (nonce cache, timestamps),
  sequence-number checks, and the coordinator's signature rounds.
- `src/proto.rs`: shard assignments, the coordinator's node slots, cache paths,
  and the length-prefixed framing of messages on the wire.
- `src/coord/`: the environment variables handed to nodes (with secrets
  filtered out), the peer registry and its redistribution of failed shards, the
  coordinator's signature collection, and the commit consensus check.
- `src/node/`: locating a training repository and its entry point, reading GPU
  descriptions, building training command lines, and the decisions a node takes
  while it talks with the coordinator.
- `src/text.rs`, `src/platform.rs`: string helpers, and the clock, randomness
  and file-system queries the library relies on.
- `app/`: the `drift` program (`join`, `train`, `status`): networking, processes,
  files and JSON, around the library.
- `tests/`: tests of the library.

# aleo_pool_server

The logic of an Aleo mining pool server, verified with Verus.

- `src/stratum`: the stratum messages and a model of their JSON-RPC form
  (the members and values the protocol reads), with the laws that what the
  pool writes reads back as the same message. These laws hold on that model:
  the JSON text itself is written and read with serde_json in `app/`. The
  lines that carry the text are framed and split in `frame.rs`.
- `src/pool/accounting.rs`: the PPLNS window of recent shares and what each
  prover holds of it.
- `src/pool/connection.rs`: the phases of a prover connection (handshake,
  authorization, submitted shares); job ids and hexadecimal.
- `src/pool/server.rs`: seen nonces, the checks a share goes through, prover
  difficulties and the registry of connected provers.
- `src/pool/peer.rs`: what each message from the validator node calls for.
- `src/pool/aleo.rs`: addresses, KZG commitments and proofs, the share hash
  and the check of a share's proof, as snarkVM gives them.
- `src/cache.rs`, `src/pool/cache.rs`, `src/speedometer.rs`: expiring
  values and rate meters.

`app/` runs the pool: sockets, the HTTP API, the accounting and server tasks,
floating-point rates, the JSON text, and the loading of the coinbase
puzzle's verifying keys.

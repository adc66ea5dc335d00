# iroh: verified decisions of an endpoint

A library crate whose behaviour is stated in contracts and proved by Verus, with
the plumbing that runs it.

- `src/net_report`: learning about the network. The request slot, the progress
  of QUIC Address Discovery, the report, the history of reports with the choice
  of the preferred relay, and the actor that ties them together. `laws.rs` holds
  what is true of the actor as a whole.
- `src/remote_state`: managing all connections to one remote endpoint. Paths and
  those that wait to be opened, path selection, holepunching, events of
  connections and paths, address lookup, and the step that an event calls for.
  `laws.rs` holds what is true of all of it, and `authorization.rs` what is held
  back on a connection until NAT traversal is authorized.
- `src/test_transport.rs`: a simulated network of in-memory channels.
- `src/addr.rs`, `src/time.rs`, `src/flat.rs`: addresses and identities, time,
  and sequences that are put together piece by piece.
- `app`: tasks, timers, channels and QUIC connections around the library.
- `tests`: the library run on concrete values.

Both actors are functions from a state and an event to a next state and a list
of actions. `app` performs the actions and hands back the events.

What is believed rather than proved about other crates stands in functions
marked `external_body`, each with a comment that says what it claims: hash maps
of `rustc_hash` in `src/remote_state/fx_map.rs`, the check of public keys by
`ed25519_dalek` in `src/addr.rs`, and `bytes` and the channels of `tokio` in
`src/test_transport.rs`.

An endpoint's identity is an Ed25519 public key, and `ed25519_dalek` is asked
directly whether bytes are one. The crate that holds the endpoint's base types
belongs to the same project as this library, which keeps to dependencies from
outside of it; that the two accept the same keys is assumed.

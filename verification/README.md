# tonic-iroh-transport

A transport layer for [tonic](https://github.com/hyperium/tonic) gRPC services over
[iroh](https://github.com/n0-computer/iroh) peer-to-peer connections.

- `src/` is the library: everything the transport decides and computes, with contracts that Verus
  proves. Calls into other crates (hashing, signing, serialization, URIs) stand behind small
  functions marked `external_body`, each with a comment that says what is taken on trust.
- `tests/` runs the library on concrete values, with the real crates linked.
- `app/` is ordinary Rust around the library: sockets, tasks, timers, and the impls of other crates'
  traits.

Modules of the library:

- `alpn`, `user_data`: the names of services and how a node announces them
- `swarm::record`, `swarm::dht`: signed advertisements in shard buckets of the mainline DHT
- `swarm::{peers, engine, locator, connect, registry, stream}`: peer discovery and connection racing
- `mainline_discovery`: topic-based discovery over the mainline DHT
- `pool`: the connection pool and the course of one pooled connection
- `channel`, `client`, `server`, `stream`, `transport`, `rpc`: HTTP/2 over iroh streams
- `gossip`: topics and handlers of typed gossip messages
- `otel`: trace context in gRPC metadata
- `keys`, `hash`, `wire`, `octets`, `order`, `peer_map`, `text`, `time`, `schedule`, `io_error`,
  `error`: what the others are built on

//! Transport layer for using tonic gRPC over iroh p2p connections.
//!
//! What the transport decides and computes, verified: the names and announcements of services,
//! signed advertisements in the DHT and who may publish what where, peer discovery and connection
//! racing, the connection pool, the course of HTTP/2 bodies, gossip topics and handlers.

pub mod alpn;
pub mod channel;
pub mod client;
pub mod error;
pub mod gossip;
pub mod hash;
pub mod io_error;
pub mod keys;
pub mod mainline_discovery;
pub mod octets;
pub mod order;
pub mod otel;
pub mod peer_map;
pub mod pool;
pub mod rpc;
pub mod schedule;
pub mod server;
pub mod stream;
pub mod swarm;
pub mod text;
pub mod time;
pub mod transport;
pub mod user_data;
pub mod wire;

pub use client::{connect_alpn, ConnectBuilder};
pub use error::Error;
pub use pool::{PoolError, PoolOptions};
pub use rpc::RpcServer;
pub use transport::TransportBuilder;
pub use user_data::{user_data_alpns, user_data_has_alpn, user_data_has_service, UserData};

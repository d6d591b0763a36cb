//! Swarm: unified peer discovery and connection racing.
//!
//! - Signed advertisements in shard buckets of the DHT
//! - Per-feed priority, trust, and scope
//! - Merged, deduped peers consumed by the locator

pub mod connect;
pub mod dht;
pub mod discovery;
pub mod engine;
pub mod locator;
pub mod peers;
pub mod record;
pub mod registry;
pub mod stream;

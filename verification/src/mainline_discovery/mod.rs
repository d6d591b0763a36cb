//! Mainline DHT discovery.
//!
//! Topic-based peer discovery over the BitTorrent mainline DHT, without known peer ids or
//! bootstrap nodes.
//!
//! - **Topic = service ALPN**: each service gets a unique topic derived from its ALPN
//! - **Secret = hash of the ALPN**: anyone who knows the service name can discover providers
//! - **Coarse tags**: optional tags (region, tier) for filtering at discovery time

pub mod discovery;
pub mod publisher;
pub mod record;
pub mod topic;

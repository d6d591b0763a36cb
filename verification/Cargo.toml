[package]
name = "tonic-iroh-transport"
version = "0.1.0"
edition = "2021"
publish = false

# distributed-topic-tracker, which app/mainline_discovery.rs calls, is left out: its own dependencies
# make the lock file too large.
[dependencies]
async-stream = "=0.3.6"
async-trait = "=0.1.92"
axum = { version = "=0.8.9", default-features = false }
blake3 = "=1.8.7"
bytes = "=1.12.1"
data-encoding = "=2.11.1"
# Not called: held to the pre-release that ed25519-dalek 3.0.0-pre.1 builds with.
ed25519 = "=3.0.0-rc.4"
ed25519-dalek = "=3.0.0-pre.1"
futures-util = "=0.3.34"
h2 = "=0.4.20"
http = "=1.5.0"
http-body = "=1.1.0"
hyper-util = { version = "=0.1.21", features = ["tokio"] }
iroh = { version = "=0.97.0", default-features = false, features = ["address-lookup-mdns"] }
iroh-gossip = { version = "=0.97.0", default-features = false, features = ["net"] }
mainline = { version = "=6.2.0", default-features = false, features = ["node"] }
n0-future = "=0.3.2"
opentelemetry = { version = "=0.31.0", default-features = false, features = ["trace"] }
# Not called: held to the last pre-release that ed25519 3.0.0-rc.4 builds with.
pkcs8 = "=0.11.0-rc.11"
postcard = { version = "=1.1.3", default-features = false, features = ["alloc"] }
prost = "=0.14.4"
serde = { version = "=1.0.229", features = ["derive"] }
sha2 = "=0.11.0-rc.2"
thiserror = "=2.0.21"
tokio = { version = "=1.54.1", features = ["io-util", "macros", "rt-multi-thread", "sync", "time"] }
tokio-stream = { version = "=0.1.19", features = ["sync", "time"] }
tonic = "=0.14.9"
tower = { version = "=0.5.3", features = ["util"] }
tracing = "=0.1.44"

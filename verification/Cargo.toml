[package]
name = "hopr_utilities"
version = "0.1.0"
edition = "2021"
publish = false

[dependencies]
anyhow = "=1.0.104"
async-broadcast = "=0.7.2"
async-trait = "=0.1.92"
const-hex = "=1.19.3"
dashmap = "=6.2.1"
event-listener = "=5.4.2"
futures = "=0.3.34"
futures-time = "=3.1.0"
hopr-api = { version = "=5.0.0", default-features = false, features = ["chain", "node"] }
hopr-types = { version = "=5.0.0", default-features = false, features = ["network", "serde", "telemetry"] }
lazy_static = "=1.5.1"
libc = "=0.2.191"
rayon = "=1.12.0"
serde_json = "=1.0.154"
thiserror = "=2.0.21"
tokio = { version = "=1.54.1", default-features = false, features = ["rt", "sync", "time"] }
tracing = { version = "=0.1.44", default-features = false, features = ["std"] }

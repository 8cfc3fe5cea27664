[package]
name = "zakura-grpc"
version = "0.1.0"
edition = "2021"
publish = false

[dependencies]
bytes = "=1.12.1"
clap = { version = "4", features = ["derive", "env"] }
futures-core = "0.3"
metrics = "0.24"
parking_lot = "0.12"
prost = "=0.14.4"
prost-types = "0.14"
rayon = "1"
serde = { version = "1", features = ["derive"] }
serde_json = "1"
thiserror = "2"
tokio = { version = "1", features = ["macros", "net", "rt-multi-thread", "sync", "time"] }
tokio-stream = { version = "0.1", features = ["net"] }
tokio-util = "0.7"
toml = "0.9"
tonic = { version = "=0.14.9", features = ["gzip", "zstd", "tls-ring"] }
tonic-health = "0.14"
tonic-prost = "=0.14.4"
tracing = "0.1"
zakura-chain = "=5.0.0"

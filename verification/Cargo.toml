[package]
name = "yellowstone_grpc"
version = "0.1.0"
edition = "2021"
publish = false

[dependencies]
siphasher = "=1.0.4"
prost-types = "=0.13.5"
prost = "=0.13.5"
serde_json = "1"
serde = { version = "=1.0.229", features = ["derive"] }
solana-pubkey = { version = "=3.0.0", default-features = false }
agave-geyser-plugin-interface = "=3.1.14"
solana-logger = "=3.0.0"
tokio = { version = "=1.54.1", features = ["full"] }
tokio-stream = "=0.1.19"
tonic = { version = "=0.12.3", features = ["tls", "zstd"] }
tonic-health = "=0.12.3"
futures = "=0.3.34"
log = "=0.4.35"
anyhow = "=1.0.104"
clap = { version = "=4.6.7", default-features = false, features = ["derive", "std", "help"] }
env_logger = { version = "0.11", default-features = false }
clickhouse = { version = "=0.13.3", default-features = false, features = ["time"] }
once_cell = "1"
time = "=0.3.55"
crossbeam-channel = "=0.5.17"
async-trait = "=0.1.92"
reqwest = { version = "=0.12.28", default-features = false }
affinity-linux = "=1.0.1"
solana-transaction-status = { version = "=3.1.14", features = ["agave-unstable-api"] }
bincode = "=1.3.3"

[package]
name = "aleo_pool_server"
version = "0.1.0"
edition = "2021"
publish = false

[dependencies]
anyhow = "=1.0.104"
bytes = "=1.12.1"
clap = { version = "=4.6.7", features = ["derive"] }
dirs = "=7.0.0"
dotenv = "=0.15.0"
flurry = "=0.5.2"
futures = "=0.3.34"
hex = "=0.4.3"
json-rpc-types = "=1.3.4"
num_cpus = "=1.17.0"
parking_lot = "=0.12.5"
rand = "=0.10.3"
rayon = "=1.12.0"
savefile = "=0.20.6"
savefile-derive = "=0.20.6"
semver = "=1.0.28"
serde = { version = "=1.0.229", features = ["derive"] }
serde_json = "=1.0.154"
signal-hook = "=0.4.6"
signal-hook-tokio = { version = "=0.4.0", features = ["futures-v0_3"] }
snarkvm-algorithms = "=0.9.16"
snarkvm-console = "=0.9.16"
snarkvm-synthesizer = "=0.9.16"
tokio = { version = "=1.54.1", features = ["full"] }
tokio-stream = "=0.1.19"
tokio-util = { version = "=0.7.20", features = ["codec"] }
tracing = "=0.1.44"
tracing-log = "=0.2.0"
tracing-subscriber = { version = "=0.3.23", features = ["env-filter"] }
warp = { version = "=0.4.3", features = ["server"] }

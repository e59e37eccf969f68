[package]
name = "aptos_execution"
version = "0.1.0"
edition = "2021"
publish = false

[dependencies]
anyhow = "=1.0.104"
aptos-sdk = { version = "=0.8.0", default-features = false }
clap = { version = "=4.6.7", features = ["derive"] }
crossbeam-channel = "=0.5.17"
fail = "=0.5.1"
move-core-types = "=0.0.3"
num_cpus = "=1.17.0"
once_cell = "=1.21.4"
petgraph = "=0.6.5"
rand = "=0.7.3"
rayon = "=1.12.0"
tokio = { version = "=1.54.1", features = ["sync"] }
url = "=2.5.8"

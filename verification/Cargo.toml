[package]
name = "cargo_vendormod"
version = "0.2.0"
edition = "2021"
publish = false

[dependencies]
petgraph = "=0.8.3"
regex = "=1.13.1"
toml = "=1.2.1"
toml_edit = "=0.25.18"
num-bigint = "=0.5.1"
num-traits = "=0.2.19"
num_cpus = "=1.17.0"
dirs = "=7.0.0"
serde = { version = "=1.0.229", features = ["derive"] }
serde_json = "=1.0.154"
anyhow = "=1.0.104"
walkdir = "=2.5.0"
glob = "=0.3.4"
chrono = "=0.4.45"
rayon = "=1.12.0"
log = "=0.4.35"
pathdiff = "=0.2.3"
clap = { version = "=4.6.7", features = ["derive"] }
git-config = "=0.15.1"
cargo_metadata = "=0.23.1"

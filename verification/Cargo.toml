[package]
name = "packet_source"
version = "0.1.0"
edition = "2021"
publish = false

[dependencies]
data-encoding = "*"
x25519-dalek = { version = "*", features = ["getrandom", "static_secrets"] }
rand_core = { version = "*", features = ["getrandom"] }
tokio = { version = "*", features = ["net", "rt", "rt-multi-thread", "sync", "time", "io-util", "macros"] }
nix = { version = "*", features = ["fs"] }
home = "*"
log = "*"
anyhow = "*"
sysinfo = "*"
hickory-resolver = "*"

[dev-dependencies]
prost = { version = "*", default-features = false, features = ["std"] }

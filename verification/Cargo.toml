[package]
name = "sonify_health"
version = "0.1.0"
edition = "2021"
publish = false

[dependencies]
sha2 = "0.10"
serde = { version = "1", features = ["derive"] }
serde_json = "1"
toml = "0.8"
thiserror = "2"
tracing = "0.1"
clap = { version = "4", features = ["derive", "env"] }
gethostname = "0.5"
rand = "0.8"
rand_xoshiro = "0.6"
parking_lot = "0.12"
fundsp = "0.20"
ctrlc = "3"
tempfile = "3"

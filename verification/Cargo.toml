[package]
name = "tusker"
version = "0.1.0"
edition = "2021"
publish = false

[dependencies]
itertools = "=0.15.0"
sha2 = "=0.11.1"
anyhow = "=1.0.104"
clap = { version = "=4.6.7", features = ["derive"] }
config = { version = "=0.15.27", default-features = false, features = ["toml"] }
darling = "0.20"
glob = "=0.3.4"
postgres-types = "=0.2.14"
proc-macro2 = "1"
quote = "1"
serde = { version = "=1.0.229", features = ["derive"] }
serde_json = "=1.0.154"
syn = "2"
termcolor = "=1.4.1"
thiserror = "=2.0.21"
time = "=0.3.55"
tokio = { version = "=1.54.1", features = ["rt-multi-thread", "macros", "fs", "io-util"] }
tokio-postgres = { version = "=0.7.18", features = ["with-time-0_3", "with-serde_json-1"] }
toml = "=1.1.8"
uzers = "=0.12.2"

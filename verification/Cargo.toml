[package]
name = "wok_core"
version = "0.1.0"
edition = "2021"
publish = false

[dependencies]
serde = { version = "=1.0.229", features = ["derive"] }
toml = "=0.8.23"
syn = { version = "=2.0.119", features = ["full", "extra-traits"] }
proc-macro2 = "=1.0.107"
quote = "=1.0.47"
thiserror = "=2.0.21"
futures = "=0.3.34"
async-channel = "=2.5.0"
clap = "4"
dotenvy = "0.15"

[package]
name = "crate_indexer"
version = "0.1.0"
edition = "2021"
publish = false

[dependencies]
anyhow = "1"
byteorder = "1"
clap = { version = "4", features = ["derive"] }
dirs = "6"
flate2 = "1"
proc-macro2 = { version = "1", features = ["span-locations"] }
quote = "1"
rayon = "1"
regex = "1"
reqwest = { version = "0.12", default-features = false, features = ["blocking", "json", "rustls-tls"] }
rmcp = { version = "1", features = ["server", "transport-io", "macros"] }
rusqlite = { version = "0.37", features = ["bundled"] }
schemars = "1"
serde = { version = "1", features = ["derive"] }
syn = { version = "2", features = ["full", "visit", "extra-traits"] }
tar = "0.4"
tokio = { version = "1", features = ["rt-multi-thread", "macros"] }
toml = "0.9"
walkdir = "2"

[package]
name = "oracle"
version = "0.1.0"
edition = "2021"
publish = false

[dependencies]
syn = { version = "=2.0.119", features = ["full"] }
proc-macro2 = { version = "=1.0.107", features = ["span-locations"] }
quote = "=1.0.47"
petgraph = "=0.8.3"
toml = "=1.1.7"
fuzzy-matcher = "=0.3.7"
unicode-width = "=0.2.2"
cargo_metadata = "=0.23.1"
crossterm = "*"
dirs = "*"
dotenvy = "*"
ratatui = "*"
reqwest = { version = "*", default-features = false, features = ["blocking", "json"] }
serde = { version = "1", features = ["derive"] }
serde_json = "1"
serde_yaml = "*"
thiserror = "*"
webbrowser = "*"

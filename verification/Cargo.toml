[package]
name = "hotfnl"
version = "0.1.0"
edition = "2021"
publish = false

[dependencies]
anyhow = "1"
crossbeam-channel = "0.5"
notify = "8"
libloading = "0.8"
postcard = { version = "1", features = ["alloc"] }
serde = { version = "1", features = ["derive"] }
toml = "0.8"
inventory = "0.3"
proc-macro2 = "1"
quote = "1"
syn = { version = "2", features = ["full", "visit-mut"] }
crossterm = "0.28"
ratatui = "0.29"

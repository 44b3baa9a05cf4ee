[package]
name = "proctrack"
version = "0.1.0"
edition = "2021"
publish = false

[dependencies]
anyhow = "1"
clap = { version = "4", features = ["derive"] }
crossterm = "0.25"
proc-macro2 = "1"
quote = "1"
regex = "1"
serde = { version = "1", features = ["derive"] }
syn = { version = "2", features = ["full"] }
toml = "0.8"
tui = "0.19"

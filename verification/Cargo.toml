[package]
name = "rustirc"
version = "0.1.0"
edition = "2021"
publish = false

[dependencies]
anyhow = "1"
chrono = "0.4"
clap = { version = "4", features = ["derive"] }
colored = "2"
crossterm = "0.25"
figlet-rs = "*"
rand = "0.8"
rust-ini = "*"
serde = { version = "1", features = ["derive"] }
serde_json = "1"
tabled = "*"
textwrap = "0.16"
tokio = { version = "1", features = ["rt-multi-thread", "macros", "net", "io-util", "sync"] }
tui = "0.19"
uuid = { version = "1", features = ["v4"] }

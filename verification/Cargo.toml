[package]
name = "imbh_tui"
version = "0.1.0"
edition = "2021"
publish = false

[dependencies]
unicode-width = "0.2"
ratatui = "0.30"
crossterm = "0.29"
tokio = { version = "1", features = ["rt", "macros", "sync", "time"] }
rand = { version = "0.9", features = ["small_rng"] }

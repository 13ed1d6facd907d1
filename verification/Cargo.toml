[package]
name = "blazingjj"
version = "0.1.0"
edition = "2021"
publish = false

[dependencies]
ansi-to-tui = "*"
anyhow = "*"
ratatui = "*"
serde = { version = "*", features = ["derive"] }
toml = "*"
tracing = "*"
tui_confirm_dialog = "*"

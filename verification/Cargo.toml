[package]
name = "bloop"
version = "0.1.0"
edition = "2021"
publish = false

[dependencies]
urlencoding = "=2.1.3"
emojis = "=0.6.4"
unicode-width = "=0.2.0"
serde = { version = "=1.0.229", features = ["derive"] }
serde_json = "=1.0.154"
ureq = { version = "=3.5.1", features = ["json", "multipart"] }
textwrap = "=0.16.4"
chrono = "=0.4.45"
crossterm = "=0.28.1"
ratatui = "=0.29.0"
ratatui-image = "=8.1.1"
image = "=0.25.10"
color-eyre = "=0.6.5"

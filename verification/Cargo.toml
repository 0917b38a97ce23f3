[package]
name = "fin"
version = "0.1.0"
edition = "2021"
publish = false

[dependencies]
anyhow = "=1.0.104"
chrono = "=0.4.45"
clap = { version = "=4.6.7", features = ["derive", "env"] }
crossterm = { version = "=0.28.1", features = ["event-stream"] }
directories = "=6.0.0"
futures = "=0.3.34"
md5 = "=0.7.0"
mdns-sd = "=0.21.7"
mpris-server = "=0.11.0"
percent-encoding = "=2.3.2"
rand = "=0.9.5"
ratatui = "=0.29.0"
rb = "0.4"
reqwest = { version = "=0.12.28", default-features = false, features = ["json", "rustls-tls"] }
rpassword = "=7.5.4"
rust_cast = "=0.21.0"
rustls = "=0.23.46"
serde = { version = "=1.0.229", features = ["derive"] }
serde_json = "=1.0.154"
socket2 = "=0.5.10"
symphonia = { version = "0.5", features = ["all"] }
tokio = { version = "=1.54.1", features = ["full"] }
toml = "=0.8.23"
tracing = "=0.1.44"
tracing-subscriber = { version = "=0.3.23", features = ["env-filter"] }
unicode-width = "=0.2.0"
url = "=2.5.8"
uuid = { version = "=1.29.0", features = ["v4"] }
whoami = "=1.6.1"

[package]
name = "unixd"
version = "0.1.0"
edition = "2021"
publish = false

[dependencies]
sha2 = "0.10"
serde = { version = "1", features = ["derive"] }
serde_json = "1"
humantime = "2"
humantime-serde = "1"
tokio = { version = "1", features = ["full"] }
tokio-util = { version = "0.7", features = ["codec", "rt"] }
futures-util = "0.3"
rustix = { version = "1", features = ["fs", "process", "net"] }
nix = { version = "0.30", features = ["user", "socket"] }
plist = "1"
indoc = "2"
secrecy = "0.10"
tempfile = "3"

[package]
name = "remagic"
version = "0.1.0"
edition = "2021"
publish = false

[dependencies]
ab_glyph = "*"
base64 = "0.22"
libc = "0.2"
png = "*"
ring = "0.17"
serde = { version = "1", features = ["derive"] }
serde_json = "1"
sha2 = "0.10"
thiserror = "*"
tokio = { version = "1", features = ["fs", "io-util", "macros", "net", "process", "rt", "signal", "sync", "time"] }
toml = "*"
tracing = "0.1"

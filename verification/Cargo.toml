[package]
name = "orchd"
version = "0.1.0"
edition = "2021"
publish = false

[dependencies]
anyhow = "=1.0.104"
base64 = "=0.22.1"
clap = { version = "=4.6.7", features = ["derive"] }
containerd-client = "=0.9.0"
hex = "=0.4.3"
libc = "=0.2.191"
prost-types = "=0.14.4"
serde = { version = "=1.0.229", features = ["derive"] }
serde_json = "=1.0.154"
sha2 = "=0.10.9"
thiserror = "=2.0.21"
tokio = { version = "=1.54.1", features = ["rt-multi-thread", "macros", "signal", "net", "io-util", "time"] }
tonic = "=0.14.9"

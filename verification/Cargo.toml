[package]
name = "tunnet"
version = "0.1.0"
edition = "2021"
publish = false

[dependencies]
anyhow = "=1.0.104"
arc-swap = "=1.9.3"
atomic-write-file = "=0.3.1"
bytes = "=1.12.1"
dashmap = "=6.2.1"
kameo = "=0.22.2"
libc = "=0.2.191"
parking_lot = "=0.12.5"
rand = "=0.10.3"
russh = { version = "=0.65.0", default-features = false, features = ["ring"] }
russh-sftp = "=3.0.1"
serde = { version = "=1.0.229", features = ["derive"] }
tokio = { version = "=1.54.1", features = ["full"] }
tracing = "=0.1.44"
uuid = { version = "=1.29.0", features = ["v4"] }
windows-sys = { version = "*", features = ["Win32_Foundation", "Win32_Security", "Win32_Security_Authorization", "Win32_System_RemoteDesktop"] }

[dev-dependencies]
etherparse = "=0.21.0"
tempfile = "=3.27.0"

[package]
name = "alumet"
version = "0.1.0"
edition = "2021"
publish = false

[dependencies]
anyhow = "1"
evalexpr = "11"
fxhash = "0.2"
gethostname = "*"
log = "0.4"
mio = { version = "1", features = ["os-poll", "os-ext"] }
notify = "*"
rustc-hash = "2"
serde = { version = "1", features = ["derive"] }
thiserror = "*"
tokio = { version = "1", features = ["rt-multi-thread", "sync", "time", "macros"] }
walkdir = "2"

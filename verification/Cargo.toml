[package]
name = "zetax"
version = "0.1.0"
edition = "2021"
publish = false

[dependencies]
num_cpus = "1"
tquic = "*"
mio = { version = "1", features = ["os-poll", "net"] }
bytes = "1"
log = "0.4"
env_logger = "*"
futures = "0.3"
inventory = "*"
rayon = "1"
rustc-hash = "*"
slab = "0.4"
socket2 = { version = "0.5", features = ["all"] }
tokio = { version = "1", features = ["sync", "rt", "macros"] }
tokio-stream = "*"

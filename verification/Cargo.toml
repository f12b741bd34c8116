[package]
name = "wavelet"
version = "0.1.0"
edition = "2021"
publish = false

[dependencies]
petgraph = "*"
crossbeam-queue = "*"
crossbeam-utils = "*"
mio = { version = "1", features = ["os-poll", "os-ext", "net"] }
time = "0.3"
thiserror = "*"
enum-as-inner = "*"
ahash = "*"
slab = "*"
spin = "*"
signal-hook = "*"
derive_builder = "*"

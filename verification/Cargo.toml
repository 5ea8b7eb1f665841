[package]
name = "logpush"
version = "0.1.0"
edition = "2021"
publish = false

[dependencies]
fnv = "=1.0.7"
quick-protobuf = "=0.8.1"
snap = "0.2"
chrono = { version = "=0.4.45", default-features = false, features = ["std"] }
ureq = { version = "1.5", default-features = false }
lazy_static = "1"

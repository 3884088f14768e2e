[package]
name = "muc"
version = "0.1.0"
edition = "2021"
publish = false

[dependencies]
bincode = "=1.3.3"
chrono = { version = "=0.4.45", features = ["serde"] }
colored = "=2.2.0"
ctrlc = "=3.5.2"
fern = "=0.6.2"
laminar = "=0.5.0"
log = "=0.4.35"
log-panics = { version = "=2.1.0", features = ["with-backtrace"] }
rand = "=0.8.8"
ron = "=0.8.1"
rsa = "=0.8.2"
serde = { version = "=1.0.229", features = ["derive"] }
spin_sleep = "=1.3.3"
uuid = { version = "=1.29.1", features = ["v4", "serde"] }

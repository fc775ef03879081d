[package]
name = "p2p_books"
version = "0.1.0"
edition = "2021"
publish = false

[dependencies]
libp2p = { version = "0.39", default-features = false, features = ["floodsub", "mdns", "mplex", "noise", "tcp-tokio"] }
log = "0.4"
once_cell = "1"
pretty_env_logger = "0.4"
serde = { version = "1", features = ["derive"] }
serde_json = "1"
tokio = { version = "1", features = ["fs", "io-std", "io-util", "macros", "rt", "rt-multi-thread", "sync"] }

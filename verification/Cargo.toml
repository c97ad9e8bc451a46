[package]
name = "drill"
version = "0.1.0"
edition = "2021"
publish = false

[dependencies]
bytes = "=1.12.1"
clap = { version = "=4.6.7", features = ["derive"] }
dashmap = "=5.5.3"
env_logger = "=0.10.2"
futures-util = { version = "=0.3.34", default-features = false, features = ["sink"] }
http = "=0.2.12"
http-body-util = "=0.1.5"
httparse = "=1.10.1"
hyper = { version = "=1.12.0", features = ["client", "http1"] }
hyper-rustls = { version = "=0.26.0", default-features = false, features = ["http1", "ring", "tls12", "webpki-tokio"] }
hyper-util = { version = "=0.1.21", features = ["client-legacy", "http1", "tokio"] }
libc = "=0.2.191"
log = "=0.4.35"
tokio = { version = "=1.54.1", features = ["rt-multi-thread", "net", "io-util", "macros", "sync", "time"] }
tokio-websockets = { version = "0.3", default-features = false, features = ["client", "server", "fastrand", "rustls-webpki-roots"] }
uuid = { version = "=1.29.0", features = ["v4"] }

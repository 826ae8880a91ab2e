[package]
name = "inm"
version = "0.1.0"
edition = "2021"
publish = false

[dependencies]
core-foundation-sys = "0.8"
futures = "0.3"
glib = "*"
http-body-util = "0.1"
hyper = { version = "1", features = ["client", "http1"] }
hyper-util = { version = "0.1", features = ["tokio"] }
image = { version = "0.25", default-features = false }
percent-encoding = "2"
rustls = { version = "0.23", default-features = false, features = ["ring", "std", "tls12"] }
rustls-pemfile = "2"
serde = { version = "1", features = ["derive"] }
serde_json = "1"
serde_yaml = "0.9"
smallvec = "1"
spice-client-glib = "*"
tokio = { version = "1", features = ["full"] }
tokio-rustls = { version = "0.26", default-features = false, features = ["ring", "tls12"] }
tokio-tungstenite = "*"
